//! The analyzer: follows data through pipelines and reports risky effects.
use vstd::prelude::*;
use vstd::utf8::encode_utf8;
use crate::builder::{analysis_wf, AnalysisBuilder};
use crate::model::{Analysis, Confidence, EffectKind, Evidence, Severity};
use crate::rules::{clean_path, is_credential, is_credential_path, is_persistence_path};
use crate::semantics::{lemma_unwrap_shrinks, analysis_of, base64_step, cat_findings, command_dispatch, command_effects, command_prelude, command_size, credential_findings, curl_step, destructive, download_step, downloaded_run_findings, empty_context, eval_step, file_labels, files_flow, finding, from_credentials, from_network, gzip_step, has_arg, is_eval_like, is_privilege_wrapper, is_script_interpreter, is_shell, is_transmitter, label, levels_left, literal_flow, nest, network_flow, non_options, persistence_findings, piped_shell_findings, primary_source, record_downloads, redirect_targets, rm_force, rm_recursive, run_pipeline, run_pipelines, script_findings, script_step, shell_step, substitution_findings, tee_findings, transform_label, transformed, wget_step, xxd_step, ContextView, FlowView};
use crate::decoder::{decode_base64_text, decode_gzip_bytes, decode_hex_text};
use crate::shell::{command_name, extract_command_substitutions, normalize_command, split_pipelines, tokenize, ShellToken};
use crate::syntax::collect_syntax_findings;
use crate::rules::{
    contains_url, printf_literal, script_after_any_flag, script_after_flag, strip_privilege_wrapper,
};
use crate::shell::{lookup_binding, SimpleCommand};
use crate::text::{append_chars, chars_eq, chars_of, copy_chars, has_char_exec, has_prefix, join, join_chars, starts_with, string_of};

verus! {

broadcast use crate::text::lemma_char_vec_deep_view, crate::text::lemma_byte_vec_deep_view;

/// Decoded input up to this many bytes is analyzed.
pub const DEFAULT_MAX_DECODE_INPUT: usize = 65536;

/// Decoded output up to this many bytes is analyzed.
pub const DEFAULT_MAX_DECODE_OUTPUT: usize = 65536;

/// Decoded or nested text is analyzed down to this depth.
pub const DEFAULT_MAX_RECURSION: usize = 4;

/// The analyzer's limits: input and output sizes for decoding, and how deep
/// decoded or nested command text is analyzed in turn.
#[derive(Debug, Clone, Copy)]
pub struct Analyzer {
    max_decode_input: usize,
    max_decode_output: usize,
    max_recursion: usize,
}

impl Analyzer {
    /// Limits that keep decoding and nesting bounded.
    #[verifier::type_invariant]
    spec fn limits_fit(self) -> bool {
        self.max_recursion < usize::MAX && self.max_decode_output < usize::MAX
    }

    /// The largest decoded input, in bytes.
    pub closed spec fn max_input(self) -> nat {
        self.max_decode_input as nat
    }

    /// The largest decoded output, in bytes.
    pub closed spec fn max_output(self) -> nat {
        self.max_decode_output as nat
    }

    /// The deepest nesting of analyzed text.
    pub closed spec fn max_depth(self) -> nat {
        self.max_recursion as nat
    }
}

impl Default for Analyzer {
    /// The default limits: 64 KiB of decoded input and output, nesting depth 4.
    fn default() -> (r: Self)
        ensures
            r.max_input() == DEFAULT_MAX_DECODE_INPUT,
            r.max_output() == DEFAULT_MAX_DECODE_OUTPUT,
            r.max_depth() == DEFAULT_MAX_RECURSION,
    {
        Analyzer {
            max_decode_input: DEFAULT_MAX_DECODE_INPUT,
            max_decode_output: DEFAULT_MAX_DECODE_OUTPUT,
            max_recursion: DEFAULT_MAX_RECURSION,
        }
    }
}

/// Data flowing through a pipeline: its sources, the transforms applied to it,
/// and its text and bytes when they are known.
pub struct DataFlow {
    pub sources: Vec<Vec<char>>,
    pub transforms: Vec<Vec<char>>,
    pub text: Option<Vec<char>>,
    pub bytes: Option<Vec<u8>>,
}

impl View for DataFlow {
    type V = FlowView;

    open spec fn view(&self) -> FlowView {
        FlowView {
            sources: self.sources.deep_view(),
            transforms: self.transforms.deep_view(),
            text: self.text.deep_view(),
            bytes: self.bytes.deep_view(),
        }
    }
}

/// The mathematical value of an optional flow.
pub open spec fn flow_view(f: Option<DataFlow>) -> Option<FlowView> {
    match f {
        Some(x) => Some(x@),
        None => None,
    }
}

/// Variable bindings and downloaded files, newest last.
pub struct AnalysisContext {
    pub vars: Vec<(Vec<char>, Vec<char>)>,
    pub downloaded_paths: Vec<(Vec<char>, Vec<char>)>,
}

impl View for AnalysisContext {
    type V = ContextView;

    open spec fn view(&self) -> ContextView {
        ContextView { vars: self.vars.deep_view(), downloads: self.downloaded_paths.deep_view() }
    }
}

/// `prefix(inner)`.
pub fn make_label(prefix: &str, inner: &[char]) -> (r: Vec<char>)
    ensures
        r@ == label(prefix@, inner@),
{
    let mut out = chars_of(prefix);
    append_chars(&mut out, inner);
    out.push(')');
    assert(out@ =~= label(prefix@, inner@)) by {
        reveal_strlit(")");
    }
    out
}

/// An optional text as an optional string.
fn opt_string(o: Option<Vec<char>>) -> (r: Option<String>)
    ensures
        r.deep_view() == o.deep_view(),
{
    match o {
        Some(v) => Some(string_of(&v)),
        None => None,
    }
}

/// A piece of evidence.
pub fn evidence(
    source: Option<Vec<char>>,
    transform: Option<Vec<char>>,
    sink: Option<Vec<char>>,
    effect: EffectKind,
    confidence: Confidence,
    reason: &str,
) -> (r: Evidence)
    ensures
        r@ == finding(source.deep_view(), transform.deep_view(), sink.deep_view(), effect, confidence, reason@),
{
    Evidence {
        source: opt_string(source),
        transform: opt_string(transform),
        sink: opt_string(sink),
        effect,
        confidence,
        reason: String::from_str(reason),
    }
}

/// A copy of a list of words.
pub fn copy_words(v: &Vec<Vec<char>>) -> (r: Vec<Vec<char>>)
    ensures
        r.deep_view() == v.deep_view(),
{
    crate::rules::words_tail(v, 0)
}

/// A copy of an optional text.
fn copy_opt_chars(o: &Option<Vec<char>>) -> (r: Option<Vec<char>>)
    ensures
        r.deep_view() == o.deep_view(),
{
    match o {
        Some(v) => Some(copy_chars(v)),
        None => None,
    }
}

/// A copy of optional bytes.
fn copy_opt_bytes(o: &Option<Vec<u8>>) -> (r: Option<Vec<u8>>)
    ensures
        r.deep_view() == o.deep_view(),
{
    match o {
        Some(v) => {
            let mut out: Vec<u8> = Vec::new();
            let mut i: usize = 0;
            while i < v.len()
                invariant
                    i <= v@.len(),
                    out@ == v@.take(i as int),
                decreases v@.len() - i,
            {
                out.push(v[i]);
                i = i + 1;
                assert(out@ =~= v@.take(i as int));
            }
            assert(v@.take(i as int) =~= v@);
            Some(out)
        },
        None => None,
    }
}

/// The UTF-8 bytes of a text.
fn utf8_bytes(text: &[char]) -> (r: Vec<u8>)
    ensures
        r@ == encode_utf8(text@),
{
    let s = string_of(text);
    let b = s.as_str().as_bytes();
    let mut out: Vec<u8> = Vec::new();
    let mut i: usize = 0;
    while i < b.len()
        invariant
            i <= b@.len(),
            out@ == b@.take(i as int),
        decreases b@.len() - i,
    {
        out.push(b[i]);
        i = i + 1;
        assert(out@ =~= b@.take(i as int));
    }
    assert(b@.take(i as int) =~= b@);
    out
}

impl DataFlow {
    /// Literal text written by `echo` or `printf`.
    pub fn literal(text: Vec<char>) -> (r: DataFlow)
        ensures
            r@ == literal_flow(text@),
    {
        let mut sources: Vec<Vec<char>> = Vec::new();
        sources.push(chars_of("literal"));
        let bytes = utf8_bytes(&text);
        let r = DataFlow { sources, transforms: Vec::new(), text: Some(text), bytes: Some(bytes) };
        assert(r@.sources =~= seq!["literal"@]);
        assert(r@.transforms =~= Seq::<Seq<char>>::empty());
        r
    }

    /// Content fetched from a URL.
    pub fn network(url: &[char]) -> (r: DataFlow)
        ensures
            r@ == network_flow(url@),
    {
        let mut sources: Vec<Vec<char>> = Vec::new();
        sources.push(make_label("network(", url));
        let r = DataFlow { sources, transforms: Vec::new(), text: None, bytes: None };
        assert(r@.sources =~= seq![label("network("@, url@)]);
        assert(r@.transforms =~= Seq::<Seq<char>>::empty());
        r
    }

    /// Content read from files.
    pub fn files(paths: &Vec<Vec<char>>) -> (r: DataFlow)
        ensures
            r@ == files_flow(paths.deep_view()),
    {
        let mut sources: Vec<Vec<char>> = Vec::new();
        let mut i: usize = 0;
        assert(sources.deep_view() =~= file_labels(paths.deep_view().take(0)));
        while i < paths.len()
            invariant
                i <= paths@.len(),
                sources.deep_view() == file_labels(paths.deep_view().take(i as int)),
            decreases paths@.len() - i,
        {
            let l = make_label("file(", &paths[i]);
            let ghost before = sources.deep_view();
            sources.push(l);
            assert(paths.deep_view().take(i + 1).drop_last() =~= paths.deep_view().take(i as int));
            assert(sources.deep_view() =~= before.push(label("file("@, paths.deep_view()[i as int])));
            i = i + 1;
        }
        assert(paths.deep_view().take(i as int) =~= paths.deep_view());
        let r = DataFlow { sources, transforms: Vec::new(), text: None, bytes: None };
        assert(r@.transforms =~= Seq::<Seq<char>>::empty());
        r
    }

    /// The flow after a decoding step.
    pub fn with_transform(&self, transform: &str, text: Vec<char>, bytes: Vec<u8>) -> (r: DataFlow)
        ensures
            r@ == transformed(self@, transform@, text@, bytes@),
    {
        let mut transforms = copy_words(&self.transforms);
        let ghost before = transforms.deep_view();
        transforms.push(chars_of(transform));
        assert(transforms.deep_view() =~= before.push(transform@));
        DataFlow { sources: copy_words(&self.sources), transforms, text: Some(text), bytes: Some(bytes) }
    }

    /// Whether a source is a network download.
    pub fn has_network_source(&self) -> (r: bool)
        ensures
            r == from_network(self@),
    {
        let prefix = chars_of("network(");
        let mut i: usize = 0;
        while i < self.sources.len()
            invariant
                i <= self.sources@.len(),
                prefix@ == "network("@,
                forall|j: int| 0 <= j < i ==> !starts_with(#[trigger] self@.sources[j], "network("@),
            decreases self.sources@.len() - i,
        {
            if has_prefix(&self.sources[i], &prefix) {
                assert(starts_with(self@.sources[i as int], "network("@));
                return true;
            }
            i = i + 1;
        }
        false
    }

    /// Whether a source is credential material.
    pub fn contains_credential_source(&self) -> (r: bool)
        ensures
            r == from_credentials(self@),
    {
        let mut i: usize = 0;
        while i < self.sources.len()
            invariant
                i <= self.sources@.len(),
                forall|j: int| 0 <= j < i ==> !is_credential(#[trigger] self@.sources[j]),
            decreases self.sources@.len() - i,
        {
            if is_credential_path(&self.sources[i]) {
                assert(is_credential(self@.sources[i as int]));
                return true;
            }
            i = i + 1;
        }
        false
    }

    /// A copy of the flow.
    pub fn copy(&self) -> (r: DataFlow)
        ensures
            r@ == self@,
    {
        DataFlow {
            sources: copy_words(&self.sources),
            transforms: copy_words(&self.transforms),
            text: copy_opt_chars(&self.text),
            bytes: copy_opt_bytes(&self.bytes),
        }
    }
}

/// The first source of a flow.
pub fn primary_source_of(flow: &Option<DataFlow>) -> (r: Option<Vec<char>>)
    ensures
        r.deep_view() == primary_source(flow_view(*flow)),
{
    match flow {
        Some(f) => if f.sources.len() > 0 {
            Some(copy_chars(&f.sources[0]))
        } else {
            None
        },
        None => None,
    }
}

/// The transforms of a flow joined by ` -> `.
pub fn transform_label_of(flow: &Option<DataFlow>) -> (r: Option<Vec<char>>)
    ensures
        r.deep_view() == transform_label(flow_view(*flow)),
{
    match flow {
        Some(f) => if f.transforms.len() == 0 {
            None
        } else {
            Some(join_chars(&f.transforms, &chars_of(" -> ")))
        },
        None => None,
    }
}

/// Whether a flow is there and has a credential source.
fn flow_from_credentials(flow: &Option<DataFlow>) -> (r: bool)
    ensures
        r == (flow_view(*flow) matches Some(f) && from_credentials(f)),
{
    match flow {
        Some(f) => f.contains_credential_source(),
        None => false,
    }
}


/// The arguments that are not options.
pub fn non_option_args(args: &Vec<Vec<char>>) -> (r: Vec<Vec<char>>)
    ensures
        r.deep_view() == non_options(args.deep_view()),
{
    let dash = chars_of("-");
    let mut out: Vec<Vec<char>> = Vec::new();
    let mut i: usize = 0;
    assert(out.deep_view() =~= non_options(args.deep_view().take(0)));
    while i < args.len()
        invariant
            i <= args@.len(),
            dash@ == "-"@,
            out.deep_view() == non_options(args.deep_view().take(i as int)),
        decreases args@.len() - i,
    {
        assert(args.deep_view().take(i + 1).drop_last() =~= args.deep_view().take(i as int));
        if !has_prefix(&args[i], &dash) {
            let ghost before = out.deep_view();
            out.push(copy_chars(&args[i]));
            assert(out.deep_view() =~= before.push(args.deep_view()[i as int]));
        }
        i = i + 1;
    }
    assert(args.deep_view().take(i as int) =~= args.deep_view());
    out
}

/// The targets of a command's redirections.
pub fn redirect_target_list(command: &SimpleCommand) -> (r: Vec<Vec<char>>)
    ensures
        r.deep_view() == redirect_targets(command.deep_view()),
{
    let mut out: Vec<Vec<char>> = Vec::new();
    let mut i: usize = 0;
    while i < command.redirects.len()
        invariant
            i <= command.redirects@.len(),
            out.deep_view() == redirect_targets(command.deep_view()).take(i as int),
        decreases command.redirects@.len() - i,
    {
        let ghost before = out.deep_view();
        out.push(copy_chars(&command.redirects[i].target));
        assert(out.deep_view() =~= before.push(redirect_targets(command.deep_view())[i as int]));
        assert(redirect_targets(command.deep_view()).take(i + 1) =~= before.push(
            redirect_targets(command.deep_view())[i as int],
        ));
        i = i + 1;
    }
    assert(redirect_targets(command.deep_view()).take(i as int) =~= redirect_targets(command.deep_view()));
    out
}

/// Concatenation of two word lists.
fn concat_words(a: &Vec<Vec<char>>, b: &Vec<Vec<char>>) -> (r: Vec<Vec<char>>)
    ensures
        r.deep_view() == a.deep_view() + b.deep_view(),
{
    let mut out = copy_words(a);
    crate::rules::append_words(&mut out, b);
    out
}

/// Whether an argument list holds `a`.
fn has_arg_exec(args: &Vec<Vec<char>>, a: &str) -> (r: bool)
    ensures
        r == has_arg(args.deep_view(), a@),
{
    let target = chars_of(a);
    let mut i: usize = 0;
    while i < args.len()
        invariant
            i <= args@.len(),
            target@ == a@,
            forall|j: int| 0 <= j < i ==> args.deep_view()[j] != a@,
        decreases args@.len() - i,
    {
        if chars_eq(&args[i], &target) {
            assert(args.deep_view()[i as int] == a@);
            return true;
        }
        i = i + 1;
    }
    false
}

impl Analyzer {
    /// Notes credential paths among a command's arguments and redirection targets.
    fn detect_credential_reads(&self, command: &SimpleCommand, builder: &mut AnalysisBuilder)
        ensures
            final(builder)@ == credential_findings(
                old(builder)@,
                command.name@,
                command.args.deep_view() + redirect_targets(command.deep_view()),
            ),
    {
        let values = concat_words(&command.args, &redirect_target_list(command));
        let ghost b0 = builder@;
        let mut i: usize = 0;
        while i < values.len()
            invariant
                i <= values@.len(),
                builder@ == credential_findings(b0, command.name@, values.deep_view().take(i as int)),
            decreases values@.len() - i,
        {
            assert(values.deep_view().take(i + 1).drop_last() =~= values.deep_view().take(i as int));
            if is_credential_path(&values[i]) {
                let ev = evidence(
                    Some(make_label("file(", &values[i])),
                    None,
                    Some(copy_chars(&command.name)),
                    EffectKind::CredentialRead,
                    Confidence::High,
                    "The command references a common credential or browser profile path.",
                );
                builder.add(Severity::Medium, ev);
            }
            i = i + 1;
        }
        assert(values.deep_view().take(i as int) =~= values.deep_view());
    }

    /// Notes output redirections into startup locations.
    fn detect_persistence_writes(&self, command: &SimpleCommand, builder: &mut AnalysisBuilder)
        ensures
            final(builder)@ == persistence_findings(old(builder)@, command.redirects.deep_view()),
    {
        let ghost b0 = builder@;
        let ghost reds = command.redirects.deep_view();
        let mut i: usize = 0;
        while i < command.redirects.len()
            invariant
                i <= command.redirects@.len(),
                reds == command.redirects.deep_view(),
                builder@ == persistence_findings(b0, reds.take(i as int)),
            decreases command.redirects@.len() - i,
        {
            assert(reds.take(i + 1).drop_last() =~= reds.take(i as int));
            let r = &command.redirects[i];
            if has_char_exec(&r.op, '>') && is_persistence_path(&r.target) {
                let ev = evidence(
                    None,
                    None,
                    Some(make_label("file(", &r.target)),
                    EffectKind::PersistenceWrite,
                    Confidence::High,
                    "The command writes to a shell, autostart, cron, or user service location.",
                );
                builder.add(Severity::Medium, ev);
            }
            i = i + 1;
        }
        assert(reds.take(i as int) =~= reds);
    }

    /// Notes a command that can remove or overwrite much of the filesystem.
    fn detect_destructive(&self, name: &[char], command: &SimpleCommand, builder: &mut AnalysisBuilder) -> (r: bool)
        ensures
            r == destructive(name@, command.args.deep_view()),
            final(builder)@ == if r {
                crate::builder::add_finding(
                    old(builder)@,
                    Severity::High,
                    finding(
                        None,
                        None,
                        Some(name@),
                        EffectKind::DestructiveFilesystem,
                        Confidence::High,
                        "The command can remove or overwrite large parts of the filesystem."@,
                    ),
                )
            } else {
                old(builder)@
            },
    {
        let args = &command.args;
        let ghost av = args.deep_view();
        let d = if chars_eq(name, &chars_of("rm")) {
            let mut recursive = false;
            let mut force = false;
            let mut i: usize = 0;
            while i < args.len()
                invariant
                    i <= args@.len(),
                    av == args.deep_view(),
                    recursive == exists|j: int| 0 <= j < i && rm_recursive(#[trigger] av[j]),
                    force == exists|j: int| 0 <= j < i && rm_force(#[trigger] av[j]),
                decreases args@.len() - i,
            {
                let a = &args[i];
                let dash = chars_of("-");
                if chars_eq(a, &chars_of("-r")) || chars_eq(a, &chars_of("-R")) || ((has_char_exec(a, 'r')
                    || has_char_exec(a, 'R')) && has_prefix(a, &dash)) {
                    assert(rm_recursive(av[i as int]));
                    recursive = true;
                } else {
                    assert(!rm_recursive(av[i as int]));
                }
                if chars_eq(a, &chars_of("-f")) || (has_char_exec(a, 'f') && has_prefix(a, &dash)) {
                    assert(rm_force(av[i as int]));
                    force = true;
                } else {
                    assert(!rm_force(av[i as int]));
                }
                i = i + 1;
            }
            recursive && force
        } else if has_prefix(name, &chars_of("mkfs")) || chars_eq(name, &chars_of("wipefs")) || chars_eq(
            name,
            &chars_of("shred"),
        ) {
            true
        } else if chars_eq(name, &chars_of("dd")) {
            let prefix = chars_of("of=/dev/");
            let mut found = false;
            let mut i: usize = 0;
            while i < args.len()
                invariant
                    i <= args@.len(),
                    av == args.deep_view(),
                    prefix@ == "of=/dev/"@,
                    found == exists|j: int| 0 <= j < i && starts_with(#[trigger] av[j], "of=/dev/"@),
                decreases args@.len() - i,
            {
                if has_prefix(&args[i], &prefix) {
                    assert(starts_with(av[i as int], "of=/dev/"@));
                    found = true;
                } else {
                    assert(!starts_with(av[i as int], "of=/dev/"@));
                }
                i = i + 1;
            }
            found
        } else {
            false
        };
        if d {
            let ev = evidence(
                None,
                None,
                Some(copy_chars(name)),
                EffectKind::DestructiveFilesystem,
                Confidence::High,
                "The command can remove or overwrite large parts of the filesystem.",
            );
            builder.add(Severity::High, ev);
        }
        d
    }

    /// Records the paths a download is written to.
    fn record_download_paths(&self, context: &mut AnalysisContext, paths: &Vec<Vec<char>>, url: &[char])
        ensures
            final(context)@ == (ContextView {
                vars: old(context)@.vars,
                downloads: record_downloads(old(context)@.downloads, paths.deep_view(), url@),
            }),
    {
        let ghost d0 = context@.downloads;
        let mut i: usize = 0;
        while i < paths.len()
            invariant
                i <= paths@.len(),
                context@.vars == old(context)@.vars,
                d0 == old(context)@.downloads,
                context@.downloads == record_downloads(d0, paths.deep_view().take(i as int), url@),
            decreases paths@.len() - i,
        {
            assert(paths.deep_view().take(i + 1).drop_last() =~= paths.deep_view().take(i as int));
            let p = clean_path(&paths[i]);
            let ghost before = context.downloaded_paths.deep_view();
            let ghost pv = p@;
            context.downloaded_paths.push((p, copy_chars(url)));
            assert(context.downloaded_paths.deep_view() =~= before.push((pv, url@)));
            i = i + 1;
        }
        assert(paths.deep_view().take(i as int) =~= paths.deep_view());
    }

    /// A download from `url` to `paths`, with evidence saying `why`.
    fn download(
        &self,
        why: &str,
        url: &[char],
        paths: &Vec<Vec<char>>,
        context: &mut AnalysisContext,
        builder: &mut AnalysisBuilder,
    ) -> (r: Option<DataFlow>)
        ensures
            (flow_view(r), final(context)@, final(builder)@) == download_step(
                why@,
                url@,
                paths.deep_view(),
                old(context)@,
                old(builder)@,
            ),
    {
        self.record_download_paths(context, paths, url);
        let ev = evidence(
            Some(make_label("network(", url)),
            None,
            Some(chars_of("stdout_or_file")),
            EffectKind::RemoteDownload,
            Confidence::High,
            why,
        );
        builder.add(Severity::Low, ev);
        Some(DataFlow::network(url))
    }

    /// `curl`: uploads, downloads, and the files downloads are written to.
    fn handle_curl(
        &self,
        command: &SimpleCommand,
        flow: Option<DataFlow>,
        context: &mut AnalysisContext,
        builder: &mut AnalysisBuilder,
    ) -> (r: Option<DataFlow>)
        ensures
            (flow_view(r), final(context)@, final(builder)@) == curl_step(
                command.deep_view(),
                flow_view(flow),
                old(context)@,
                old(builder)@,
            ),
    {
        let urls = crate::rules::find_urls(&command.args);
        if crate::rules::curl_uploads(&command.args) {
            let severity = if flow_from_credentials(&flow) {
                Severity::High
            } else {
                Severity::Medium
            };
            let sink = if urls.len() > 0 {
                Some(make_label("network(", &urls[0]))
            } else {
                None
            };
            let ev = evidence(
                primary_source_of(&flow),
                transform_label_of(&flow),
                sink,
                EffectKind::ExternalTransmission,
                Confidence::Medium,
                "curl is configured to send data to an external endpoint.",
            );
            builder.add(severity, ev);
        }
        if urls.len() == 0 {
            return flow;
        }
        let paths = concat_words(&crate::rules::curl_output_paths(&command.args), &redirect_target_list(command));
        self.download("curl reads content from a remote URL.", &urls[0], &paths, context, builder)
    }

    /// `wget`: downloads, and the files they are written to.
    fn handle_wget(
        &self,
        command: &SimpleCommand,
        flow: Option<DataFlow>,
        context: &mut AnalysisContext,
        builder: &mut AnalysisBuilder,
    ) -> (r: Option<DataFlow>)
        ensures
            (flow_view(r), final(context)@, final(builder)@) == wget_step(
                command.deep_view(),
                flow_view(flow),
                old(context)@,
                old(builder)@,
            ),
    {
        let urls = crate::rules::find_urls(&command.args);
        if urls.len() == 0 {
            return flow;
        }
        let paths = concat_words(&crate::rules::wget_output_paths(&command.args), &redirect_target_list(command));
        self.download("wget reads content from a remote URL.", &urls[0], &paths, context, builder)
    }

    /// `cat`: files read, and credential paths among them.
    fn handle_cat(&self, command: &SimpleCommand, flow: Option<DataFlow>, builder: &mut AnalysisBuilder) -> (r: Option<DataFlow>)
        ensures
            ({
                let paths = non_options(command.args.deep_view());
                if paths.len() == 0 {
                    flow_view(r) == flow_view(flow) && final(builder)@ == old(builder)@
                } else {
                    flow_view(r) == Some(files_flow(paths)) && final(builder)@ == cat_findings(old(builder)@, paths)
                }
            }),
    {
        let paths = non_option_args(&command.args);
        if paths.len() == 0 {
            return flow;
        }
        let ghost b0 = builder@;
        let mut i: usize = 0;
        while i < paths.len()
            invariant
                i <= paths@.len(),
                builder@ == cat_findings(b0, paths.deep_view().take(i as int)),
            decreases paths@.len() - i,
        {
            assert(paths.deep_view().take(i + 1).drop_last() =~= paths.deep_view().take(i as int));
            if is_credential_path(&paths[i]) {
                let ev = evidence(
                    Some(make_label("file(", &paths[i])),
                    None,
                    Some(chars_of("stdout")),
                    EffectKind::CredentialRead,
                    Confidence::High,
                    "The command reads a common credential or browser profile path.",
                );
                builder.add(Severity::Medium, ev);
            }
            i = i + 1;
        }
        assert(paths.deep_view().take(i as int) =~= paths.deep_view());
        Some(DataFlow::files(&paths))
    }

    /// `tar`: files read.
    fn handle_archive_read(&self, command: &SimpleCommand, flow: Option<DataFlow>) -> (r: Option<DataFlow>)
        ensures
            ({
                let paths = non_options(command.args.deep_view());
                if paths.len() == 0 {
                    flow_view(r) == flow_view(flow)
                } else {
                    flow_view(r) == Some(files_flow(paths))
                }
            }),
    {
        let paths = non_option_args(&command.args);
        if paths.len() == 0 {
            flow
        } else {
            Some(DataFlow::files(&paths))
        }
    }

    /// `tee`: startup locations written.
    fn handle_tee(&self, command: &SimpleCommand, flow: Option<DataFlow>, builder: &mut AnalysisBuilder) -> (r: Option<DataFlow>)
        ensures
            flow_view(r) == flow_view(flow),
            final(builder)@ == tee_findings(old(builder)@, flow_view(flow), non_options(command.args.deep_view())),
    {
        let targets = non_option_args(&command.args);
        let ghost b0 = builder@;
        let mut i: usize = 0;
        while i < targets.len()
            invariant
                i <= targets@.len(),
                builder@ == tee_findings(b0, flow_view(flow), targets.deep_view().take(i as int)),
            decreases targets@.len() - i,
        {
            assert(targets.deep_view().take(i + 1).drop_last() =~= targets.deep_view().take(i as int));
            if is_persistence_path(&targets[i]) {
                let ev = evidence(
                    primary_source_of(&flow),
                    transform_label_of(&flow),
                    Some(make_label("file(", &targets[i])),
                    EffectKind::PersistenceWrite,
                    Confidence::High,
                    "The command writes pasted or piped content into a startup location.",
                );
                builder.add(Severity::Medium, ev);
            }
            i = i + 1;
        }
        assert(targets.deep_view().take(i as int) =~= targets.deep_view());
        flow
    }
}


/// The first source of a flow.
fn source_of(f: &DataFlow) -> (r: Option<Vec<char>>)
    ensures
        r.deep_view() == primary_source(Some(f@)),
{
    if f.sources.len() > 0 {
        Some(copy_chars(&f.sources[0]))
    } else {
        None
    }
}

/// The transforms of a flow joined by ` -> `.
fn transforms_of(f: &DataFlow) -> (r: Option<Vec<char>>)
    ensures
        r.deep_view() == transform_label(Some(f@)),
{
    if f.transforms.len() == 0 {
        None
    } else {
        Some(join_chars(&f.transforms, &chars_of(" -> ")))
    }
}

/// Whether a name is `sudo`, `pkexec`, `doas` or `su`.
fn privilege_name(name: &[char]) -> (r: bool)
    ensures
        r == is_privilege_wrapper(name@),
{
    chars_eq(name, &chars_of("sudo")) || chars_eq(name, &chars_of("pkexec")) || chars_eq(name, &chars_of("doas"))
        || chars_eq(name, &chars_of("su"))
}

/// Whether a name is `bash`, `sh`, `zsh` or `dash`.
fn shell_name(name: &[char]) -> (r: bool)
    ensures
        r == is_shell(name@),
{
    chars_eq(name, &chars_of("bash")) || chars_eq(name, &chars_of("sh")) || chars_eq(name, &chars_of("zsh"))
        || chars_eq(name, &chars_of("dash"))
}

/// Whether a name is `eval`, `source` or `.`.
fn eval_name(name: &[char]) -> (r: bool)
    ensures
        r == is_eval_like(name@),
{
    chars_eq(name, &chars_of("eval")) || chars_eq(name, &chars_of("source")) || chars_eq(name, &chars_of("."))
}

/// Whether a name is a scripting interpreter.
fn script_name(name: &[char]) -> (r: bool)
    ensures
        r == is_script_interpreter(name@),
{
    chars_eq(name, &chars_of("python")) || chars_eq(name, &chars_of("python3")) || chars_eq(name, &chars_of("perl"))
        || chars_eq(name, &chars_of("ruby")) || chars_eq(name, &chars_of("node"))
}

/// Whether a name can transmit data to another host.
fn transmitter_name(name: &[char]) -> (r: bool)
    ensures
        r == is_transmitter(name@),
{
    chars_eq(name, &chars_of("nc")) || chars_eq(name, &chars_of("netcat")) || chars_eq(name, &chars_of("socat"))
        || chars_eq(name, &chars_of("ssh")) || chars_eq(name, &chars_of("scp")) || chars_eq(
        name,
        &chars_of("rsync"),
    ) || chars_eq(name, &chars_of("ftp"))
}

/// The findings for piped content reaching a shell.
fn piped_findings(name: &[char], f: &DataFlow, builder: &mut AnalysisBuilder)
    ensures
        final(builder)@ == piped_shell_findings(name@, f@, old(builder)@),
{
    let network = f.has_network_source();
    let transformed_flow = f.transforms.len() > 0;
    let why = if network {
        "Remote content is piped directly into a shell interpreter."
    } else if transformed_flow {
        "Decoded or transformed content is piped into a shell interpreter."
    } else {
        "Piped text is executed by a shell interpreter."
    };
    if network {
        let ev = evidence(
            source_of(f),
            transforms_of(f),
            Some(make_label("interpreter(", name)),
            EffectKind::RemoteDownload,
            Confidence::High,
            why,
        );
        builder.add(Severity::High, ev);
    }
    let severity = if network || transformed_flow {
        Severity::High
    } else {
        Severity::Medium
    };
    let ev = evidence(
        source_of(f),
        transforms_of(f),
        Some(make_label("interpreter(", name)),
        EffectKind::DynamicExecution,
        Confidence::High,
        why,
    );
    builder.add(severity, ev);
    if transformed_flow {
        let ev = evidence(
            source_of(f),
            transforms_of(f),
            Some(make_label("interpreter(", name)),
            EffectKind::ConcealedPayload,
            Confidence::High,
            "Concealed command text is decoded and then executed.",
        );
        builder.add(Severity::High, ev);
    }
}

/// The findings for an inline script of a scripting interpreter.
fn script_checks(name: &[char], script: &[char], builder: &mut AnalysisBuilder)
    ensures
        final(builder)@ == script_findings(name@, script@, old(builder)@),
{
    let fetches = contains_url(script) || crate::text::contains_chars(script, &chars_of("urllib"))
        || crate::text::contains_chars(script, &chars_of("requests.get")) || crate::text::contains_chars(
        script,
        &chars_of("fetch("),
    );
    let executes = crate::text::contains_chars(script, &chars_of("exec(")) || crate::text::contains_chars(
        script,
        &chars_of("eval("),
    ) || crate::text::contains_chars(script, &chars_of("subprocess")) || crate::text::contains_chars(
        script,
        &chars_of("child_process"),
    );
    if fetches && executes {
        let why = "The script appears to fetch remote code and execute it.";
        let ev = evidence(
            Some(chars_of("network(script literal)")),
            None,
            Some(make_label("interpreter(", name)),
            EffectKind::RemoteDownload,
            Confidence::Medium,
            why,
        );
        builder.add(Severity::High, ev);
        let ev = evidence(
            Some(chars_of("network(script literal)")),
            None,
            Some(make_label("interpreter(", name)),
            EffectKind::DynamicExecution,
            Confidence::Medium,
            why,
        );
        builder.add(Severity::High, ev);
    } else if executes {
        let ev = evidence(
            Some(chars_of("literal")),
            None,
            Some(make_label("interpreter(", name)),
            EffectKind::DynamicExecution,
            Confidence::Medium,
            "The script contains dynamic execution primitives.",
        );
        builder.add(Severity::Medium, ev);
    }
}


impl Analyzer {
    /// Analyzes pasted command text.
    pub fn analyze(&self, input: &str) -> (r: Analysis)
        ensures
            r@ == analysis_of(*self, input@, 0),
            analysis_wf(r@),
    {
        proof {
            crate::invariants::every_analysis_is_wf(*self, input@, 0);
        }
        self.analyze_with_depth(input, 0)
    }

    /// Analyzes text at a nesting depth.
    fn analyze_with_depth(&self, input: &str, depth: usize) -> (r: Analysis)
        requires
            depth <= self.max_depth(),
        ensures
            r@ == analysis_of(*self, input@, depth as int),
        decreases levels_left(*self, depth as int), 5int, 0int,
    {
        proof {
            use_type_invariant(self);
        }
        let mut builder = AnalysisBuilder::new();
        collect_syntax_findings(input, &mut builder);
        if depth > self.max_recursion {
            builder.add_unsupported(String::from_str("recursion_limit_reached"));
            return builder.finish();
        }
        let tokens = tokenize(input);
        assert(tokens@.map_values(|t: ShellToken| t.deep_view()) =~= tokens.deep_view());
        let pipelines = split_pipelines(&tokens);
        let mut context = AnalysisContext { vars: Vec::new(), downloaded_paths: Vec::new() };
        assert(context@.vars =~= empty_context().vars);
        assert(context@.downloads =~= empty_context().downloads);
        let ghost pls = pipelines.deep_view();
        let ghost b0 = builder@;
        let mut i: usize = 0;
        while i < pipelines.len()
            invariant
                i <= pipelines@.len(),
                pls == pipelines.deep_view(),
                depth <= self.max_depth(),
                run_pipelines(*self, pls, 0, empty_context(), b0, depth as int) == run_pipelines(
                    *self,
                    pls,
                    i as int,
                    context@,
                    builder@,
                    depth as int,
                ),
            decreases pipelines@.len() - i,
        {
            self.analyze_pipeline(&pipelines[i], &mut context, &mut builder, depth);
            i = i + 1;
        }
        builder.finish()
    }

    /// Analyzes the commands of one pipeline, passing data from each to the next.
    fn analyze_pipeline(
        &self,
        pipeline: &Vec<Vec<ShellToken>>,
        context: &mut AnalysisContext,
        builder: &mut AnalysisBuilder,
        depth: usize,
    )
        requires
            depth <= self.max_depth(),
        ensures
            (final(context)@, final(builder)@) == run_pipeline(
                *self,
                pipeline.deep_view(),
                0,
                None,
                old(context)@,
                old(builder)@,
                depth as int,
            ),
        decreases levels_left(*self, depth as int), 4int, 0int,
    {
        let ghost pl = pipeline.deep_view();
        let ghost c0 = context@;
        let ghost b0 = builder@;
        let mut flow: Option<DataFlow> = None;
        let mut j: usize = 0;
        while j < pipeline.len()
            invariant
                j <= pipeline@.len(),
                pl == pipeline.deep_view(),
                depth <= self.max_depth(),
                run_pipeline(*self, pl, 0, None, c0, b0, depth as int) == run_pipeline(
                    *self,
                    pl,
                    j as int,
                    flow_view(flow),
                    context@,
                    builder@,
                    depth as int,
                ),
            decreases pipeline@.len() - j,
        {
            assert(pipeline[j as int]@.map_values(|t: ShellToken| t.deep_view()) =~= pl[j as int]);
            let command = normalize_command(pipeline[j].as_slice(), &mut context.vars);
            match command {
                None => {},
                Some(cmd) => {
                    flow = self.analyze_command(cmd, flow, context, builder, depth);
                },
            }
            j = j + 1;
        }
    }

    /// Analyzes one simple command with the data flowing into it.
    fn analyze_command(
        &self,
        command: SimpleCommand,
        flow: Option<DataFlow>,
        context: &mut AnalysisContext,
        builder: &mut AnalysisBuilder,
        depth: usize,
    ) -> (r: Option<DataFlow>)
        requires
            depth <= self.max_depth(),
        ensures
            (flow_view(r), final(context)@, final(builder)@) == command_effects(
                *self,
                command.deep_view(),
                flow_view(flow),
                old(context)@,
                old(builder)@,
                depth as int,
            ),
        decreases levels_left(*self, depth as int), 2int, command_size(command.deep_view()),
    {
        let name = command_name(&command.name);
        self.command_prelude(&command, builder, depth);
        if self.detect_destructive(&name, &command, builder) {
            return None;
        }
        if privilege_name(&name) {
            let ev = evidence(
                None,
                None,
                Some(copy_chars(&name)),
                EffectKind::PrivilegeEscalation,
                Confidence::High,
                "The command asks for elevated privileges.",
            );
            builder.add(Severity::Low, ev);
            match strip_privilege_wrapper(&name, &command) {
                Some(nested) => {
                    proof {
                        lemma_unwrap_shrinks(name@, command.deep_view());
                    }
                    return self.analyze_command(nested, flow, context, builder, depth);
                },
                None => {
                    return flow;
                },
            }
        }
        self.dispatch(&name, &command, flow, context, builder, depth)
    }

    /// The findings before a command's own handling: substitutions,
    /// credential reads and persistence writes.
    fn command_prelude(&self, command: &SimpleCommand, builder: &mut AnalysisBuilder, depth: usize)
        requires
            depth <= self.max_depth(),
        ensures
            final(builder)@ == command_prelude(*self, command.deep_view(), old(builder)@, depth as int),
        decreases levels_left(*self, depth as int), 1int, 0int,
    {
        self.analyze_command_substitutions(command, builder, depth);
        self.detect_credential_reads(command, builder);
        self.detect_persistence_writes(command, builder);
    }

    /// Analyzes the text of each command substitution of a command.
    fn analyze_command_substitutions(&self, command: &SimpleCommand, builder: &mut AnalysisBuilder, depth: usize)
        requires
            depth <= self.max_depth(),
        ensures
            final(builder)@ == substitution_findings(
                *self,
                crate::shell::command_substitutions(
                    join(command.raw_words.deep_view() + command.args.deep_view(), " "@),
                ),
                old(builder)@,
                depth as int,
            ),
        decreases levels_left(*self, depth as int), 0int, 1int,
    {
        let words = concat_words(&command.raw_words, &command.args);
        let joined = join_chars(&words, &chars_of(" "));
        let inners = extract_command_substitutions(&joined);
        let ghost ins = inners.deep_view();
        let ghost b0 = builder@;
        let mut i: usize = 0;
        while i < inners.len()
            invariant
                i <= inners@.len(),
                ins == inners.deep_view(),
                depth <= self.max_depth(),
                builder@ == substitution_findings(*self, ins.take(i as int), b0, depth as int),
            decreases inners@.len() - i,
        {
            assert(ins.take(i + 1).drop_last() =~= ins.take(i as int));
            builder.add_unsupported(String::from_str("command_substitution_partial_evaluation"));
            self.merge_decoded_analysis(&inners[i], builder, depth);
            i = i + 1;
        }
        assert(ins.take(i as int) =~= ins);
    }

    /// Folds in the analysis of nested text, when the depth allows and the text is not blank.
    fn merge_decoded_analysis(&self, text: &[char], builder: &mut AnalysisBuilder, depth: usize)
        requires
            depth <= self.max_depth(),
        ensures
            final(builder)@ == nest(*self, text@, old(builder)@, depth as int),
        decreases levels_left(*self, depth as int), 0int, 0int,
    {
        proof {
            use_type_invariant(self);
        }
        if depth + 1 > self.max_recursion || crate::text::is_blank(text) {
            return;
        }
        let s = string_of(text);
        let nested = self.analyze_with_depth(s.as_str(), depth + 1);
        builder.merge_nested(nested);
    }
}


impl Analyzer {
    /// Handles a command by its name.
    fn dispatch(
        &self,
        name: &Vec<char>,
        command: &SimpleCommand,
        flow: Option<DataFlow>,
        context: &mut AnalysisContext,
        builder: &mut AnalysisBuilder,
        depth: usize,
    ) -> (r: Option<DataFlow>)
        requires
            depth <= self.max_depth(),
        ensures
            (flow_view(r), final(context)@, final(builder)@) == command_dispatch(
                *self,
                name@,
                command.deep_view(),
                flow_view(flow),
                old(context)@,
                old(builder)@,
                depth as int,
            ),
        decreases levels_left(*self, depth as int), 1int, 0int,
    {
        if chars_eq(name, &chars_of("curl")) {
            self.handle_curl(command, flow, context, builder)
        } else if chars_eq(name, &chars_of("wget")) {
            self.handle_wget(command, flow, context, builder)
        } else if chars_eq(name, &chars_of("echo")) {
            Some(DataFlow::literal(join_chars(&command.args, &chars_of(" "))))
        } else if chars_eq(name, &chars_of("printf")) {
            Some(DataFlow::literal(printf_literal(&command.args)))
        } else if chars_eq(name, &chars_of("cat")) {
            self.handle_cat(command, flow, builder)
        } else if chars_eq(name, &chars_of("tar")) {
            self.handle_archive_read(command, flow)
        } else if chars_eq(name, &chars_of("base64")) {
            self.handle_base64(flow, builder, depth)
        } else if chars_eq(name, &chars_of("xxd")) {
            self.handle_xxd(command, flow, builder, depth)
        } else if chars_eq(name, &chars_of("gzip")) || chars_eq(name, &chars_of("gunzip")) || chars_eq(
            name,
            &chars_of("zcat"),
        ) {
            self.handle_gzip(name, command, flow, builder, depth)
        } else if shell_name(name) {
            self.handle_shell_interpreter(name, command, flow, context, builder, depth)
        } else if eval_name(name) {
            self.handle_eval_like(name, command, flow, builder, depth)
        } else if script_name(name) {
            self.handle_script_interpreter(name, command, flow, builder, depth)
        } else if chars_eq(name, &chars_of("tee")) {
            self.handle_tee(command, flow, builder)
        } else if chars_eq(name, &chars_of("crontab")) {
            let ev = evidence(
                primary_source_of(&flow),
                transform_label_of(&flow),
                Some(chars_of("crontab")),
                EffectKind::PersistenceWrite,
                Confidence::High,
                "The command installs or edits user cron entries.",
            );
            builder.add(Severity::Medium, ev);
            None
        } else if chars_eq(name, &chars_of("systemctl")) {
            if has_arg_exec(&command.args, "--user") && (has_arg_exec(&command.args, "enable")
                || has_arg_exec(&command.args, "start")) {
                let ev = evidence(
                    None,
                    None,
                    Some(chars_of("user systemd")),
                    EffectKind::PersistenceWrite,
                    Confidence::Medium,
                    "The command modifies user-level systemd service state.",
                );
                builder.add(Severity::Medium, ev);
            }
            None
        } else if transmitter_name(name) {
            let severity = if flow_from_credentials(&flow) {
                Severity::High
            } else {
                Severity::Medium
            };
            let ev = evidence(
                primary_source_of(&flow),
                transform_label_of(&flow),
                Some(copy_chars(name)),
                EffectKind::ExternalTransmission,
                Confidence::Medium,
                "The command can transmit data to another host.",
            );
            builder.add(severity, ev);
            None
        } else {
            flow
        }
    }

    /// `base64`: decodes the literal text flowing in.
    fn handle_base64(&self, flow: Option<DataFlow>, builder: &mut AnalysisBuilder, depth: usize) -> (r: Option<DataFlow>)
        requires
            depth <= self.max_depth(),
        ensures
            (flow_view(r), final(builder)@) == base64_step(*self, flow_view(flow), old(builder)@, depth as int),
        decreases levels_left(*self, depth as int), 0int, 1int,
    {
        let f = match flow {
            None => {
                return None;
            },
            Some(f) => f,
        };
        let text = match &f.text {
            None => {
                builder.add_unsupported(String::from_str("base64_decode_without_literal_input"));
                return Some(f);
            },
            Some(t) => string_of(t),
        };
        match decode_base64_text(text.as_str(), self.max_decode_input, self.max_decode_output) {
            Ok(outcome) => {
                builder.add_decoded(crate::builder::copy_variant(&outcome.variant));
                let ev = evidence(
                    source_of(&f),
                    Some(chars_of("base64_decode")),
                    Some(chars_of("stdout")),
                    EffectKind::ConcealedPayload,
                    Confidence::High,
                    "Literal text is decoded before it is used by later commands.",
                );
                builder.add(Severity::Medium, ev);
                let decoded = chars_of(outcome.text.as_str());
                self.merge_decoded_analysis(&decoded, builder, depth);
                Some(f.with_transform("base64_decode", decoded, outcome.bytes))
            },
            Err(_) => {
                builder.add_unsupported(String::from_str("base64_decode_failed"));
                Some(f)
            },
        }
    }

    /// `xxd -r -p`: decodes the literal hex text flowing in.
    fn handle_xxd(
        &self,
        command: &SimpleCommand,
        flow: Option<DataFlow>,
        builder: &mut AnalysisBuilder,
        depth: usize,
    ) -> (r: Option<DataFlow>)
        requires
            depth <= self.max_depth(),
        ensures
            (flow_view(r), final(builder)@) == xxd_step(
                *self,
                command.args.deep_view(),
                flow_view(flow),
                old(builder)@,
                depth as int,
            ),
        decreases levels_left(*self, depth as int), 0int, 1int,
    {
        if !(has_arg_exec(&command.args, "-r") && has_arg_exec(&command.args, "-p")) {
            return flow;
        }
        let f = match flow {
            None => {
                return None;
            },
            Some(f) => f,
        };
        let text = match &f.text {
            None => {
                builder.add_unsupported(String::from_str("hex_decode_without_literal_input"));
                return Some(f);
            },
            Some(t) => string_of(t),
        };
        match decode_hex_text(text.as_str(), self.max_decode_input, self.max_decode_output) {
            Ok(outcome) => {
                builder.add_decoded(crate::builder::copy_variant(&outcome.variant));
                let ev = evidence(
                    source_of(&f),
                    Some(chars_of("hex_decode")),
                    Some(chars_of("stdout")),
                    EffectKind::ConcealedPayload,
                    Confidence::High,
                    "Literal hex text is decoded before it is used by later commands.",
                );
                builder.add(Severity::Medium, ev);
                let decoded = chars_of(outcome.text.as_str());
                self.merge_decoded_analysis(&decoded, builder, depth);
                Some(f.with_transform("hex_decode", decoded, outcome.bytes))
            },
            Err(_) => {
                builder.add_unsupported(String::from_str("hex_decode_failed"));
                Some(f)
            },
        }
    }

    /// `gzip -d`, `gunzip`, `zcat`: decompresses the bytes flowing in.
    fn handle_gzip(
        &self,
        name: &Vec<char>,
        command: &SimpleCommand,
        flow: Option<DataFlow>,
        builder: &mut AnalysisBuilder,
        depth: usize,
    ) -> (r: Option<DataFlow>)
        requires
            depth <= self.max_depth(),
        ensures
            (flow_view(r), final(builder)@) == gzip_step(
                *self,
                name@,
                command.args.deep_view(),
                flow_view(flow),
                old(builder)@,
                depth as int,
            ),
        decreases levels_left(*self, depth as int), 0int, 1int,
    {
        proof {
            use_type_invariant(self);
        }
        let decodes = chars_eq(name, &chars_of("zcat")) || chars_eq(name, &chars_of("gunzip")) || has_arg_exec(
            &command.args,
            "-d",
        ) || has_arg_exec(&command.args, "--decompress") || has_arg_exec(&command.args, "-dc")
            || has_arg_exec(&command.args, "-cd");
        if !decodes {
            return flow;
        }
        let f = match flow {
            None => {
                return None;
            },
            Some(f) => f,
        };
        let bytes = match &f.bytes {
            None => {
                builder.add_unsupported(String::from_str("gzip_decode_without_bytes"));
                return Some(f);
            },
            Some(b) => b,
        };
        match decode_gzip_bytes(bytes.as_slice(), self.max_decode_output) {
            Ok(outcome) => {
                builder.add_decoded(crate::builder::copy_variant(&outcome.variant));
                let ev = evidence(
                    source_of(&f),
                    Some(chars_of("gzip_decompress")),
                    Some(chars_of("stdout")),
                    EffectKind::ConcealedPayload,
                    Confidence::High,
                    "Compressed data is decompressed before it is used by later commands.",
                );
                builder.add(Severity::Medium, ev);
                let decoded = chars_of(outcome.text.as_str());
                self.merge_decoded_analysis(&decoded, builder, depth);
                Some(f.with_transform("gzip_decompress", decoded, outcome.bytes))
            },
            Err(_) => {
                builder.add_unsupported(String::from_str("gzip_decode_failed"));
                Some(f)
            },
        }
    }

    /// `bash`, `sh`, `zsh`, `dash`: downloaded files run, `-c` scripts, and piped content.
    fn handle_shell_interpreter(
        &self,
        name: &Vec<char>,
        command: &SimpleCommand,
        flow: Option<DataFlow>,
        context: &AnalysisContext,
        builder: &mut AnalysisBuilder,
        depth: usize,
    ) -> (r: Option<DataFlow>)
        requires
            depth <= self.max_depth(),
        ensures
            r is None,
            final(builder)@ == shell_step(
                *self,
                name@,
                command.deep_view(),
                flow_view(flow),
                context@,
                old(builder)@,
                depth as int,
            ),
        decreases levels_left(*self, depth as int), 0int, 1int,
    {
        let args = non_option_args(&command.args);
        let ghost b0 = builder@;
        let mut i: usize = 0;
        while i < args.len()
            invariant
                i <= args@.len(),
                builder@ == downloaded_run_findings(b0, name@, args.deep_view().take(i as int), context@.downloads),
            decreases args@.len() - i,
        {
            assert(args.deep_view().take(i + 1).drop_last() =~= args.deep_view().take(i as int));
            let cleaned = clean_path(&args[i]);
            match lookup_binding(&context.downloaded_paths, &cleaned) {
                Some(url) => {
                    let why = "A file downloaded from the network is executed by a shell.";
                    let ev = evidence(
                        Some(make_label("network(", &url)),
                        None,
                        Some(make_label("interpreter(", name)),
                        EffectKind::RemoteDownload,
                        Confidence::High,
                        why,
                    );
                    builder.add(Severity::High, ev);
                    let ev = evidence(
                        Some(make_label("network(", &url)),
                        None,
                        Some(make_label("interpreter(", name)),
                        EffectKind::DynamicExecution,
                        Confidence::High,
                        why,
                    );
                    builder.add(Severity::High, ev);
                },
                None => {},
            }
            i = i + 1;
        }
        assert(args.deep_view().take(i as int) =~= args.deep_view());
        match script_after_flag(&command.args, &chars_of("-c")) {
            Some(script) => {
                let ev = evidence(
                    Some(chars_of("literal(-c)")),
                    None,
                    Some(make_label("interpreter(", name)),
                    EffectKind::DynamicExecution,
                    Confidence::High,
                    "The shell executes command text supplied with -c.",
                );
                builder.add(Severity::Medium, ev);
                self.merge_decoded_analysis(&script, builder, depth);
            },
            None => {},
        }
        match flow {
            None => {},
            Some(f) => {
                piped_findings(name, &f, builder);
                match &f.text {
                    Some(t) => {
                        self.merge_decoded_analysis(t, builder, depth);
                    },
                    None => {},
                }
            },
        }
        None
    }

    /// `eval`, `source`, `.`: text evaluated as shell code.
    fn handle_eval_like(
        &self,
        name: &Vec<char>,
        command: &SimpleCommand,
        flow: Option<DataFlow>,
        builder: &mut AnalysisBuilder,
        depth: usize,
    ) -> (r: Option<DataFlow>)
        requires
            depth <= self.max_depth(),
        ensures
            r is None,
            final(builder)@ == eval_step(
                *self,
                name@,
                command.args.deep_view(),
                flow_view(flow),
                old(builder)@,
                depth as int,
            ),
        decreases levels_left(*self, depth as int), 0int, 1int,
    {
        let script = if command.args.len() == 0 {
            match &flow {
                Some(f) => match &f.text {
                    Some(t) => copy_chars(t),
                    None => Vec::new(),
                },
                None => Vec::new(),
            }
        } else {
            join_chars(&command.args, &chars_of(" "))
        };
        let source = match primary_source_of(&flow) {
            Some(s) => Some(s),
            None => Some(chars_of("literal")),
        };
        let ev = evidence(
            source,
            transform_label_of(&flow),
            Some(make_label("dynamic(", name)),
            EffectKind::DynamicExecution,
            Confidence::High,
            "The command evaluates text as shell code.",
        );
        builder.add(Severity::Medium, ev);
        if script.len() > 0 {
            self.merge_decoded_analysis(&script, builder, depth);
        }
        None
    }

    /// `python`, `python3`, `perl`, `ruby`, `node`: piped text and inline scripts.
    fn handle_script_interpreter(
        &self,
        name: &Vec<char>,
        command: &SimpleCommand,
        flow: Option<DataFlow>,
        builder: &mut AnalysisBuilder,
        depth: usize,
    ) -> (r: Option<DataFlow>)
        requires
            depth <= self.max_depth(),
        ensures
            r is None,
            final(builder)@ == script_step(
                *self,
                name@,
                command.args.deep_view(),
                flow_view(flow),
                old(builder)@,
                depth as int,
            ),
        decreases levels_left(*self, depth as int), 0int, 1int,
    {
        if flow.is_some() {
            let ev = evidence(
                primary_source_of(&flow),
                transform_label_of(&flow),
                Some(make_label("interpreter(", name)),
                EffectKind::DynamicExecution,
                Confidence::Medium,
                "Piped text is passed to a scripting interpreter.",
            );
            builder.add(Severity::Medium, ev);
        }
        let mut flags: Vec<Vec<char>> = Vec::new();
        flags.push(chars_of("-c"));
        flags.push(chars_of("-e"));
        assert(flags.deep_view() =~= seq!["-c"@, "-e"@]);
        match script_after_any_flag(&command.args, &flags) {
            None => None,
            Some(script) => {
                script_checks(name, &script, builder);
                self.merge_decoded_analysis(&script, builder, depth);
                None
            },
        }
    }
}

} // verus!
