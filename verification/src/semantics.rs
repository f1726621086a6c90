//! What the analysis of a paste is: the effects of each command, followed
//! from SOURCE through TRANSFORM to SINK and EFFECT.
use vstd::prelude::*;
use vstd::utf8::encode_utf8;
use crate::builder::{add_finding, add_unknown, add_variant, empty_builder, finished, merge_analysis, BuilderView};
use crate::decoder::{base64_outcome, gzip_outcome, hex_outcome};
use crate::analyzer::Analyzer;
use crate::model::{AnalysisView, Confidence, EffectKind, EvidenceView, Severity};
use crate::rules::{
    after_flag_from, options_end, cleaned_path, curl_outputs, is_credential, is_persistence, mentions_url, printf_text, script_after,
    sends_data, unwrap_privilege, urls_in_args, wget_outputs,
};
use crate::shell::{command_base, command_substitutions, last_slash_before, lex, normalize, pipelines_of, CommandView, Tok, lookup};
use crate::text::{lower};
use crate::syntax::{bash_outline, note_outline};
use crate::text::{all_ws, contains_text, has_char, join, starts_with};

verus! {

broadcast use crate::text::lemma_char_vec_deep_view;

/// What the analysis remembers across commands: variable bindings and the
/// files that were downloaded, with their URLs (newest last).
pub struct ContextView {
    pub vars: Seq<(Seq<char>, Seq<char>)>,
    pub downloads: Seq<(Seq<char>, Seq<char>)>,
}

/// The context before any command.
pub open spec fn empty_context() -> ContextView {
    ContextView { vars: Seq::empty(), downloads: Seq::empty() }
}

/// Where data flowing through a pipeline came from, how it was transformed,
/// and its text and bytes when they are known.
pub struct FlowView {
    pub sources: Seq<Seq<char>>,
    pub transforms: Seq<Seq<char>>,
    pub text: Option<Seq<char>>,
    pub bytes: Option<Seq<u8>>,
}

/// `prefix(inner)`.
pub open spec fn label(prefix: Seq<char>, inner: Seq<char>) -> Seq<char> {
    prefix + inner + ")"@
}

/// Literal text written by `echo` or `printf`.
pub open spec fn literal_flow(text: Seq<char>) -> FlowView {
    FlowView {
        sources: seq!["literal"@],
        transforms: Seq::empty(),
        text: Some(text),
        bytes: Some(encode_utf8(text)),
    }
}

/// Content fetched from a URL.
pub open spec fn network_flow(url: Seq<char>) -> FlowView {
    FlowView { sources: seq![label("network("@, url)], transforms: Seq::empty(), text: None, bytes: None }
}

/// The `file(...)` labels of some paths.
pub open spec fn file_labels(paths: Seq<Seq<char>>) -> Seq<Seq<char>>
    decreases paths.len(),
{
    if paths.len() == 0 {
        Seq::empty()
    } else {
        file_labels(paths.drop_last()).push(label("file("@, paths.last()))
    }
}

/// Content read from files.
pub open spec fn files_flow(paths: Seq<Seq<char>>) -> FlowView {
    FlowView { sources: file_labels(paths), transforms: Seq::empty(), text: None, bytes: None }
}

/// A flow after a decoding step.
pub open spec fn transformed(f: FlowView, t: Seq<char>, text: Seq<char>, bytes: Seq<u8>) -> FlowView {
    FlowView { sources: f.sources, transforms: f.transforms.push(t), text: Some(text), bytes: Some(bytes) }
}

/// The first source of a flow.
pub open spec fn primary_source(f: Option<FlowView>) -> Option<Seq<char>> {
    match f {
        Some(x) => if x.sources.len() > 0 {
            Some(x.sources[0])
        } else {
            None
        },
        None => None,
    }
}

/// The transforms of a flow joined by ` -> `.
pub open spec fn transform_label(f: Option<FlowView>) -> Option<Seq<char>> {
    match f {
        Some(x) => if x.transforms.len() == 0 {
            None
        } else {
            Some(join(x.transforms, " -> "@))
        },
        None => None,
    }
}

/// Whether a flow has a network source.
pub open spec fn from_network(f: FlowView) -> bool {
    exists|i: int| 0 <= i < f.sources.len() && starts_with(#[trigger] f.sources[i], "network("@)
}

/// Whether a flow has a credential source.
pub open spec fn from_credentials(f: FlowView) -> bool {
    exists|i: int| 0 <= i < f.sources.len() && is_credential(#[trigger] f.sources[i])
}

/// A piece of evidence.
pub open spec fn finding(
    source: Option<Seq<char>>,
    transform: Option<Seq<char>>,
    sink: Option<Seq<char>>,
    effect: EffectKind,
    confidence: Confidence,
    reason: Seq<char>,
) -> EvidenceView {
    EvidenceView { source, transform, sink, effect, confidence, reason }
}

/// The arguments that are not options (do not start with `-`), in order.
pub open spec fn non_options(args: Seq<Seq<char>>) -> Seq<Seq<char>>
    decreases args.len(),
{
    if args.len() == 0 {
        Seq::empty()
    } else if starts_with(args.last(), "-"@) {
        non_options(args.drop_last())
    } else {
        non_options(args.drop_last()).push(args.last())
    }
}

/// The targets of a command's redirections.
pub open spec fn redirect_targets(cmd: CommandView) -> Seq<Seq<char>> {
    cmd.redirects.map_values(|r: crate::shell::RedirectView| r.target)
}

/// Whether an argument list holds `a`.
pub open spec fn has_arg(args: Seq<Seq<char>>, a: Seq<char>) -> bool {
    args.contains(a)
}

/// Downloads recorded for each of `paths` (cleaned of quotes) from `url`.
pub open spec fn record_downloads(dl: Seq<(Seq<char>, Seq<char>)>, paths: Seq<Seq<char>>, url: Seq<char>) -> Seq<
    (Seq<char>, Seq<char>),
>
    decreases paths.len(),
{
    if paths.len() == 0 {
        dl
    } else {
        record_downloads(dl, paths.drop_last(), url).push((cleaned_path(paths.last()), url))
    }
}

/// Credential reads of the arguments and redirection targets of a command.
pub open spec fn credential_findings(b: BuilderView, sink: Seq<char>, values: Seq<Seq<char>>) -> BuilderView
    decreases values.len(),
{
    if values.len() == 0 {
        b
    } else {
        let prev = credential_findings(b, sink, values.drop_last());
        let v = values.last();
        if is_credential(v) {
            add_finding(
                prev,
                Severity::Medium,
                finding(
                    Some(label("file("@, v)),
                    None,
                    Some(sink),
                    EffectKind::CredentialRead,
                    Confidence::High,
                    "The command references a common credential or browser profile path."@,
                ),
            )
        } else {
            prev
        }
    }
}

/// Writes by output redirection to startup locations.
pub open spec fn persistence_findings(b: BuilderView, reds: Seq<crate::shell::RedirectView>) -> BuilderView
    decreases reds.len(),
{
    if reds.len() == 0 {
        b
    } else {
        let prev = persistence_findings(b, reds.drop_last());
        let r = reds.last();
        if has_char(r.op, '>') && is_persistence(r.target) {
            add_finding(
                prev,
                Severity::Medium,
                finding(
                    None,
                    None,
                    Some(label("file("@, r.target)),
                    EffectKind::PersistenceWrite,
                    Confidence::High,
                    "The command writes to a shell, autostart, cron, or user service location."@,
                ),
            )
        } else {
            prev
        }
    }
}

/// Whether an `rm` option enables recursion: `-r`, `-R`, or an option that
/// holds `r` or `R` among combined flags (`-rf`, `-Rf`, `-fR`).
pub open spec fn rm_recursive(a: Seq<char>) -> bool {
    a == "-r"@ || a == "-R"@ || ((has_char(a, 'r') || has_char(a, 'R')) && starts_with(a, "-"@))
}

/// Whether an `rm` option forces removal.
pub open spec fn rm_force(a: Seq<char>) -> bool {
    a == "-f"@ || (has_char(a, 'f') && starts_with(a, "-"@))
}

/// Whether a command can remove or overwrite much of the filesystem:
/// `rm` with recursive and force options, `mkfs*`, `wipefs`, `shred`, or `dd of=/dev/...`.
pub open spec fn destructive(name: Seq<char>, args: Seq<Seq<char>>) -> bool {
    if name == "rm"@ {
        (exists|i: int| 0 <= i < args.len() && rm_recursive(#[trigger] args[i])) && (exists|i: int|
            0 <= i < args.len() && rm_force(#[trigger] args[i]))
    } else if starts_with(name, "mkfs"@) || name == "wipefs"@ || name == "shred"@ {
        true
    } else if name == "dd"@ {
        exists|i: int| 0 <= i < args.len() && starts_with(#[trigger] args[i], "of=/dev/"@)
    } else {
        false
    }
}

/// Whether a command name asks for elevated privileges.
pub open spec fn is_privilege_wrapper(name: Seq<char>) -> bool {
    name == "sudo"@ || name == "pkexec"@ || name == "doas"@ || name == "su"@
}

/// The size that nested privilege wrappers shrink.
pub open spec fn command_size(cmd: CommandView) -> int {
    cmd.args.len() + if is_privilege_wrapper(command_base(cmd.name)) {
        1int
    } else {
        0int
    }
}

/// How many more levels of nested text may be analyzed at `depth`.
pub open spec fn levels_left(cfg: Analyzer, depth: int) -> int {
    if depth <= cfg.max_depth() {
        cfg.max_depth() - depth + 1
    } else {
        0
    }
}

/// The paths read by `cat`, `tar` and shells: arguments that are not options.
pub open spec fn cat_findings(b: BuilderView, paths: Seq<Seq<char>>) -> BuilderView
    decreases paths.len(),
{
    if paths.len() == 0 {
        b
    } else {
        let prev = cat_findings(b, paths.drop_last());
        let p = paths.last();
        if is_credential(p) {
            add_finding(
                prev,
                Severity::Medium,
                finding(
                    Some(label("file("@, p)),
                    None,
                    Some("stdout"@),
                    EffectKind::CredentialRead,
                    Confidence::High,
                    "The command reads a common credential or browser profile path."@,
                ),
            )
        } else {
            prev
        }
    }
}

/// Startup locations written by `tee`.
pub open spec fn tee_findings(b: BuilderView, flow: Option<FlowView>, targets: Seq<Seq<char>>) -> BuilderView
    decreases targets.len(),
{
    if targets.len() == 0 {
        b
    } else {
        let prev = tee_findings(b, flow, targets.drop_last());
        let t = targets.last();
        if is_persistence(t) {
            add_finding(
                prev,
                Severity::Medium,
                finding(
                    primary_source(flow),
                    transform_label(flow),
                    Some(label("file("@, t)),
                    EffectKind::PersistenceWrite,
                    Confidence::High,
                    "The command writes pasted or piped content into a startup location."@,
                ),
            )
        } else {
            prev
        }
    }
}

/// Downloaded files that a shell runs.
pub open spec fn downloaded_run_findings(
    b: BuilderView,
    name: Seq<char>,
    args: Seq<Seq<char>>,
    downloads: Seq<(Seq<char>, Seq<char>)>,
) -> BuilderView
    decreases args.len(),
{
    if args.len() == 0 {
        b
    } else {
        let prev = downloaded_run_findings(b, name, args.drop_last(), downloads);
        match lookup(downloads, cleaned_path(args.last())) {
            Some(url) => {
                let src = Some(label("network("@, url));
                let sink = Some(label("interpreter("@, name));
                let why = "A file downloaded from the network is executed by a shell."@;
                add_finding(
                    add_finding(
                        prev,
                        Severity::High,
                        finding(src, None, sink, EffectKind::RemoteDownload, Confidence::High, why),
                    ),
                    Severity::High,
                    finding(src, None, sink, EffectKind::DynamicExecution, Confidence::High, why),
                )
            },
            None => prev,
        }
    }
}

/// Whether a script text fetches from the network.
pub open spec fn script_fetches(s: Seq<char>) -> bool {
    mentions_url(s) || contains_text(s, "urllib"@) || contains_text(s, "requests.get"@) || contains_text(
        s,
        "fetch("@,
    )
}

/// Whether a script text runs code dynamically.
pub open spec fn script_executes(s: Seq<char>) -> bool {
    contains_text(s, "exec("@) || contains_text(s, "eval("@) || contains_text(s, "subprocess"@)
        || contains_text(s, "child_process"@)
}

/// The result of analyzing `input` at nesting `depth`.
pub open spec fn analysis_of(cfg: Analyzer, input: Seq<char>, depth: int) -> AnalysisView
    decreases levels_left(cfg, depth), 5int, 0int,
{
    let b0 = note_outline(empty_builder(), bash_outline(input));
    if depth > cfg.max_depth() {
        finished(add_unknown(b0, "recursion_limit_reached"@))
    } else {
        finished(run_pipelines(cfg, pipelines_of(lex(input)), 0, empty_context(), b0, depth))
    }
}

/// The builder after the pipelines from index `i` on.
pub open spec fn run_pipelines(
    cfg: Analyzer,
    pls: Seq<Seq<Seq<Tok>>>,
    i: int,
    ctx: ContextView,
    b: BuilderView,
    depth: int,
) -> BuilderView
    decreases levels_left(cfg, depth), 4int, pls.len() - i,
{
    if i < 0 || i >= pls.len() {
        b
    } else {
        let (ctx2, b2) = run_pipeline(cfg, pls[i], 0, None, ctx, b, depth);
        run_pipelines(cfg, pls, i + 1, ctx2, b2, depth)
    }
}

/// The context and builder after the commands of a pipeline from index `j` on,
/// with `flow` coming in from the previous command.
pub open spec fn run_pipeline(
    cfg: Analyzer,
    pl: Seq<Seq<Tok>>,
    j: int,
    flow: Option<FlowView>,
    ctx: ContextView,
    b: BuilderView,
    depth: int,
) -> (ContextView, BuilderView)
    decreases levels_left(cfg, depth), 3int, pl.len() - j,
{
    if j < 0 || j >= pl.len() {
        (ctx, b)
    } else {
        let (oc, vars2) = normalize(pl[j], ctx.vars);
        let ctx1 = ContextView { vars: vars2, downloads: ctx.downloads };
        match oc {
            None => run_pipeline(cfg, pl, j + 1, flow, ctx1, b, depth),
            Some(cmd) => {
                let (f2, ctx2, b2) = command_effects(cfg, cmd, flow, ctx1, b, depth);
                run_pipeline(cfg, pl, j + 1, f2, ctx2, b2, depth)
            },
        }
    }
}

/// The builder after folding in the analysis of nested text, when the depth
/// allows it and the text is not blank.
pub open spec fn nest(cfg: Analyzer, text: Seq<char>, b: BuilderView, depth: int) -> BuilderView
    decreases levels_left(cfg, depth), 0int, 0int,
{
    if depth + 1 > cfg.max_depth() || all_ws(text) || depth < 0 {
        b
    } else {
        merge_analysis(b, analysis_of(cfg, text, depth + 1))
    }
}

/// The builder after the command substitutions of a command: each is noted
/// as partly evaluated and its text is analyzed.
pub open spec fn substitution_findings(cfg: Analyzer, inners: Seq<Seq<char>>, b: BuilderView, depth: int) -> BuilderView
    decreases levels_left(cfg, depth), 0int, inners.len() + 1,
{
    if inners.len() == 0 {
        b
    } else {
        let prev = substitution_findings(cfg, inners.drop_last(), b, depth);
        nest(cfg, inners.last(), add_unknown(prev, "command_substitution_partial_evaluation"@), depth)
    }
}

/// `base64`: decode the literal text flowing in.
pub open spec fn base64_step(cfg: Analyzer, flow: Option<FlowView>, b: BuilderView, depth: int) -> (
    Option<FlowView>,
    BuilderView,
)
    decreases levels_left(cfg, depth), 0int, 1int,
{
    match flow {
        None => (None, b),
        Some(f) => match f.text {
            None => (Some(f), add_unknown(b, "base64_decode_without_literal_input"@)),
            Some(t) => match base64_outcome(t, cfg.max_input(), cfg.max_output()) {
                Ok(o) => {
                    let b1 = add_finding(
                        add_variant(b, o.variant),
                        Severity::Medium,
                        finding(
                            primary_source(flow),
                            Some("base64_decode"@),
                            Some("stdout"@),
                            EffectKind::ConcealedPayload,
                            Confidence::High,
                            "Literal text is decoded before it is used by later commands."@,
                        ),
                    );
                    (Some(transformed(f, "base64_decode"@, o.text, o.bytes)), nest(cfg, o.text, b1, depth))
                },
                Err(_) => (Some(f), add_unknown(b, "base64_decode_failed"@)),
            },
        },
    }
}

/// `xxd -r -p`: decode the literal hex text flowing in.
pub open spec fn xxd_step(cfg: Analyzer, args: Seq<Seq<char>>, flow: Option<FlowView>, b: BuilderView, depth: int) -> (
    Option<FlowView>,
    BuilderView,
)
    decreases levels_left(cfg, depth), 0int, 1int,
{
    if !(has_arg(args, "-r"@) && has_arg(args, "-p"@)) {
        (flow, b)
    } else {
        match flow {
            None => (None, b),
            Some(f) => match f.text {
                None => (Some(f), add_unknown(b, "hex_decode_without_literal_input"@)),
                Some(t) => match hex_outcome(t, cfg.max_input(), cfg.max_output()) {
                    Ok(o) => {
                        let b1 = add_finding(
                            add_variant(b, o.variant),
                            Severity::Medium,
                            finding(
                                primary_source(flow),
                                Some("hex_decode"@),
                                Some("stdout"@),
                                EffectKind::ConcealedPayload,
                                Confidence::High,
                                "Literal hex text is decoded before it is used by later commands."@,
                            ),
                        );
                        (Some(transformed(f, "hex_decode"@, o.text, o.bytes)), nest(cfg, o.text, b1, depth))
                    },
                    Err(_) => (Some(f), add_unknown(b, "hex_decode_failed"@)),
                },
            },
        }
    }
}

/// Whether a gzip-family command decompresses.
pub open spec fn gzip_decodes(name: Seq<char>, args: Seq<Seq<char>>) -> bool {
    name == "zcat"@ || name == "gunzip"@ || has_arg(args, "-d"@) || has_arg(args, "--decompress"@)
        || has_arg(args, "-dc"@) || has_arg(args, "-cd"@)
}

/// `gzip -d`, `gunzip`, `zcat`: decompress the bytes flowing in.
pub open spec fn gzip_step(
    cfg: Analyzer,
    name: Seq<char>,
    args: Seq<Seq<char>>,
    flow: Option<FlowView>,
    b: BuilderView,
    depth: int,
) -> (Option<FlowView>, BuilderView)
    decreases levels_left(cfg, depth), 0int, 1int,
{
    if !gzip_decodes(name, args) {
        (flow, b)
    } else {
        match flow {
            None => (None, b),
            Some(f) => match f.bytes {
                None => (Some(f), add_unknown(b, "gzip_decode_without_bytes"@)),
                Some(bytes) => match gzip_outcome(bytes, cfg.max_output()) {
                    Ok(o) => {
                        let b1 = add_finding(
                            add_variant(b, o.variant),
                            Severity::Medium,
                            finding(
                                primary_source(flow),
                                Some("gzip_decompress"@),
                                Some("stdout"@),
                                EffectKind::ConcealedPayload,
                                Confidence::High,
                                "Compressed data is decompressed before it is used by later commands."@,
                            ),
                        );
                        (Some(transformed(f, "gzip_decompress"@, o.text, o.bytes)), nest(cfg, o.text, b1, depth))
                    },
                    Err(_) => (Some(f), add_unknown(b, "gzip_decode_failed"@)),
                },
            },
        }
    }
}

/// Why piped content reaching a shell is risky.
pub open spec fn pipe_reason(f: FlowView) -> Seq<char> {
    if from_network(f) {
        "Remote content is piped directly into a shell interpreter."@
    } else if f.transforms.len() > 0 {
        "Decoded or transformed content is piped into a shell interpreter."@
    } else {
        "Piped text is executed by a shell interpreter."@
    }
}

/// The findings for content piped into a shell.
pub open spec fn piped_shell_findings(name: Seq<char>, f: FlowView, b: BuilderView) -> BuilderView {
    let flow = Some(f);
    let sink = Some(label("interpreter("@, name));
    let why = pipe_reason(f);
    let b1 = if from_network(f) {
        add_finding(
            b,
            Severity::High,
            finding(
                primary_source(flow),
                transform_label(flow),
                sink,
                EffectKind::RemoteDownload,
                Confidence::High,
                why,
            ),
        )
    } else {
        b
    };
    let sev = if from_network(f) || f.transforms.len() > 0 {
        Severity::High
    } else {
        Severity::Medium
    };
    let b2 = add_finding(
        b1,
        sev,
        finding(primary_source(flow), transform_label(flow), sink, EffectKind::DynamicExecution, Confidence::High, why),
    );
    if f.transforms.len() > 0 {
        add_finding(
            b2,
            Severity::High,
            finding(
                primary_source(flow),
                transform_label(flow),
                sink,
                EffectKind::ConcealedPayload,
                Confidence::High,
                "Concealed command text is decoded and then executed."@,
            ),
        )
    } else {
        b2
    }
}

/// `bash`, `sh`, `zsh`, `dash`: downloaded files run, `-c` scripts, and piped content.
pub open spec fn shell_step(
    cfg: Analyzer,
    name: Seq<char>,
    cmd: CommandView,
    flow: Option<FlowView>,
    ctx: ContextView,
    b: BuilderView,
    depth: int,
) -> BuilderView
    decreases levels_left(cfg, depth), 0int, 1int,
{
    let b1 = downloaded_run_findings(b, name, non_options(cmd.args), ctx.downloads);
    let b2 = match script_after(cmd.args, seq!["-c"@]) {
        Some(script) => nest(
            cfg,
            script,
            add_finding(
                b1,
                Severity::Medium,
                finding(
                    Some("literal(-c)"@),
                    None,
                    Some(label("interpreter("@, name)),
                    EffectKind::DynamicExecution,
                    Confidence::High,
                    "The shell executes command text supplied with -c."@,
                ),
            ),
            depth,
        ),
        None => b1,
    };
    match flow {
        None => b2,
        Some(f) => {
            let b3 = piped_shell_findings(name, f, b2);
            match f.text {
                Some(t) => nest(cfg, t, b3, depth),
                None => b3,
            }
        },
    }
}

/// The text that `eval`, `source` or `.` evaluates.
pub open spec fn eval_script(args: Seq<Seq<char>>, flow: Option<FlowView>) -> Seq<char> {
    if args.len() > 0 {
        join(args, " "@)
    } else {
        match flow {
            Some(f) => match f.text {
                Some(t) => t,
                None => Seq::empty(),
            },
            None => Seq::empty(),
        }
    }
}

/// `eval`, `source`, `.`: text evaluated as shell code.
pub open spec fn eval_step(
    cfg: Analyzer,
    name: Seq<char>,
    args: Seq<Seq<char>>,
    flow: Option<FlowView>,
    b: BuilderView,
    depth: int,
) -> BuilderView
    decreases levels_left(cfg, depth), 0int, 1int,
{
    let src = match primary_source(flow) {
        Some(s) => Some(s),
        None => Some("literal"@),
    };
    let b1 = add_finding(
        b,
        Severity::Medium,
        finding(
            src,
            transform_label(flow),
            Some(label("dynamic("@, name)),
            EffectKind::DynamicExecution,
            Confidence::High,
            "The command evaluates text as shell code."@,
        ),
    );
    let script = eval_script(args, flow);
    if script.len() > 0 {
        nest(cfg, script, b1, depth)
    } else {
        b1
    }
}

/// The findings for a `-c`/`-e` script of a scripting interpreter.
pub open spec fn script_findings(name: Seq<char>, script: Seq<char>, b: BuilderView) -> BuilderView {
    let sink = Some(label("interpreter("@, name));
    if script_fetches(script) && script_executes(script) {
        let src = Some("network(script literal)"@);
        let why = "The script appears to fetch remote code and execute it."@;
        add_finding(
            add_finding(b, Severity::High, finding(src, None, sink, EffectKind::RemoteDownload, Confidence::Medium, why)),
            Severity::High,
            finding(src, None, sink, EffectKind::DynamicExecution, Confidence::Medium, why),
        )
    } else if script_executes(script) {
        add_finding(
            b,
            Severity::Medium,
            finding(
                Some("literal"@),
                None,
                sink,
                EffectKind::DynamicExecution,
                Confidence::Medium,
                "The script contains dynamic execution primitives."@,
            ),
        )
    } else {
        b
    }
}

/// `python`, `python3`, `perl`, `ruby`, `node`: piped text and inline scripts.
pub open spec fn script_step(
    cfg: Analyzer,
    name: Seq<char>,
    args: Seq<Seq<char>>,
    flow: Option<FlowView>,
    b: BuilderView,
    depth: int,
) -> BuilderView
    decreases levels_left(cfg, depth), 0int, 1int,
{
    let b1 = if flow is Some {
        add_finding(
            b,
            Severity::Medium,
            finding(
                primary_source(flow),
                transform_label(flow),
                Some(label("interpreter("@, name)),
                EffectKind::DynamicExecution,
                Confidence::Medium,
                "Piped text is passed to a scripting interpreter."@,
            ),
        )
    } else {
        b
    };
    match script_after(args, seq!["-c"@, "-e"@]) {
        None => b1,
        Some(script) => nest(cfg, script, script_findings(name, script, b1), depth),
    }
}

/// `curl`: uploads, downloads, and the files downloads are written to.
pub open spec fn curl_step(cmd: CommandView, flow: Option<FlowView>, ctx: ContextView, b: BuilderView) -> (
    Option<FlowView>,
    ContextView,
    BuilderView,
) {
    let urls = urls_in_args(cmd.args);
    let b1 = if sends_data(cmd.args) {
        add_finding(
            b,
            if flow matches Some(f) && from_credentials(f) {
                Severity::High
            } else {
                Severity::Medium
            },
            finding(
                primary_source(flow),
                transform_label(flow),
                if urls.len() > 0 {
                    Some(label("network("@, urls[0]))
                } else {
                    None
                },
                EffectKind::ExternalTransmission,
                Confidence::Medium,
                "curl is configured to send data to an external endpoint."@,
            ),
        )
    } else {
        b
    };
    if urls.len() == 0 {
        (flow, ctx, b1)
    } else {
        download_step("curl reads content from a remote URL."@, urls[0], curl_outputs(cmd.args) + redirect_targets(cmd), ctx, b1)
    }
}

/// `wget`: downloads, and the files they are written to.
pub open spec fn wget_step(cmd: CommandView, flow: Option<FlowView>, ctx: ContextView, b: BuilderView) -> (
    Option<FlowView>,
    ContextView,
    BuilderView,
) {
    let urls = urls_in_args(cmd.args);
    if urls.len() == 0 {
        (flow, ctx, b)
    } else {
        download_step("wget reads content from a remote URL."@, urls[0], wget_outputs(cmd.args) + redirect_targets(cmd), ctx, b)
    }
}

/// A download from `url` to `paths`.
pub open spec fn download_step(
    why: Seq<char>,
    url: Seq<char>,
    paths: Seq<Seq<char>>,
    ctx: ContextView,
    b: BuilderView,
) -> (Option<FlowView>, ContextView, BuilderView) {
    (
        Some(network_flow(url)),
        ContextView { vars: ctx.vars, downloads: record_downloads(ctx.downloads, paths, url) },
        add_finding(
            b,
            Severity::Low,
            finding(
                Some(label("network("@, url)),
                None,
                Some("stdout_or_file"@),
                EffectKind::RemoteDownload,
                Confidence::High,
                why,
            ),
        ),
    )
}

/// Whether `systemctl` enables or starts a user service.
pub open spec fn user_service_change(args: Seq<Seq<char>>) -> bool {
    has_arg(args, "--user"@) && (has_arg(args, "enable"@) || has_arg(args, "start"@))
}

/// Whether a name is one of a list of literal names.
pub open spec fn is_shell(name: Seq<char>) -> bool {
    name == "bash"@ || name == "sh"@ || name == "zsh"@ || name == "dash"@
}

/// Commands that evaluate text as shell code.
pub open spec fn is_eval_like(name: Seq<char>) -> bool {
    name == "eval"@ || name == "source"@ || name == "."@
}

/// Scripting interpreters.
pub open spec fn is_script_interpreter(name: Seq<char>) -> bool {
    name == "python"@ || name == "python3"@ || name == "perl"@ || name == "ruby"@ || name == "node"@
}

/// Commands that can send data to another host.
pub open spec fn is_transmitter(name: Seq<char>) -> bool {
    name == "nc"@ || name == "netcat"@ || name == "socat"@ || name == "ssh"@ || name == "scp"@ || name
        == "rsync"@ || name == "ftp"@
}

/// The findings that come before a command's own handling: its substitutions,
/// credential reads and persistence writes.
pub open spec fn command_prelude(cfg: Analyzer, cmd: CommandView, b: BuilderView, depth: int) -> BuilderView
    decreases levels_left(cfg, depth), 1int, 0int,
{
    let b1 = substitution_findings(cfg, command_substitutions(join(cmd.raw_words + cmd.args, " "@)), b, depth);
    let b2 = credential_findings(b1, cmd.name, cmd.args + redirect_targets(cmd));
    persistence_findings(b2, cmd.redirects)
}

/// The flow out of a command, the context and the builder after it.
pub open spec fn command_effects(
    cfg: Analyzer,
    cmd: CommandView,
    flow: Option<FlowView>,
    ctx: ContextView,
    b: BuilderView,
    depth: int,
) -> (Option<FlowView>, ContextView, BuilderView)
    decreases levels_left(cfg, depth), 2int, command_size(cmd),
{
    let name = command_base(cmd.name);
    let b3 = command_prelude(cfg, cmd, b, depth);
    if destructive(name, cmd.args) {
        (
            None,
            ctx,
            add_finding(
                b3,
                Severity::High,
                finding(
                    None,
                    None,
                    Some(name),
                    EffectKind::DestructiveFilesystem,
                    Confidence::High,
                    "The command can remove or overwrite large parts of the filesystem."@,
                ),
            ),
        )
    } else if is_privilege_wrapper(name) {
        let b4 = add_finding(
            b3,
            Severity::Low,
            finding(
                None,
                None,
                Some(name),
                EffectKind::PrivilegeEscalation,
                Confidence::High,
                "The command asks for elevated privileges."@,
            ),
        );
        match unwrap_privilege(name, cmd) {
            Some(nested) => {
                if command_size(nested) < command_size(cmd) {
                    command_effects(cfg, nested, flow, ctx, b4, depth)
                } else {
                    (flow, ctx, b4)
                }
            },
            None => (flow, ctx, b4),
        }
    } else {
        command_dispatch(cfg, name, cmd, flow, ctx, b3, depth)
    }
}

/// The handling of a command by its name.
pub open spec fn command_dispatch(
    cfg: Analyzer,
    name: Seq<char>,
    cmd: CommandView,
    flow: Option<FlowView>,
    ctx: ContextView,
    b: BuilderView,
    depth: int,
) -> (Option<FlowView>, ContextView, BuilderView)
    decreases levels_left(cfg, depth), 1int, 0int,
{
    if name == "curl"@ {
        curl_step(cmd, flow, ctx, b)
    } else if name == "wget"@ {
        wget_step(cmd, flow, ctx, b)
    } else if name == "echo"@ {
        (Some(literal_flow(join(cmd.args, " "@))), ctx, b)
    } else if name == "printf"@ {
        (Some(literal_flow(printf_text(cmd.args))), ctx, b)
    } else if name == "cat"@ {
        let paths = non_options(cmd.args);
        if paths.len() == 0 {
            (flow, ctx, b)
        } else {
            (Some(files_flow(paths)), ctx, cat_findings(b, paths))
        }
    } else if name == "tar"@ {
        let paths = non_options(cmd.args);
        if paths.len() == 0 {
            (flow, ctx, b)
        } else {
            (Some(files_flow(paths)), ctx, b)
        }
    } else if name == "base64"@ {
        let (f, b2) = base64_step(cfg, flow, b, depth);
        (f, ctx, b2)
    } else if name == "xxd"@ {
        let (f, b2) = xxd_step(cfg, cmd.args, flow, b, depth);
        (f, ctx, b2)
    } else if name == "gzip"@ || name == "gunzip"@ || name == "zcat"@ {
        let (f, b2) = gzip_step(cfg, name, cmd.args, flow, b, depth);
        (f, ctx, b2)
    } else if is_shell(name) {
        (None, ctx, shell_step(cfg, name, cmd, flow, ctx, b, depth))
    } else if is_eval_like(name) {
        (None, ctx, eval_step(cfg, name, cmd.args, flow, b, depth))
    } else if is_script_interpreter(name) {
        (None, ctx, script_step(cfg, name, cmd.args, flow, b, depth))
    } else if name == "tee"@ {
        (flow, ctx, tee_findings(b, flow, non_options(cmd.args)))
    } else if name == "crontab"@ {
        (
            None,
            ctx,
            add_finding(
                b,
                Severity::Medium,
                finding(
                    primary_source(flow),
                    transform_label(flow),
                    Some("crontab"@),
                    EffectKind::PersistenceWrite,
                    Confidence::High,
                    "The command installs or edits user cron entries."@,
                ),
            ),
        )
    } else if name == "systemctl"@ {
        (
            None,
            ctx,
            if user_service_change(cmd.args) {
                add_finding(
                    b,
                    Severity::Medium,
                    finding(
                        None,
                        None,
                        Some("user systemd"@),
                        EffectKind::PersistenceWrite,
                        Confidence::Medium,
                        "The command modifies user-level systemd service state."@,
                    ),
                )
            } else {
                b
            },
        )
    } else if is_transmitter(name) {
        (
            None,
            ctx,
            add_finding(
                b,
                if flow matches Some(f) && from_credentials(f) {
                    Severity::High
                } else {
                    Severity::Medium
                },
                finding(
                    primary_source(flow),
                    transform_label(flow),
                    Some(name),
                    EffectKind::ExternalTransmission,
                    Confidence::Medium,
                    "The command can transmit data to another host."@,
                ),
            ),
        )
    } else {
        (flow, ctx, b)
    }
}

/// A flag found before the last argument leaves a script after it.
pub proof fn lemma_after_flag_bounds(args: Seq<Seq<char>>, flags: Seq<Seq<char>>, i: int)
    requires
        i >= 0,
    ensures
        after_flag_from(args, flags, i) is Some ==> args.len() >= i + 2,
    decreases args.len() - i,
{
    if i + 1 < args.len() && !flags.contains(args[i]) {
        lemma_after_flag_bounds(args, flags, i + 1);
    }
}

/// The end of the options lies between the start and the length.
pub proof fn lemma_options_end_bounds(args: Seq<Seq<char>>, i: int)
    requires
        0 <= i <= args.len(),
    ensures
        i <= options_end(args, i) <= args.len(),
    decreases args.len() - i,
{
    if i < args.len() && args[i] != "--"@ && starts_with(args[i], "-"@) {
        lemma_options_end_bounds(args, i + 1);
    }
}

/// The command run by a privilege wrapper is smaller than the wrapper command.
pub proof fn lemma_unwrap_shrinks(name: Seq<char>, cmd: CommandView)
    requires
        is_privilege_wrapper(name),
        name == command_base(cmd.name),
        unwrap_privilege(name, cmd) is Some,
    ensures
        command_size(unwrap_privilege(name, cmd).unwrap()) < command_size(cmd),
{
    let nested = unwrap_privilege(name, cmd).unwrap();
    if name == "su"@ {
        lemma_after_flag_bounds(cmd.args, seq!["-c"@], 0);
        reveal_strlit("sh");
        reveal_strlit("sudo");
        reveal_strlit("pkexec");
        reveal_strlit("doas");
        reveal_strlit("su");
        let sh = "sh"@;
        assert(last_slash_before(sh, 0) == -1);
        assert(last_slash_before(sh, 1) == -1);
        assert(last_slash_before(sh, 2) == -1);
        assert(sh.skip(0) =~= sh);
        assert(lower(sh) =~= sh);
        assert(command_base(sh) == sh);
        assert(!is_privilege_wrapper(sh));
    } else {
        lemma_options_end_bounds(cmd.args, 0);
    }
}

/// The outputs collected so far stay first.
proof fn lemma_outputs_keep(
    args: Seq<Seq<char>>,
    i: int,
    short: Seq<char>,
    long: Seq<char>,
    long_eq: Seq<char>,
    out: Seq<Seq<char>>,
)
    ensures
        crate::rules::outputs_from(args, i, short, long, long_eq, out).len() >= out.len(),
        forall|k: int|
            0 <= k < out.len() ==> #[trigger] crate::rules::outputs_from(args, i, short, long, long_eq, out)[k]
                == out[k],
    decreases args.len() - i,
{
    if 0 <= i < args.len() {
        if args[i] == short || args[i] == long {
            if i + 1 < args.len() {
                lemma_outputs_keep(args, i + 2, short, long, long_eq, out.push(args[i + 1]));
                assert forall|k: int| 0 <= k < out.len() implies out.push(args[i + 1])[k] == out[k] by {}
            }
        } else if starts_with(args[i], long_eq) {
            let o2 = out.push(crate::rules::strip_prefix_all(args[i], long_eq));
            lemma_outputs_keep(args, i + 1, short, long, long_eq, o2);
            assert forall|k: int| 0 <= k < out.len() implies o2[k] == out[k] by {}
        } else {
            lemma_outputs_keep(args, i + 1, short, long, long_eq, out);
        }
    }
}

/// Every path given to a download is recorded with its URL.
proof fn lemma_record_downloads_has(dl: Seq<(Seq<char>, Seq<char>)>, paths: Seq<Seq<char>>, url: Seq<char>, k: int)
    requires
        0 <= k < paths.len(),
    ensures
        record_downloads(dl, paths, url).contains((cleaned_path(paths[k]), url)),
    decreases paths.len(),
{
    let r = record_downloads(dl, paths, url);
    let prev = record_downloads(dl, paths.drop_last(), url);
    assert(r == prev.push((cleaned_path(paths.last()), url)));
    if k == paths.len() - 1 {
        assert(r[prev.len() as int] == (cleaned_path(paths[k]), url));
    } else {
        lemma_record_downloads_has(dl, paths.drop_last(), url, k);
        assert(paths.drop_last()[k] == paths[k]);
        let j = choose|j: int| 0 <= j < prev.len() && prev[j] == (cleaned_path(paths[k]), url);
        assert(r[j] == prev[j]);
    }
}

/// `wget -O PATH ...URL...` (or `--output-document PATH`) records PATH
/// (without quotes) as a file downloaded from the first URL of the
/// arguments, so that a shell that later runs PATH is seen to run downloaded
/// content.
pub proof fn wget_records_output_document(
    cmd: CommandView,
    flow: Option<FlowView>,
    ctx: ContextView,
    b: BuilderView,
)
    requires
        cmd.args.len() >= 2,
        cmd.args[0] == "-O"@ || cmd.args[0] == "--output-document"@,
        urls_in_args(cmd.args).len() > 0,
    ensures
        wget_step(cmd, flow, ctx, b).1.downloads.contains((cleaned_path(cmd.args[1]), urls_in_args(cmd.args)[0])),
{
    let args = cmd.args;
    let p = args[1];
    let first = seq![p];
    assert(Seq::<Seq<char>>::empty().push(args[1]) == first);
    lemma_outputs_keep(args, 2, "-O"@, "--output-document"@, "--output-document="@, first);
    let outs = wget_outputs(args);
    assert(outs == crate::rules::outputs_from(args, 2, "-O"@, "--output-document"@, "--output-document="@, first));
    assert(outs[0] == p);
    let paths = outs + redirect_targets(cmd);
    assert(paths[0] == p);
    lemma_record_downloads_has(ctx.downloads, paths, urls_in_args(args)[0], 0);
}

/// `curl -o PATH ...URL...` (or `--output PATH`) records PATH (without
/// quotes) as a file downloaded from the first URL of the arguments.
pub proof fn curl_records_output_file(cmd: CommandView, flow: Option<FlowView>, ctx: ContextView, b: BuilderView)
    requires
        cmd.args.len() >= 2,
        cmd.args[0] == "-o"@ || cmd.args[0] == "--output"@,
        urls_in_args(cmd.args).len() > 0,
    ensures
        curl_step(cmd, flow, ctx, b).1.downloads.contains((cleaned_path(cmd.args[1]), urls_in_args(cmd.args)[0])),
{
    let args = cmd.args;
    let p = args[1];
    let first = seq![p];
    assert(Seq::<Seq<char>>::empty().push(args[1]) == first);
    lemma_outputs_keep(args, 2, "-o"@, "--output"@, "--output="@, first);
    let outs = curl_outputs(args);
    assert(outs == crate::rules::outputs_from(args, 2, "-o"@, "--output"@, "--output="@, first));
    assert(outs[0] == p);
    let paths = outs + redirect_targets(cmd);
    assert(paths[0] == p);
    lemma_record_downloads_has(ctx.downloads, paths, urls_in_args(args)[0], 0);
}

} // verus!
