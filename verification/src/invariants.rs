//! What holds of every analysis: the builder's invariant is kept through the
//! whole analysis of a paste, nested decoded text included.
use vstd::prelude::*;
use crate::analyzer::Analyzer;
use crate::builder::{add_finding, add_unknown, analysis_wf, builder_wf, empty_builder, finished, finished_is_wf, BuilderView};
use crate::builder::{add_finding_keeps_wf, add_unknown_keeps_wf, add_variant_keeps_wf, merge_analysis_keeps_wf};
use crate::model::{EffectKind, Severity, Confidence};
use crate::rules::{script_after, unwrap_privilege};
use crate::semantics::{
    analysis_of, base64_step, cat_findings, command_dispatch, command_effects, command_prelude, command_size,
    credential_findings, destructive, downloaded_run_findings, empty_context, eval_step, finding, gzip_step,
    is_privilege_wrapper, label, levels_left, nest, persistence_findings, redirect_targets, run_pipeline,
    run_pipelines, script_findings, script_step, shell_step, substitution_findings, tee_findings, xxd_step,
    non_options, ContextView, FlowView,
};
use crate::shell::{command_base, command_substitutions, lex, normalize, pipelines_of, CommandView, RedirectView, Tok};
use crate::syntax::{bash_outline, note_kinds, note_outline};
use crate::text::join;

verus! {

broadcast use add_finding_keeps_wf, add_unknown_keeps_wf, add_variant_keeps_wf, merge_analysis_keeps_wf;

proof fn wf_note_kinds(b: BuilderView, kinds: Seq<Seq<char>>)
    requires
        builder_wf(b),
    ensures
        builder_wf(note_kinds(b, kinds)),
    decreases kinds.len(),
{
    if kinds.len() > 0 {
        wf_note_kinds(b, kinds.drop_last());
    }
}

proof fn wf_note_outline(b: BuilderView, outline: Option<Option<(bool, Seq<Seq<char>>)>>)
    requires
        builder_wf(b),
    ensures
        builder_wf(note_outline(b, outline)),
{
    match outline {
        Some(Some((has_error, kinds))) => {
            let b1 = if has_error {
                add_unknown(b, "parse_error"@)
            } else {
                b
            };
            wf_note_kinds(b1, kinds);
        },
        _ => {},
    }
}

proof fn wf_credential_findings(b: BuilderView, sink: Seq<char>, values: Seq<Seq<char>>)
    requires
        builder_wf(b),
    ensures
        builder_wf(credential_findings(b, sink, values)),
    decreases values.len(),
{
    if values.len() > 0 {
        wf_credential_findings(b, sink, values.drop_last());
    }
}

proof fn wf_persistence_findings(b: BuilderView, reds: Seq<RedirectView>)
    requires
        builder_wf(b),
    ensures
        builder_wf(persistence_findings(b, reds)),
    decreases reds.len(),
{
    if reds.len() > 0 {
        wf_persistence_findings(b, reds.drop_last());
    }
}

proof fn wf_cat_findings(b: BuilderView, paths: Seq<Seq<char>>)
    requires
        builder_wf(b),
    ensures
        builder_wf(cat_findings(b, paths)),
    decreases paths.len(),
{
    if paths.len() > 0 {
        wf_cat_findings(b, paths.drop_last());
    }
}

proof fn wf_tee_findings(b: BuilderView, flow: Option<FlowView>, targets: Seq<Seq<char>>)
    requires
        builder_wf(b),
    ensures
        builder_wf(tee_findings(b, flow, targets)),
    decreases targets.len(),
{
    if targets.len() > 0 {
        wf_tee_findings(b, flow, targets.drop_last());
    }
}

proof fn wf_downloaded_run_findings(
    b: BuilderView,
    name: Seq<char>,
    args: Seq<Seq<char>>,
    downloads: Seq<(Seq<char>, Seq<char>)>,
)
    requires
        builder_wf(b),
    ensures
        builder_wf(downloaded_run_findings(b, name, args, downloads)),
    decreases args.len(),
{
    if args.len() > 0 {
        wf_downloaded_run_findings(b, name, args.drop_last(), downloads);
    }
}

proof fn wf_analysis_of(cfg: Analyzer, input: Seq<char>, depth: int)
    ensures
        analysis_wf(analysis_of(cfg, input, depth)),
    decreases levels_left(cfg, depth), 5int, 0int,
{
    crate::builder::empty_builder_wf();
    wf_note_outline(empty_builder(), bash_outline(input));
    let b0 = note_outline(empty_builder(), bash_outline(input));
    if depth > cfg.max_depth() {
        finished_is_wf(add_unknown(b0, "recursion_limit_reached"@));
    } else {
        let pls = pipelines_of(lex(input));
        wf_run_pipelines(cfg, pls, 0, empty_context(), b0, depth);
        finished_is_wf(run_pipelines(cfg, pls, 0, empty_context(), b0, depth));
    }
}

proof fn wf_run_pipelines(
    cfg: Analyzer,
    pls: Seq<Seq<Seq<Tok>>>,
    i: int,
    ctx: ContextView,
    b: BuilderView,
    depth: int,
)
    requires
        builder_wf(b),
    ensures
        builder_wf(run_pipelines(cfg, pls, i, ctx, b, depth)),
    decreases levels_left(cfg, depth), 4int, pls.len() - i,
{
    if 0 <= i < pls.len() {
        let (ctx2, b2) = run_pipeline(cfg, pls[i], 0, None, ctx, b, depth);
        wf_run_pipeline(cfg, pls[i], 0, None, ctx, b, depth);
        wf_run_pipelines(cfg, pls, i + 1, ctx2, b2, depth);
    }
}

proof fn wf_run_pipeline(
    cfg: Analyzer,
    pl: Seq<Seq<Tok>>,
    j: int,
    flow: Option<FlowView>,
    ctx: ContextView,
    b: BuilderView,
    depth: int,
)
    requires
        builder_wf(b),
    ensures
        builder_wf(run_pipeline(cfg, pl, j, flow, ctx, b, depth).1),
    decreases levels_left(cfg, depth), 3int, pl.len() - j,
{
    if 0 <= j < pl.len() {
        let (oc, vars2) = normalize(pl[j], ctx.vars);
        let ctx1 = ContextView { vars: vars2, downloads: ctx.downloads };
        match oc {
            None => {
                wf_run_pipeline(cfg, pl, j + 1, flow, ctx1, b, depth);
            },
            Some(cmd) => {
                let (f2, ctx2, b2) = command_effects(cfg, cmd, flow, ctx1, b, depth);
                wf_command_effects(cfg, cmd, flow, ctx1, b, depth);
                wf_run_pipeline(cfg, pl, j + 1, f2, ctx2, b2, depth);
            },
        }
    }
}

proof fn wf_command_prelude(cfg: Analyzer, cmd: CommandView, b: BuilderView, depth: int)
    requires
        builder_wf(b),
    ensures
        builder_wf(command_prelude(cfg, cmd, b, depth)),
    decreases levels_left(cfg, depth), 1int, 0int,
{
    let inners = command_substitutions(join(cmd.raw_words + cmd.args, " "@));
    wf_substitution_findings(cfg, inners, b, depth);
    let b1 = substitution_findings(cfg, inners, b, depth);
    wf_credential_findings(b1, cmd.name, cmd.args + redirect_targets(cmd));
    let b2 = credential_findings(b1, cmd.name, cmd.args + redirect_targets(cmd));
    wf_persistence_findings(b2, cmd.redirects);
}

proof fn wf_command_effects(
    cfg: Analyzer,
    cmd: CommandView,
    flow: Option<FlowView>,
    ctx: ContextView,
    b: BuilderView,
    depth: int,
)
    requires
        builder_wf(b),
    ensures
        builder_wf(command_effects(cfg, cmd, flow, ctx, b, depth).2),
    decreases levels_left(cfg, depth), 2int, command_size(cmd),
{
    let name = command_base(cmd.name);
    wf_command_prelude(cfg, cmd, b, depth);
    let b3 = command_prelude(cfg, cmd, b, depth);
    if destructive(name, cmd.args) {
    } else if is_privilege_wrapper(name) {
        let b4 = add_finding(
            b3,
            Severity::Low,
            finding(
                None,
                None,
                Some(name),
                EffectKind::PrivilegeEscalation,
                Confidence::High,
                "The command asks for elevated privileges."@,
            ),
        );
        match unwrap_privilege(name, cmd) {
            Some(nested) => {
                if command_size(nested) < command_size(cmd) {
                    wf_command_effects(cfg, nested, flow, ctx, b4, depth);
                }
            },
            None => {},
        }
    } else {
        wf_command_dispatch(cfg, name, cmd, flow, ctx, b3, depth);
    }
}

proof fn wf_command_dispatch(
    cfg: Analyzer,
    name: Seq<char>,
    cmd: CommandView,
    flow: Option<FlowView>,
    ctx: ContextView,
    b: BuilderView,
    depth: int,
)
    requires
        builder_wf(b),
    ensures
        builder_wf(command_dispatch(cfg, name, cmd, flow, ctx, b, depth).2),
    decreases levels_left(cfg, depth), 1int, 0int,
{
    if name == "curl"@ || name == "wget"@ || name == "echo"@ || name == "printf"@ {
    } else if name == "cat"@ {
        wf_cat_findings(b, non_options(cmd.args));
    } else if name == "tar"@ {
    } else if name == "base64"@ {
        wf_base64_step(cfg, flow, b, depth);
    } else if name == "xxd"@ {
        wf_xxd_step(cfg, cmd.args, flow, b, depth);
    } else if name == "gzip"@ || name == "gunzip"@ || name == "zcat"@ {
        wf_gzip_step(cfg, name, cmd.args, flow, b, depth);
    } else if crate::semantics::is_shell(name) {
        wf_shell_step(cfg, name, cmd, flow, ctx, b, depth);
    } else if crate::semantics::is_eval_like(name) {
        wf_eval_step(cfg, name, cmd.args, flow, b, depth);
    } else if crate::semantics::is_script_interpreter(name) {
        wf_script_step(cfg, name, cmd.args, flow, b, depth);
    } else if name == "tee"@ {
        wf_tee_findings(b, flow, non_options(cmd.args));
    }
}

proof fn wf_nest(cfg: Analyzer, text: Seq<char>, b: BuilderView, depth: int)
    requires
        builder_wf(b),
    ensures
        builder_wf(nest(cfg, text, b, depth)),
    decreases levels_left(cfg, depth), 0int, 0int,
{
    if !(depth + 1 > cfg.max_depth() || crate::text::all_ws(text) || depth < 0) {
        wf_analysis_of(cfg, text, depth + 1);
    }
}

proof fn wf_substitution_findings(cfg: Analyzer, inners: Seq<Seq<char>>, b: BuilderView, depth: int)
    requires
        builder_wf(b),
    ensures
        builder_wf(substitution_findings(cfg, inners, b, depth)),
    decreases levels_left(cfg, depth), 0int, inners.len() + 1,
{
    if inners.len() > 0 {
        wf_substitution_findings(cfg, inners.drop_last(), b, depth);
        let prev = substitution_findings(cfg, inners.drop_last(), b, depth);
        wf_nest(cfg, inners.last(), add_unknown(prev, "command_substitution_partial_evaluation"@), depth);
    }
}

proof fn wf_base64_step(cfg: Analyzer, flow: Option<FlowView>, b: BuilderView, depth: int)
    requires
        builder_wf(b),
    ensures
        builder_wf(base64_step(cfg, flow, b, depth).1),
    decreases levels_left(cfg, depth), 0int, 1int,
{
    match flow {
        Some(f) => match f.text {
            Some(t) => match crate::decoder::base64_outcome(t, cfg.max_input(), cfg.max_output()) {
                Ok(o) => {
                    let b1 = add_finding(
                        crate::builder::add_variant(b, o.variant),
                        Severity::Medium,
                        finding(
                            crate::semantics::primary_source(flow),
                            Some("base64_decode"@),
                            Some("stdout"@),
                            EffectKind::ConcealedPayload,
                            Confidence::High,
                            "Literal text is decoded before it is used by later commands."@,
                        ),
                    );
                    wf_nest(cfg, o.text, b1, depth);
                },
                Err(_) => {},
            },
            None => {},
        },
        None => {},
    }
}

proof fn wf_xxd_step(cfg: Analyzer, args: Seq<Seq<char>>, flow: Option<FlowView>, b: BuilderView, depth: int)
    requires
        builder_wf(b),
    ensures
        builder_wf(xxd_step(cfg, args, flow, b, depth).1),
    decreases levels_left(cfg, depth), 0int, 1int,
{
    if crate::semantics::has_arg(args, "-r"@) && crate::semantics::has_arg(args, "-p"@) {
        match flow {
            Some(f) => match f.text {
                Some(t) => match crate::decoder::hex_outcome(t, cfg.max_input(), cfg.max_output()) {
                    Ok(o) => {
                        let b1 = add_finding(
                            crate::builder::add_variant(b, o.variant),
                            Severity::Medium,
                            finding(
                                crate::semantics::primary_source(flow),
                                Some("hex_decode"@),
                                Some("stdout"@),
                                EffectKind::ConcealedPayload,
                                Confidence::High,
                                "Literal hex text is decoded before it is used by later commands."@,
                            ),
                        );
                        wf_nest(cfg, o.text, b1, depth);
                    },
                    Err(_) => {},
                },
                None => {},
            },
            None => {},
        }
    }
}

proof fn wf_gzip_step(
    cfg: Analyzer,
    name: Seq<char>,
    args: Seq<Seq<char>>,
    flow: Option<FlowView>,
    b: BuilderView,
    depth: int,
)
    requires
        builder_wf(b),
    ensures
        builder_wf(gzip_step(cfg, name, args, flow, b, depth).1),
    decreases levels_left(cfg, depth), 0int, 1int,
{
    if crate::semantics::gzip_decodes(name, args) {
        match flow {
            Some(f) => match f.bytes {
                Some(bytes) => match crate::decoder::gzip_outcome(bytes, cfg.max_output()) {
                    Ok(o) => {
                        let b1 = add_finding(
                            crate::builder::add_variant(b, o.variant),
                            Severity::Medium,
                            finding(
                                crate::semantics::primary_source(flow),
                                Some("gzip_decompress"@),
                                Some("stdout"@),
                                EffectKind::ConcealedPayload,
                                Confidence::High,
                                "Compressed data is decompressed before it is used by later commands."@,
                            ),
                        );
                        wf_nest(cfg, o.text, b1, depth);
                    },
                    Err(_) => {},
                },
                None => {},
            },
            None => {},
        }
    }
}

proof fn wf_shell_step(
    cfg: Analyzer,
    name: Seq<char>,
    cmd: CommandView,
    flow: Option<FlowView>,
    ctx: ContextView,
    b: BuilderView,
    depth: int,
)
    requires
        builder_wf(b),
    ensures
        builder_wf(shell_step(cfg, name, cmd, flow, ctx, b, depth)),
    decreases levels_left(cfg, depth), 0int, 1int,
{
    wf_downloaded_run_findings(b, name, non_options(cmd.args), ctx.downloads);
    let b1 = downloaded_run_findings(b, name, non_options(cmd.args), ctx.downloads);
    let b2 = match script_after(cmd.args, seq!["-c"@]) {
        Some(script) => {
            let bc = add_finding(
                b1,
                Severity::Medium,
                finding(
                    Some("literal(-c)"@),
                    None,
                    Some(label("interpreter("@, name)),
                    EffectKind::DynamicExecution,
                    Confidence::High,
                    "The shell executes command text supplied with -c."@,
                ),
            );
            wf_nest(cfg, script, bc, depth);
            nest(cfg, script, bc, depth)
        },
        None => b1,
    };
    match flow {
        None => {},
        Some(f) => {
            let b3 = crate::semantics::piped_shell_findings(name, f, b2);
            match f.text {
                Some(t) => {
                    wf_nest(cfg, t, b3, depth);
                },
                None => {},
            }
        },
    }
}

proof fn wf_eval_step(
    cfg: Analyzer,
    name: Seq<char>,
    args: Seq<Seq<char>>,
    flow: Option<FlowView>,
    b: BuilderView,
    depth: int,
)
    requires
        builder_wf(b),
    ensures
        builder_wf(eval_step(cfg, name, args, flow, b, depth)),
    decreases levels_left(cfg, depth), 0int, 1int,
{
    let src = match crate::semantics::primary_source(flow) {
        Some(s) => Some(s),
        None => Some("literal"@),
    };
    let b1 = add_finding(
        b,
        Severity::Medium,
        finding(
            src,
            crate::semantics::transform_label(flow),
            Some(label("dynamic("@, name)),
            EffectKind::DynamicExecution,
            Confidence::High,
            "The command evaluates text as shell code."@,
        ),
    );
    let script = crate::semantics::eval_script(args, flow);
    if script.len() > 0 {
        wf_nest(cfg, script, b1, depth);
    }
}

proof fn wf_script_step(
    cfg: Analyzer,
    name: Seq<char>,
    args: Seq<Seq<char>>,
    flow: Option<FlowView>,
    b: BuilderView,
    depth: int,
)
    requires
        builder_wf(b),
    ensures
        builder_wf(script_step(cfg, name, args, flow, b, depth)),
    decreases levels_left(cfg, depth), 0int, 1int,
{
    let b1 = if flow is Some {
        add_finding(
            b,
            Severity::Medium,
            finding(
                crate::semantics::primary_source(flow),
                crate::semantics::transform_label(flow),
                Some(label("interpreter("@, name)),
                EffectKind::DynamicExecution,
                Confidence::Medium,
                "Piped text is passed to a scripting interpreter."@,
            ),
        )
    } else {
        b
    };
    match script_after(args, seq!["-c"@, "-e"@]) {
        None => {},
        Some(script) => {
            wf_nest(cfg, script, script_findings(name, script, b1), depth);
        },
    }
}

/// Every analysis satisfies `analysis_wf`: no finding is recorded twice, the
/// effects are exactly the effects of the evidence, the severity is `Safe`
/// exactly when there is no effect, and the confidence and explanation follow
/// from the findings.
pub proof fn every_analysis_is_wf(cfg: Analyzer, input: Seq<char>, depth: int)
    ensures
        analysis_wf(analysis_of(cfg, input, depth)),
{
    wf_analysis_of(cfg, input, depth);
}

/// Confidence `Unknown` is given only when some syntax was outside the analyzer.
pub proof fn unknown_confidence_comes_from_unsupported_syntax(cfg: Analyzer, input: Seq<char>, depth: int)
    ensures
        analysis_of(cfg, input, depth).confidence == Confidence::Unknown ==> analysis_of(
            cfg,
            input,
            depth,
        ).unsupported_constructs.len() > 0,
{
    wf_analysis_of(cfg, input, depth);
}

/// Confidence `High` is given only when some evidence is of high confidence,
/// or when nothing suspicious and nothing unsupported was found.
pub proof fn high_confidence_is_grounded(cfg: Analyzer, input: Seq<char>, depth: int)
    ensures
        ({
            let a = analysis_of(cfg, input, depth);
            a.confidence == Confidence::High ==> crate::builder::has_high_confidence(a.evidence) || (
            a.effects.len() == 0 && a.unsupported_constructs.len() == 0)
        }),
{
    wf_analysis_of(cfg, input, depth);
}

/// Nested text (decoded payloads, `-c` scripts, evaluated text, command
/// substitutions) is analyzed only from a depth below the analyzer's limit:
/// otherwise the builder is left as it is.
pub proof fn nesting_stops_at_depth_limit(cfg: Analyzer, text: Seq<char>, b: BuilderView, depth: int)
    ensures
        nest(cfg, text, b, depth) != b ==> 0 <= depth && depth + 1 <= cfg.max_depth(),
{
}

/// Text at a depth beyond the analyzer's limit is not followed: its analysis
/// only notes the parse outline and that the recursion limit was reached.
pub proof fn analysis_beyond_depth_limit(cfg: Analyzer, input: Seq<char>, depth: int)
    requires
        depth > cfg.max_depth(),
    ensures
        analysis_of(cfg, input, depth) == finished(
            add_unknown(note_outline(empty_builder(), bash_outline(input)), "recursion_limit_reached"@),
        ),
{
}

/// Whether `b2` holds every piece of evidence of `b1`, at no lower severity.
pub open spec fn grows(b1: BuilderView, b2: BuilderView) -> bool {
    &&& forall|ev: crate::model::EvidenceView| b1.evidence.contains(ev) ==> #[trigger] b2.evidence.contains(ev)
    &&& b2.severity.rank() >= b1.severity.rank()
}

proof fn lemma_add_finding_grows(b: BuilderView, s: Severity, ev: crate::model::EvidenceView)
    ensures
        grows(b, add_finding(b, s, ev)),
        add_finding(b, s, ev).evidence.contains(ev),
        add_finding(b, s, ev).severity.rank() >= s.rank(),
{
    crate::builder::lemma_with_new(b.evidence, ev);
}

proof fn lemma_nest_grows(cfg: Analyzer, text: Seq<char>, b: BuilderView, depth: int)
    ensures
        grows(b, nest(cfg, text, b, depth)),
{
    if !(depth + 1 > cfg.max_depth() || crate::text::all_ws(text) || depth < 0) {
        let a = analysis_of(cfg, text, depth + 1);
        crate::builder::lemma_with_all_new(b.evidence, a.evidence);
    }
}

proof fn lemma_piped_grows(name: Seq<char>, f: FlowView, b: BuilderView)
    ensures
        grows(b, crate::semantics::piped_shell_findings(name, f, b)),
{
    let flow = Some(f);
    let sink = Some(label("interpreter("@, name));
    let why = crate::semantics::pipe_reason(f);
    let b1 = if crate::semantics::from_network(f) {
        add_finding(
            b,
            Severity::High,
            finding(
                crate::semantics::primary_source(flow),
                crate::semantics::transform_label(flow),
                sink,
                EffectKind::RemoteDownload,
                Confidence::High,
                why,
            ),
        )
    } else {
        b
    };
    if crate::semantics::from_network(f) {
        lemma_add_finding_grows(
            b,
            Severity::High,
            finding(
                crate::semantics::primary_source(flow),
                crate::semantics::transform_label(flow),
                sink,
                EffectKind::RemoteDownload,
                Confidence::High,
                why,
            ),
        );
    }
    let sev = if crate::semantics::from_network(f) || f.transforms.len() > 0 {
        Severity::High
    } else {
        Severity::Medium
    };
    let ev2 = finding(
        crate::semantics::primary_source(flow),
        crate::semantics::transform_label(flow),
        sink,
        EffectKind::DynamicExecution,
        Confidence::High,
        why,
    );
    lemma_add_finding_grows(b1, sev, ev2);
    let b2 = add_finding(b1, sev, ev2);
    if f.transforms.len() > 0 {
        lemma_add_finding_grows(
            b2,
            Severity::High,
            finding(
                crate::semantics::primary_source(flow),
                crate::semantics::transform_label(flow),
                sink,
                EffectKind::ConcealedPayload,
                Confidence::High,
                "Concealed command text is decoded and then executed."@,
            ),
        );
    }
}

/// The finding for a shell that runs a file downloaded from `url`.
pub open spec fn downloaded_run_finding(name: Seq<char>, url: Seq<char>) -> crate::model::EvidenceView {
    finding(
        Some(label("network("@, url)),
        None,
        Some(label("interpreter("@, name)),
        EffectKind::DynamicExecution,
        Confidence::High,
        "A file downloaded from the network is executed by a shell."@,
    )
}

proof fn lemma_downloaded_run(
    b: BuilderView,
    name: Seq<char>,
    args: Seq<Seq<char>>,
    downloads: Seq<(Seq<char>, Seq<char>)>,
    k: int,
    url: Seq<char>,
)
    requires
        0 <= k < args.len(),
        crate::shell::lookup(downloads, crate::rules::cleaned_path(args[k])) == Some(url),
    ensures
        downloaded_run_findings(b, name, args, downloads).evidence.contains(downloaded_run_finding(name, url)),
        downloaded_run_findings(b, name, args, downloads).severity == Severity::High,
    decreases args.len(),
{
    let prev = downloaded_run_findings(b, name, args.drop_last(), downloads);
    if k < args.len() - 1 {
        assert(args.drop_last()[k] == args[k]);
        lemma_downloaded_run(b, name, args.drop_last(), downloads, k, url);
    }
    match crate::shell::lookup(downloads, crate::rules::cleaned_path(args.last())) {
        Some(u) => {
            let src = Some(label("network("@, u));
            let sink = Some(label("interpreter("@, name));
            let why = "A file downloaded from the network is executed by a shell."@;
            let e1 = finding(src, None, sink, EffectKind::RemoteDownload, Confidence::High, why);
            let e2 = finding(src, None, sink, EffectKind::DynamicExecution, Confidence::High, why);
            lemma_add_finding_grows(prev, Severity::High, e1);
            lemma_add_finding_grows(add_finding(prev, Severity::High, e1), Severity::High, e2);
        },
        None => {},
    }
}

/// A shell that runs a file recorded as downloaded from `url` gets a High
/// finding of dynamic execution whose source is that URL, whatever else the
/// command does.
pub proof fn shell_running_download_is_high(
    cfg: Analyzer,
    name: Seq<char>,
    cmd: CommandView,
    flow: Option<FlowView>,
    ctx: ContextView,
    b: BuilderView,
    depth: int,
    k: int,
    url: Seq<char>,
)
    requires
        0 <= k < non_options(cmd.args).len(),
        crate::shell::lookup(ctx.downloads, crate::rules::cleaned_path(non_options(cmd.args)[k])) == Some(url),
    ensures
        shell_step(cfg, name, cmd, flow, ctx, b, depth).evidence.contains(downloaded_run_finding(name, url)),
        shell_step(cfg, name, cmd, flow, ctx, b, depth).severity == Severity::High,
{
    lemma_downloaded_run(b, name, non_options(cmd.args), ctx.downloads, k, url);
    let b1 = downloaded_run_findings(b, name, non_options(cmd.args), ctx.downloads);
    let b2 = match script_after(cmd.args, seq!["-c"@]) {
        Some(script) => {
            let ev = finding(
                Some("literal(-c)"@),
                None,
                Some(label("interpreter("@, name)),
                EffectKind::DynamicExecution,
                Confidence::High,
                "The shell executes command text supplied with -c."@,
            );
            lemma_add_finding_grows(b1, Severity::Medium, ev);
            lemma_nest_grows(cfg, script, add_finding(b1, Severity::Medium, ev), depth);
            nest(cfg, script, add_finding(b1, Severity::Medium, ev), depth)
        },
        None => b1,
    };
    assert(grows(b1, b2));
    match flow {
        None => {},
        Some(f) => {
            lemma_piped_grows(name, f, b2);
            let b3 = crate::semantics::piped_shell_findings(name, f, b2);
            match f.text {
                Some(t) => {
                    lemma_nest_grows(cfg, t, b3, depth);
                },
                None => {},
            }
        },
    }
}

} // verus!
