//! Human-readable reports and the warning shown for a held paste.
use vstd::prelude::*;
use crate::model::{
    effect_label, Analysis, AnalysisView, Confidence, DecodedVariant, DecodedVariantView, EffectKind, Evidence,
    EvidenceView, Severity,
};
use crate::text::{chars_of, contains_text, occurs_at};

verus! {

broadcast use crate::text::lemma_char_vec_deep_view;

/// The debug name of a severity.
pub open spec fn severity_name(s: Severity) -> Seq<char> {
    match s {
        Severity::Safe => "Safe"@,
        Severity::Low => "Low"@,
        Severity::Medium => "Medium"@,
        Severity::High => "High"@,
    }
}

/// The debug name of a confidence level.
pub open spec fn confidence_name(c: Confidence) -> Seq<char> {
    match c {
        Confidence::Unknown => "Unknown"@,
        Confidence::Medium => "Medium"@,
        Confidence::High => "High"@,
    }
}

/// The debug name of an effect.
pub open spec fn effect_name(e: EffectKind) -> Seq<char> {
    match e {
        EffectKind::RemoteDownload => "RemoteDownload"@,
        EffectKind::DynamicExecution => "DynamicExecution"@,
        EffectKind::ConcealedPayload => "ConcealedPayload"@,
        EffectKind::CredentialRead => "CredentialRead"@,
        EffectKind::PersistenceWrite => "PersistenceWrite"@,
        EffectKind::PrivilegeEscalation => "PrivilegeEscalation"@,
        EffectKind::DestructiveFilesystem => "DestructiveFilesystem"@,
        EffectKind::ExternalTransmission => "ExternalTransmission"@,
    }
}

/// The debug name of a severity.
pub fn severity_text(s: Severity) -> (r: &'static str)
    ensures
        r@ == severity_name(s),
{
    match s {
        Severity::Safe => "Safe",
        Severity::Low => "Low",
        Severity::Medium => "Medium",
        Severity::High => "High",
    }
}

/// The debug name of a confidence level.
pub fn confidence_text(c: Confidence) -> (r: &'static str)
    ensures
        r@ == confidence_name(c),
{
    match c {
        Confidence::Unknown => "Unknown",
        Confidence::Medium => "Medium",
        Confidence::High => "High",
    }
}

/// The debug name of an effect.
pub fn effect_text(e: EffectKind) -> (r: &'static str)
    ensures
        r@ == effect_name(e),
{
    match e {
        EffectKind::RemoteDownload => "RemoteDownload",
        EffectKind::DynamicExecution => "DynamicExecution",
        EffectKind::ConcealedPayload => "ConcealedPayload",
        EffectKind::CredentialRead => "CredentialRead",
        EffectKind::PersistenceWrite => "PersistenceWrite",
        EffectKind::PrivilegeEscalation => "PrivilegeEscalation",
        EffectKind::DestructiveFilesystem => "DestructiveFilesystem",
        EffectKind::ExternalTransmission => "ExternalTransmission",
    }
}

/// Whether a text ends with a newline.
pub open spec fn ends_in_newline(s: Seq<char>) -> bool {
    s.len() > 0 && s.last() == '\n'
}

/// A newline unless the text already ends with one.
pub open spec fn closing_newline(s: Seq<char>) -> Seq<char> {
    if ends_in_newline(s) {
        Seq::empty()
    } else {
        "\n"@
    }
}

/// An optional text, or `none`.
pub open spec fn or_none(o: Option<Seq<char>>) -> Seq<char> {
    match o {
        Some(s) => s,
        None => "none"@,
    }
}

/// `- label` lines for effects, with the given line ending.
pub open spec fn effect_lines(effects: Seq<EffectKind>, eol: Seq<char>) -> Seq<char>
    decreases effects.len(),
{
    if effects.len() == 0 {
        Seq::empty()
    } else {
        effect_lines(effects.drop_last(), eol) + "- "@ + effect_label(effects.last()) + eol
    }
}

/// The report lines of one piece of evidence.
pub open spec fn evidence_entry(e: EvidenceView) -> Seq<char> {
    "- "@ + "SOURCE: "@ + or_none(e.source) + "; TRANSFORM: "@ + or_none(e.transform) + "; SINK: "@ + or_none(
        e.sink,
    ) + "; EFFECT: "@ + effect_name(e.effect) + "; CONFIDENCE: "@ + confidence_name(e.confidence) + "\n"@
        + "  "@ + e.reason + "\n"@
}

/// The report lines of the evidence.
pub open spec fn evidence_lines(evs: Seq<EvidenceView>) -> Seq<char>
    decreases evs.len(),
{
    if evs.len() == 0 {
        Seq::empty()
    } else {
        evidence_lines(evs.drop_last()) + evidence_entry(evs.last())
    }
}

/// The report lines of one decoded variant.
pub open spec fn variant_entry(d: DecodedVariantView) -> Seq<char> {
    "- "@ + d.transform + "\n"@ + "```\n"@ + d.text + closing_newline(d.text) + "```\n"@ + if d.truncated {
        "  output truncated for display\n"@
    } else {
        Seq::empty()
    }
}

/// The report lines of the decoded variants.
pub open spec fn variant_lines(ds: Seq<DecodedVariantView>) -> Seq<char>
    decreases ds.len(),
{
    if ds.len() == 0 {
        Seq::empty()
    } else {
        variant_lines(ds.drop_last()) + variant_entry(ds.last())
    }
}

/// `- item` lines for texts.
pub open spec fn item_lines(items: Seq<Seq<char>>) -> Seq<char>
    decreases items.len(),
{
    if items.len() == 0 {
        Seq::empty()
    } else {
        item_lines(items.drop_last()) + "- "@ + items.last() + "\n"@
    }
}

/// A section with a heading, present when it has entries.
pub open spec fn section(present: bool, heading: Seq<char>, body: Seq<char>) -> Seq<char> {
    if present {
        heading + body
    } else {
        Seq::empty()
    }
}

/// The text of the report printed by `commandguard analyze`.
pub open spec fn report_text(a: AnalysisView) -> Seq<char> {
    "CommandGuard analysis\n"@ + "=====================\n"@ + "Severity: "@ + severity_name(a.severity) + "\n"@
        + "Confidence: "@ + confidence_name(a.confidence) + "\n\n"@ + a.explanation + closing_newline(
        a.explanation,
    ) + section(a.effects.len() > 0, "\nEffects:\n"@, effect_lines(a.effects, "\n"@)) + section(
        a.evidence.len() > 0,
        "\nEvidence:\n"@,
        evidence_lines(a.evidence),
    ) + section(a.decoded_variants.len() > 0, "\nDecoded variants:\n"@, variant_lines(a.decoded_variants))
        + section(
        a.unsupported_constructs.len() > 0,
        "\nUnsupported constructs:\n"@,
        item_lines(a.unsupported_constructs),
    )
}

/// Whether a text ends with a newline (and is not empty).
pub open spec fn ends_nl(s: Seq<char>) -> bool {
    s.len() > 0 && s.last() == '\n'
}

proof fn lemma_ends_nl_concat(a: Seq<char>, b: Seq<char>)
    requires
        ends_nl(a),
        b.len() == 0 || ends_nl(b),
    ensures
        ends_nl(a + b),
{
    if b.len() == 0 {
        assert(a + b =~= a);
    } else {
        assert((a + b).last() == b.last());
    }
}

proof fn lemma_ends_nl_suffix(a: Seq<char>, b: Seq<char>)
    requires
        ends_nl(b),
    ensures
        ends_nl(a + b),
{
    assert((a + b).last() == b.last());
}

/// A present section ends with a newline when its body does.
proof fn lemma_section_ends_nl(present: bool, heading: Seq<char>, body: Seq<char>)
    requires
        present ==> ends_nl(body),
    ensures
        section(present, heading, body).len() == 0 || ends_nl(section(present, heading, body)),
{
    if present {
        lemma_ends_nl_suffix(heading, body);
    }
}

/// Whether `needle` occurs in `b`, it occurs in `a + b + c`.
proof fn lemma_contains_inside(a: Seq<char>, b: Seq<char>, c: Seq<char>, needle: Seq<char>)
    requires
        contains_text(b, needle),
    ensures
        contains_text(a + b + c, needle),
{
    let k = choose|k: int| occurs_at(b, needle, k);
    assert((a + b + c).subrange(a.len() + k, a.len() + k + needle.len()) =~= b.subrange(k, k + needle.len()));
    assert(occurs_at(a + b + c, needle, a.len() + k));
}

/// The line of each effect is among the effect lines.
proof fn lemma_effect_line_listed(effects: Seq<EffectKind>, eol: Seq<char>, i: int)
    requires
        0 <= i < effects.len(),
    ensures
        contains_text(effect_lines(effects, eol), "- "@ + effect_label(effects[i]) + eol),
    decreases effects.len(),
{
    let init = effects.drop_last();
    let line = "- "@ + effect_label(effects[i]) + eol;
    let before = effect_lines(init, eol);
    assert(effect_lines(effects, eol) =~= before + line.take(0) + ("- "@ + effect_label(effects.last()) + eol));
    if i == effects.len() - 1 {
        assert(line.take(0) =~= Seq::<char>::empty());
        let whole = effect_lines(effects, eol);
        assert(whole.subrange(before.len() as int, (before.len() + line.len()) as int) =~= line);
        assert(occurs_at(whole, line, before.len() as int));
    } else {
        lemma_effect_line_listed(init, eol, i);
        assert(init[i] == effects[i]);
        lemma_contains_inside(Seq::empty(), before, "- "@ + effect_label(effects.last()) + eol, line);
        assert(Seq::<char>::empty() + before + ("- "@ + effect_label(effects.last()) + eol) =~= effect_lines(
            effects,
            eol,
        ));
    }
}

proof fn lemma_effect_lines_nl(effects: Seq<EffectKind>)
    requires
        effects.len() > 0,
    ensures
        ends_nl(effect_lines(effects, "\n"@)),
{
    reveal_strlit("\n");
    lemma_ends_nl_suffix(effect_lines(effects.drop_last(), "\n"@) + "- "@ + effect_label(effects.last()), "\n"@);
}

proof fn lemma_evidence_lines_nl(evs: Seq<EvidenceView>)
    requires
        evs.len() > 0,
    ensures
        ends_nl(evidence_lines(evs)),
{
    reveal_strlit("\n");
    let e = evs.last();
    let head = "- "@ + "SOURCE: "@ + or_none(e.source) + "; TRANSFORM: "@ + or_none(e.transform) + "; SINK: "@
        + or_none(e.sink) + "; EFFECT: "@ + effect_name(e.effect) + "; CONFIDENCE: "@ + confidence_name(
        e.confidence,
    ) + "\n"@ + "  "@ + e.reason;
    lemma_ends_nl_suffix(head, "\n"@);
    lemma_ends_nl_suffix(evidence_lines(evs.drop_last()), evidence_entry(e));
}

proof fn lemma_variant_lines_nl(ds: Seq<DecodedVariantView>)
    requires
        ds.len() > 0,
    ensures
        ends_nl(variant_lines(ds)),
{
    reveal_strlit("```\n");
    reveal_strlit("  output truncated for display\n");
    let d = ds.last();
    let head = "- "@ + d.transform + "\n"@ + "```\n"@ + d.text + closing_newline(d.text);
    let tail = if d.truncated {
        "  output truncated for display\n"@
    } else {
        Seq::empty()
    };
    lemma_ends_nl_suffix(head, "```\n"@);
    lemma_ends_nl_concat(head + "```\n"@, tail);
    lemma_ends_nl_suffix(variant_lines(ds.drop_last()), variant_entry(d));
}

proof fn lemma_item_lines_nl(items: Seq<Seq<char>>)
    requires
        items.len() > 0,
    ensures
        ends_nl(item_lines(items)),
{
    reveal_strlit("\n");
    lemma_ends_nl_suffix(item_lines(items.drop_last()) + "- "@ + items.last(), "\n"@);
}

/// The report's text before its sections.
pub open spec fn report_head(a: AnalysisView) -> Seq<char> {
    "CommandGuard analysis\n"@ + "=====================\n"@ + "Severity: "@ + severity_name(a.severity) + "\n"@
        + "Confidence: "@ + confidence_name(a.confidence) + "\n\n"@ + a.explanation + closing_newline(
        a.explanation,
    )
}

/// The report's effects section.
pub open spec fn effects_section(a: AnalysisView) -> Seq<char> {
    section(a.effects.len() > 0, "\nEffects:\n"@, effect_lines(a.effects, "\n"@))
}

/// The report's sections after the effects.
pub open spec fn later_sections(a: AnalysisView) -> Seq<char> {
    section(a.evidence.len() > 0, "\nEvidence:\n"@, evidence_lines(a.evidence)) + section(
        a.decoded_variants.len() > 0,
        "\nDecoded variants:\n"@,
        variant_lines(a.decoded_variants),
    ) + section(
        a.unsupported_constructs.len() > 0,
        "\nUnsupported constructs:\n"@,
        item_lines(a.unsupported_constructs),
    )
}

proof fn lemma_report_parts(a: AnalysisView)
    ensures
        report_text(a) == report_head(a) + effects_section(a) + later_sections(a),
{
    assert(report_text(a) =~= report_head(a) + effects_section(a) + later_sections(a));
}

proof fn lemma_later_sections_nl(a: AnalysisView)
    ensures
        later_sections(a).len() == 0 || ends_nl(later_sections(a)),
{
    let s2 = section(a.evidence.len() > 0, "\nEvidence:\n"@, evidence_lines(a.evidence));
    let s3 = section(a.decoded_variants.len() > 0, "\nDecoded variants:\n"@, variant_lines(a.decoded_variants));
    let s4 = section(
        a.unsupported_constructs.len() > 0,
        "\nUnsupported constructs:\n"@,
        item_lines(a.unsupported_constructs),
    );
    if a.evidence.len() > 0 {
        lemma_evidence_lines_nl(a.evidence);
    }
    if a.decoded_variants.len() > 0 {
        lemma_variant_lines_nl(a.decoded_variants);
    }
    if a.unsupported_constructs.len() > 0 {
        lemma_item_lines_nl(a.unsupported_constructs);
    }
    lemma_section_ends_nl(a.evidence.len() > 0, "\nEvidence:\n"@, evidence_lines(a.evidence));
    lemma_section_ends_nl(a.decoded_variants.len() > 0, "\nDecoded variants:\n"@, variant_lines(a.decoded_variants));
    lemma_section_ends_nl(
        a.unsupported_constructs.len() > 0,
        "\nUnsupported constructs:\n"@,
        item_lines(a.unsupported_constructs),
    );
    if s2.len() == 0 {
        assert(s2 + s3 =~= s3);
    } else {
        lemma_ends_nl_concat(s2, s3);
    }
    if s2.len() + s3.len() == 0 {
        assert(s2 + s3 + s4 =~= s4);
    } else {
        lemma_ends_nl_concat(s2 + s3, s4);
    }
}

/// The `analyze` report ends with a newline.
pub proof fn report_ends_with_newline(a: AnalysisView)
    ensures
        ends_nl(report_text(a)),
{
    reveal_strlit("\n");
    let head = "CommandGuard analysis\n"@ + "=====================\n"@ + "Severity: "@ + severity_name(a.severity)
        + "\n"@ + "Confidence: "@ + confidence_name(a.confidence) + "\n\n"@ + a.explanation;
    assert(ends_nl(report_head(a))) by {
        if ends_in_newline(a.explanation) {
            assert(head + closing_newline(a.explanation) =~= head);
            assert(head.last() == a.explanation.last());
        } else {
            lemma_ends_nl_suffix(head, "\n"@);
        }
    }
    if a.effects.len() > 0 {
        lemma_effect_lines_nl(a.effects);
    }
    lemma_section_ends_nl(a.effects.len() > 0, "\nEffects:\n"@, effect_lines(a.effects, "\n"@));
    lemma_ends_nl_concat(report_head(a), effects_section(a));
    lemma_later_sections_nl(a);
    lemma_ends_nl_concat(report_head(a) + effects_section(a), later_sections(a));
    lemma_report_parts(a);
}

/// Each effect of an analysis has its `- label` line in the `analyze` report.
pub proof fn report_lists_every_effect(a: AnalysisView, i: int)
    requires
        0 <= i < a.effects.len(),
    ensures
        contains_text(report_text(a), "- "@ + effect_label(a.effects[i]) + "\n"@),
{
    lemma_report_parts(a);
    lemma_effect_line_listed(a.effects, "\n"@, i);
    lemma_contains_inside(
        report_head(a) + "\nEffects:\n"@,
        effect_lines(a.effects, "\n"@),
        later_sections(a),
        "- "@ + effect_label(a.effects[i]) + "\n"@,
    );
    assert(report_head(a) + "\nEffects:\n"@ + effect_lines(a.effects, "\n"@) + later_sections(a) =~= report_text(a));
}

/// Appends a string slice.
fn put(out: &mut String, s: &str)
    ensures
        final(out)@ == old(out)@ + s@,
{
    out.append(s);
}

/// Whether a string ends with a newline.
fn ends_with_newline(s: &String) -> (r: bool)
    ensures
        r == ends_in_newline(s@),
{
    let c = chars_of(s.as_str());
    c.len() > 0 && c[c.len() - 1] == '\n'
}

/// Appends a newline unless the text ends with one.
fn put_closing_newline(out: &mut String, s: &String)
    ensures
        final(out)@ == old(out)@ + closing_newline(s@),
{
    if !ends_with_newline(s) {
        put(out, "\n");
    } else {
        assert(old(out)@ + closing_newline(s@) =~= old(out)@);
    }
}

/// Appends an optional string, or `none`.
fn put_or_none(out: &mut String, o: &Option<String>)
    ensures
        final(out)@ == old(out)@ + or_none(o.deep_view()),
{
    match o {
        Some(s) => put(out, s.as_str()),
        None => put(out, "none"),
    }
}

/// Appends the report lines of one piece of evidence.
#[verifier::rlimit(40)]
fn put_evidence_entry(out: &mut String, item: &Evidence)
    ensures
        final(out)@ == old(out)@ + evidence_entry(item@),
{
    put(out, "- ");
    put(out, "SOURCE: ");
    put_or_none(out, &item.source);
    put(out, "; TRANSFORM: ");
    put_or_none(out, &item.transform);
    put(out, "; SINK: ");
    put_or_none(out, &item.sink);
    put(out, "; EFFECT: ");
    put(out, effect_text(item.effect));
    put(out, "; CONFIDENCE: ");
    put(out, confidence_text(item.confidence));
    put(out, "\n");
    put(out, "  ");
    put(out, item.reason.as_str());
    put(out, "\n");
    assert(final(out)@ =~= old(out)@ + evidence_entry(item@));
}

/// Appends the report lines of one decoded variant.
fn put_variant_entry(out: &mut String, d: &DecodedVariant)
    ensures
        final(out)@ == old(out)@ + variant_entry(d@),
{
    put(out, "- ");
    put(out, d.transform.as_str());
    put(out, "\n");
    put(out, "```\n");
    put(out, d.text.as_str());
    put_closing_newline(out, &d.text);
    put(out, "```\n");
    if d.truncated {
        put(out, "  output truncated for display\n");
    }
    assert(final(out)@ =~= old(out)@ + variant_entry(d@));
}

/// Appends `- label` lines for effects, with the given line ending.
fn put_effect_lines(out: &mut String, effects: &Vec<EffectKind>, eol: &str)
    ensures
        final(out)@ == old(out)@ + effect_lines(effects@, eol@),
{
    let mut i: usize = 0;
    while i < effects.len()
        invariant
            i <= effects@.len(),
            out@ == old(out)@ + effect_lines(effects@.take(i as int), eol@),
        decreases effects@.len() - i,
    {
        assert(effects@.take(i + 1).drop_last() =~= effects@.take(i as int));
        put(out, "- ");
        put(out, effects[i].label());
        put(out, eol);
        i = i + 1;
    }
    assert(effects@.take(i as int) =~= effects@);
}

/// Appends the report lines of the evidence.
fn put_evidence_lines(out: &mut String, evidence: &Vec<Evidence>)
    ensures
        final(out)@ == old(out)@ + evidence_lines(evidence@.map_values(|e: Evidence| e@)),
{
    let ghost evs = evidence@.map_values(|e: Evidence| e@);
    let mut i: usize = 0;
    while i < evidence.len()
        invariant
            i <= evidence@.len(),
            evs == evidence@.map_values(|e: Evidence| e@),
            out@ == old(out)@ + evidence_lines(evs.take(i as int)),
        decreases evidence@.len() - i,
    {
        assert(evs.take(i + 1).drop_last() =~= evs.take(i as int));
        assert(evs[i as int] == evidence@[i as int]@);
        put_evidence_entry(out, &evidence[i]);
        i = i + 1;
    }
    assert(evs.take(i as int) =~= evs);
}

/// Appends the report lines of the decoded variants.
fn put_variant_lines(out: &mut String, ds: &Vec<DecodedVariant>)
    ensures
        final(out)@ == old(out)@ + variant_lines(ds@.map_values(|d: DecodedVariant| d@)),
{
    let ghost vs = ds@.map_values(|d: DecodedVariant| d@);
    let mut i: usize = 0;
    while i < ds.len()
        invariant
            i <= ds@.len(),
            vs == ds@.map_values(|d: DecodedVariant| d@),
            out@ == old(out)@ + variant_lines(vs.take(i as int)),
        decreases ds@.len() - i,
    {
        assert(vs.take(i + 1).drop_last() =~= vs.take(i as int));
        assert(vs[i as int] == ds@[i as int]@);
        put_variant_entry(out, &ds[i]);
        i = i + 1;
    }
    assert(vs.take(i as int) =~= vs);
}

/// Appends `- item` lines for texts.
fn put_item_lines(out: &mut String, items: &Vec<String>)
    ensures
        final(out)@ == old(out)@ + item_lines(items.deep_view()),
{
    let ghost us = items.deep_view();
    let mut i: usize = 0;
    while i < items.len()
        invariant
            i <= items@.len(),
            us == items.deep_view(),
            out@ == old(out)@ + item_lines(us.take(i as int)),
        decreases items@.len() - i,
    {
        assert(us.take(i + 1).drop_last() =~= us.take(i as int));
        put(out, "- ");
        put(out, items[i].as_str());
        put(out, "\n");
        i = i + 1;
    }
    assert(us.take(i as int) =~= us);
}

/// The report printed by `commandguard analyze`.
pub fn human_report(analysis: &Analysis) -> (r: String)
    ensures
        r@ == report_text(analysis@),
{
    let a = analysis;
    let mut out = String::new();
    put(&mut out, "CommandGuard analysis\n");
    put(&mut out, "=====================\n");
    put(&mut out, "Severity: ");
    put(&mut out, severity_text(a.severity));
    put(&mut out, "\n");
    put(&mut out, "Confidence: ");
    put(&mut out, confidence_text(a.confidence));
    put(&mut out, "\n\n");
    put(&mut out, a.explanation.as_str());
    put_closing_newline(&mut out, &a.explanation);
    let ghost s0 = out@;
    if a.effects.len() > 0 {
        put(&mut out, "\nEffects:\n");
        put_effect_lines(&mut out, &a.effects, "\n");
    }
    let ghost s1 = out@;
    assert(s1 =~= s0 + section(a@.effects.len() > 0, "\nEffects:\n"@, effect_lines(a@.effects, "\n"@)));
    if a.evidence.len() > 0 {
        put(&mut out, "\nEvidence:\n");
        put_evidence_lines(&mut out, &a.evidence);
    }
    let ghost s2 = out@;
    assert(s2 =~= s1 + section(a@.evidence.len() > 0, "\nEvidence:\n"@, evidence_lines(a@.evidence)));
    if a.decoded_variants.len() > 0 {
        put(&mut out, "\nDecoded variants:\n");
        put_variant_lines(&mut out, &a.decoded_variants);
    }
    let ghost s3 = out@;
    assert(s3 =~= s2 + section(
        a@.decoded_variants.len() > 0,
        "\nDecoded variants:\n"@,
        variant_lines(a@.decoded_variants),
    ));
    if a.unsupported_constructs.len() > 0 {
        put(&mut out, "\nUnsupported constructs:\n");
        put_item_lines(&mut out, &a.unsupported_constructs);
    }
    assert(out@ =~= s3 + section(
        a@.unsupported_constructs.len() > 0,
        "\nUnsupported constructs:\n"@,
        item_lines(a@.unsupported_constructs),
    ));
    out
}

/// A line without one trailing carriage return.
pub open spec fn strip_cr(line: Seq<char>) -> Seq<char> {
    if line.len() > 0 && line.last() == '\r' {
        line.drop_last()
    } else {
        line
    }
}

/// The lines of `s` from index `i` on (like `str::lines`): split at `\n`, a
/// `\r` before the `\n` is dropped, and an empty last line is not a line.
pub open spec fn lines_from(s: Seq<char>, i: int, cur: Seq<char>, out: Seq<Seq<char>>) -> Seq<Seq<char>>
    decreases s.len() - i,
{
    if i < 0 || i >= s.len() {
        if cur.len() > 0 {
            out.push(cur)
        } else {
            out
        }
    } else if s[i] == '\n' {
        lines_from(s, i + 1, Seq::empty(), out.push(strip_cr(cur)))
    } else {
        lines_from(s, i + 1, cur.push(s[i]), out)
    }
}

/// The lines of a text.
pub open spec fn lines_of(s: Seq<char>) -> Seq<Seq<char>> {
    lines_from(s, 0, Seq::empty(), Seq::empty())
}

/// The lines of a text.
pub fn text_lines(s: &str) -> (r: Vec<Vec<char>>)
    ensures
        r.deep_view() == lines_of(s@),
{
    let c = chars_of(s);
    let mut out: Vec<Vec<char>> = Vec::new();
    let mut cur: Vec<char> = Vec::new();
    let mut i: usize = 0;
    assert(out.deep_view() =~= Seq::<Seq<char>>::empty());
    while i < c.len()
        invariant
            i <= c@.len(),
            c@ == s@,
            lines_of(s@) == lines_from(c@, i as int, cur@, out.deep_view()),
        decreases c@.len() - i,
    {
        if c[i] == '\n' {
            if cur.len() > 0 && cur[cur.len() - 1] == '\r' {
                cur.pop();
            }
            let mut line: Vec<char> = Vec::new();
            std::mem::swap(&mut line, &mut cur);
            let ghost before = out.deep_view();
            let ghost lv = line@;
            out.push(line);
            assert(out.deep_view() =~= before.push(lv));
        } else {
            cur.push(c[i]);
        }
        i = i + 1;
    }
    if cur.len() > 0 {
        let ghost before = out.deep_view();
        let ghost cv = cur@;
        out.push(cur);
        assert(out.deep_view() =~= before.push(cv));
    }
    out
}

/// Each line followed by `\r\n`.
pub open spec fn crlf_lines(lines: Seq<Seq<char>>) -> Seq<char>
    decreases lines.len(),
{
    if lines.len() == 0 {
        Seq::empty()
    } else {
        crlf_lines(lines.drop_last()) + lines.last() + "\r\n"@
    }
}

/// The decoded-text block of one variant in a warning.
pub open spec fn warning_variant(d: DecodedVariantView) -> Seq<char> {
    "--- "@ + d.transform + " ---\r\n"@ + crlf_lines(lines_of(d.text))
}

/// The decoded-text blocks of the variants in a warning.
pub open spec fn warning_variants(ds: Seq<DecodedVariantView>) -> Seq<char>
    decreases ds.len(),
{
    if ds.len() == 0 {
        Seq::empty()
    } else {
        warning_variants(ds.drop_last()) + warning_variant(ds.last())
    }
}

/// The text of the warning shown when a paste is held.
pub open spec fn warning_text(a: AnalysisView, contains_newline: bool, show_decoded: bool) -> Seq<char> {
    "\r\nCommandGuard blocked a suspicious paste\r\n"@ + "Severity: "@ + severity_name(a.severity)
        + "    Confidence: "@ + confidence_name(a.confidence) + "\r\n\r\n"@ + (if a.severity
        == Severity::Safe && contains_newline {
        "This paste contains a newline and may execute immediately.\r\n"@
    } else {
        crlf_lines(lines_of(a.explanation))
    }) + section(a.effects.len() > 0, "\r\nObserved effects:\r\n"@, effect_lines(a.effects, "\r\n"@))
        + section(
        a.confidence == Confidence::Unknown,
        "\r\nSome shell constructs were outside the v0.1 analyzer.\r\n"@,
        Seq::empty(),
    ) + section(
        show_decoded && a.decoded_variants.len() > 0,
        "\r\nDecoded command text:\r\n"@,
        warning_variants(a.decoded_variants),
    ) + choice_line()
}

/// The line that offers the three answers to a held paste.
pub open spec fn choice_line() -> Seq<char> {
    "\r\n[c] Cancel    [s] Show decoded command    [e] Execute anyway\r\n"@
}

/// Every paste warning ends by offering to cancel, show the decoded command,
/// or execute anyway.
pub proof fn warning_offers_three_choices(a: AnalysisView, contains_newline: bool, show_decoded: bool)
    ensures
        crate::text::ends_with(warning_text(a, contains_newline, show_decoded), choice_line()),
{
    let w = warning_text(a, contains_newline, show_decoded);
    let c = choice_line();
    assert(w.subrange(w.len() - c.len(), w.len() as int) =~= c);
}

/// Appends each line followed by `\r\n`.
fn put_crlf_lines(out: &mut String, text: &str)
    ensures
        final(out)@ == old(out)@ + crlf_lines(lines_of(text@)),
{
    let lines = text_lines(text);
    let ghost ls = lines.deep_view();
    let mut i: usize = 0;
    while i < lines.len()
        invariant
            i <= lines@.len(),
            ls == lines.deep_view(),
            ls == lines_of(text@),
            out@ == old(out)@ + crlf_lines(ls.take(i as int)),
        decreases lines@.len() - i,
    {
        assert(ls.take(i + 1).drop_last() =~= ls.take(i as int));
        let line = crate::text::string_of(&lines[i]);
        put(out, line.as_str());
        put(out, "\r\n");
        i = i + 1;
    }
    assert(ls.take(i as int) =~= ls);
}

/// Appends the decoded-text blocks of the variants of a warning.
fn put_warning_variants(out: &mut String, ds: &Vec<DecodedVariant>)
    ensures
        final(out)@ == old(out)@ + warning_variants(ds@.map_values(|d: DecodedVariant| d@)),
{
    let ghost vs = ds@.map_values(|d: DecodedVariant| d@);
    let mut i: usize = 0;
    while i < ds.len()
        invariant
            i <= ds@.len(),
            vs == ds@.map_values(|d: DecodedVariant| d@),
            out@ == old(out)@ + warning_variants(vs.take(i as int)),
        decreases ds@.len() - i,
    {
        assert(vs.take(i + 1).drop_last() =~= vs.take(i as int));
        assert(vs[i as int] == ds@[i as int]@);
        let ghost before = out@;
        put(out, "--- ");
        put(out, ds[i].transform.as_str());
        put(out, " ---\r\n");
        put_crlf_lines(out, ds[i].text.as_str());
        assert(out@ =~= before + warning_variant(vs[i as int]));
        i = i + 1;
    }
    assert(vs.take(i as int) =~= vs);
}

/// The warning shown when a paste is held.
pub fn paste_warning(analysis: &Analysis, contains_newline: bool, show_decoded: bool) -> (r: String)
    ensures
        r@ == warning_text(analysis@, contains_newline, show_decoded),
{
    let a = analysis;
    let mut out = String::new();
    put(&mut out, "\r\nCommandGuard blocked a suspicious paste\r\n");
    put(&mut out, "Severity: ");
    put(&mut out, severity_text(a.severity));
    put(&mut out, "    Confidence: ");
    put(&mut out, confidence_text(a.confidence));
    put(&mut out, "\r\n\r\n");
    if a.severity == Severity::Safe && contains_newline {
        put(&mut out, "This paste contains a newline and may execute immediately.\r\n");
    } else {
        put_crlf_lines(&mut out, a.explanation.as_str());
    }
    let ghost s0 = out@;
    if a.effects.len() > 0 {
        put(&mut out, "\r\nObserved effects:\r\n");
        put_effect_lines(&mut out, &a.effects, "\r\n");
    }
    let ghost s1 = out@;
    assert(s1 =~= s0 + section(a@.effects.len() > 0, "\r\nObserved effects:\r\n"@, effect_lines(a@.effects, "\r\n"@)));
    if a.confidence == Confidence::Unknown {
        put(&mut out, "\r\nSome shell constructs were outside the v0.1 analyzer.\r\n");
    }
    let ghost s2 = out@;
    if show_decoded && a.decoded_variants.len() > 0 {
        put(&mut out, "\r\nDecoded command text:\r\n");
        put_warning_variants(&mut out, &a.decoded_variants);
    }
    let ghost s3 = out@;
    assert(s3 =~= s2 + section(
        show_decoded && a@.decoded_variants.len() > 0,
        "\r\nDecoded command text:\r\n"@,
        warning_variants(a@.decoded_variants),
    ));
    put(&mut out, "\r\n[c] Cancel    [s] Show decoded command    [e] Execute anyway\r\n");
    out
}

/// `h + m` is a prefix of `h + m + rest`.
proof fn lemma_prefix_of_concat(hm: Seq<char>, rest: Seq<char>)
    ensures
        crate::text::starts_with(hm + rest, hm),
{
    assert((hm + rest).subrange(0, hm.len() as int) =~= hm);
}

/// A warning starts with the header, then, for a paste that is not Safe, the
/// lines of the analysis' explanation, whether or not the paste has a
/// newline; only a Safe paste with a newline gets the newline notice there,
/// and a Safe paste without one gets its explanation.
pub proof fn warning_explains_risky_paste(a: AnalysisView, contains_newline: bool, show_decoded: bool)
    ensures
        a.severity != Severity::Safe ==> crate::text::starts_with(
            warning_text(a, contains_newline, show_decoded),
            "\r\nCommandGuard blocked a suspicious paste\r\n"@ + "Severity: "@ + severity_name(a.severity)
                + "    Confidence: "@ + confidence_name(a.confidence) + "\r\n\r\n"@ + crlf_lines(
                lines_of(a.explanation),
            ),
        ),
        a.severity == Severity::Safe && !contains_newline ==> crate::text::starts_with(
            warning_text(a, contains_newline, show_decoded),
            "\r\nCommandGuard blocked a suspicious paste\r\n"@ + "Severity: "@ + severity_name(a.severity)
                + "    Confidence: "@ + confidence_name(a.confidence) + "\r\n\r\n"@ + crlf_lines(
                lines_of(a.explanation),
            ),
        ),
        a.severity == Severity::Safe && contains_newline ==> crate::text::starts_with(
            warning_text(a, contains_newline, show_decoded),
            "\r\nCommandGuard blocked a suspicious paste\r\n"@ + "Severity: "@ + severity_name(a.severity)
                + "    Confidence: "@ + confidence_name(a.confidence) + "\r\n\r\n"@
                + "This paste contains a newline and may execute immediately.\r\n"@,
        ),
{
    let head = "\r\nCommandGuard blocked a suspicious paste\r\n"@ + "Severity: "@ + severity_name(a.severity)
        + "    Confidence: "@ + confidence_name(a.confidence) + "\r\n\r\n"@;
    let mid = if a.severity == Severity::Safe && contains_newline {
        "This paste contains a newline and may execute immediately.\r\n"@
    } else {
        crlf_lines(lines_of(a.explanation))
    };
    let rest = section(a.effects.len() > 0, "\r\nObserved effects:\r\n"@, effect_lines(a.effects, "\r\n"@))
        + section(
        a.confidence == Confidence::Unknown,
        "\r\nSome shell constructs were outside the v0.1 analyzer.\r\n"@,
        Seq::empty(),
    ) + section(
        show_decoded && a.decoded_variants.len() > 0,
        "\r\nDecoded command text:\r\n"@,
        warning_variants(a.decoded_variants),
    ) + choice_line();
    assert(warning_text(a, contains_newline, show_decoded) =~= head + mid + rest);
    lemma_prefix_of_concat(head + mid, rest);
}

} // verus!
