//! Accumulation of findings into an `Analysis`.
use vstd::prelude::*;
use crate::model::{
    safe_analysis, severity_max, Analysis, AnalysisView, Confidence, DecodedVariant, DecodedVariantView,
    EffectKind, Evidence, EvidenceView, Severity, max_severity,
};

verus! {

/// The findings gathered so far while analyzing a paste.
pub struct AnalysisBuilder {
    pub severity: Severity,
    pub effects: Vec<EffectKind>,
    pub evidence: Vec<Evidence>,
    pub decoded_variants: Vec<DecodedVariant>,
    pub unsupported_constructs: Vec<String>,
}

/// The mathematical value of an `AnalysisBuilder`.
pub struct BuilderView {
    pub severity: Severity,
    pub effects: Seq<EffectKind>,
    pub evidence: Seq<EvidenceView>,
    pub decoded: Seq<DecodedVariantView>,
    pub unsupported: Seq<Seq<char>>,
}

impl View for AnalysisBuilder {
    type V = BuilderView;

    open spec fn view(&self) -> BuilderView {
        BuilderView {
            severity: self.severity,
            effects: self.effects@,
            evidence: self.evidence@.map_values(|e: Evidence| e@),
            decoded: self.decoded_variants@.map_values(|d: DecodedVariant| d@),
            unsupported: self.unsupported_constructs.deep_view(),
        }
    }
}

/// A builder with no findings.
pub open spec fn empty_builder() -> BuilderView {
    BuilderView {
        severity: Severity::Safe,
        effects: Seq::empty(),
        evidence: Seq::empty(),
        decoded: Seq::empty(),
        unsupported: Seq::empty(),
    }
}

/// `xs` with `x` appended unless it is already there.
pub open spec fn with_new<T>(xs: Seq<T>, x: T) -> Seq<T> {
    if xs.contains(x) {
        xs
    } else {
        xs.push(x)
    }
}

/// `xs` extended, in order, by the members of `more` that are new.
pub open spec fn with_all_new<T>(xs: Seq<T>, more: Seq<T>) -> Seq<T>
    decreases more.len(),
{
    if more.len() == 0 {
        xs
    } else {
        with_new(with_all_new(xs, more.drop_last()), more.last())
    }
}

/// Whether a decoded text with the same transform and text is already recorded.
pub open spec fn has_variant(ds: Seq<DecodedVariantView>, v: DecodedVariantView) -> bool {
    exists|i: int| 0 <= i < ds.len() && #[trigger] ds[i].transform == v.transform && ds[i].text == v.text
}

/// `ds` with `v` appended unless a variant with its transform and text is there.
pub open spec fn with_variant(ds: Seq<DecodedVariantView>, v: DecodedVariantView) -> Seq<DecodedVariantView> {
    if has_variant(ds, v) {
        ds
    } else {
        ds.push(v)
    }
}

/// `ds` extended, in order, by the variants of `more` that are new.
pub open spec fn with_all_variants(ds: Seq<DecodedVariantView>, more: Seq<DecodedVariantView>) -> Seq<
    DecodedVariantView,
>
    decreases more.len(),
{
    if more.len() == 0 {
        ds
    } else {
        with_variant(with_all_variants(ds, more.drop_last()), more.last())
    }
}

/// Records one piece of evidence at a severity.
pub open spec fn add_finding(b: BuilderView, severity: Severity, ev: EvidenceView) -> BuilderView {
    BuilderView {
        severity: severity_max(b.severity, severity),
        effects: with_new(b.effects, ev.effect),
        evidence: with_new(b.evidence, ev),
        decoded: b.decoded,
        unsupported: b.unsupported,
    }
}

/// Records a decoded text.
pub open spec fn add_variant(b: BuilderView, v: DecodedVariantView) -> BuilderView {
    BuilderView { decoded: with_variant(b.decoded, v), ..b }
}

/// Records a construct the analyzer does not understand.
pub open spec fn add_unknown(b: BuilderView, c: Seq<char>) -> BuilderView {
    BuilderView { unsupported: with_new(b.unsupported, c), ..b }
}

/// Folds a nested analysis into the builder.
pub open spec fn merge_analysis(b: BuilderView, a: AnalysisView) -> BuilderView {
    BuilderView {
        severity: severity_max(b.severity, a.severity),
        effects: with_all_new(b.effects, a.effects),
        evidence: with_all_new(b.evidence, a.evidence),
        decoded: with_all_variants(b.decoded, a.decoded_variants),
        unsupported: with_all_new(b.unsupported, a.unsupported_constructs),
    }
}

/// Whether some evidence has high confidence.
pub open spec fn has_high_confidence(evs: Seq<EvidenceView>) -> bool {
    exists|i: int| 0 <= i < evs.len() && (#[trigger] evs[i]).confidence == Confidence::High
}

/// The explanation given for a severity and set of effects.
pub open spec fn explanation_text(severity: Severity, effects: Seq<EffectKind>) -> Seq<char> {
    if severity == Severity::High && effects.contains(EffectKind::RemoteDownload) && effects.contains(
        EffectKind::DynamicExecution,
    ) {
        "High confidence: remote content is executed without being saved or reviewed."@
    } else if severity == Severity::High && effects.contains(EffectKind::ConcealedPayload)
        && effects.contains(EffectKind::DynamicExecution) {
        "High confidence: concealed command text is decoded and executed."@
    } else if severity == Severity::High && effects.contains(EffectKind::DestructiveFilesystem) {
        "High confidence: the pasted command can remove or overwrite filesystem data."@
    } else if effects.contains(EffectKind::CredentialRead) && effects.contains(
        EffectKind::ExternalTransmission,
    ) {
        "High confidence: local credential material may be sent to another host."@
    } else if effects.contains(EffectKind::PersistenceWrite) {
        "Medium confidence: the command writes to a location that can run code later."@
    } else {
        "Suspicious pasted-command effects were identified."@
    }
}

/// The explanation given when only unsupported syntax was found.
pub open spec fn unknown_explanation() -> Seq<char> {
    "No suspicious effect was identified, but some syntax was outside the v0.1 analyzer."@
}

/// The analysis that a builder's findings amount to.
pub open spec fn finished(b: BuilderView) -> AnalysisView {
    if b.effects.len() == 0 {
        if b.unsupported.len() == 0 {
            safe_analysis()
        } else {
            AnalysisView {
                severity: Severity::Safe,
                confidence: Confidence::Unknown,
                effects: Seq::empty(),
                evidence: Seq::empty(),
                decoded_variants: b.decoded,
                unsupported_constructs: b.unsupported,
                explanation: unknown_explanation(),
            }
        }
    } else {
        AnalysisView {
            severity: b.severity,
            confidence: if has_high_confidence(b.evidence) {
                Confidence::High
            } else if b.unsupported.len() > 0 {
                Confidence::Unknown
            } else {
                Confidence::Medium
            },
            effects: b.effects,
            evidence: b.evidence,
            decoded_variants: b.decoded,
            unsupported_constructs: b.unsupported,
            explanation: explanation_text(b.severity, b.effects),
        }
    }
}

/// Whether no two decoded variants share their transform and text.
pub open spec fn variants_distinct(ds: Seq<DecodedVariantView>) -> bool {
    forall|i: int, j: int|
        0 <= i < j < ds.len() ==> !(#[trigger] ds[i].transform == #[trigger] ds[j].transform && ds[i].text
            == ds[j].text)
}

/// Whether the effects are exactly the effects of the evidence: each piece of
/// evidence has its effect listed, and each listed effect has evidence.
pub open spec fn evidence_backed(effects: Seq<EffectKind>, evs: Seq<EvidenceView>) -> bool {
    &&& forall|i: int| 0 <= i < evs.len() ==> effects.contains(#[trigger] evs[i].effect)
    &&& forall|i: int|
        0 <= i < effects.len() ==> exists|j: int| 0 <= j < evs.len() && #[trigger] evs[j].effect == #[trigger] effects[i]
}

/// What every builder keeps: no finding is recorded twice, the effects are the
/// effects of the evidence, and the severity is `Safe` exactly when there is no effect.
pub open spec fn builder_wf(b: BuilderView) -> bool {
    &&& b.effects.no_duplicates()
    &&& b.evidence.no_duplicates()
    &&& b.unsupported.no_duplicates()
    &&& variants_distinct(b.decoded)
    &&& evidence_backed(b.effects, b.evidence)
    &&& (b.effects.len() == 0 <==> b.severity == Severity::Safe)
}

/// The confidence of an analysis with effects: High when some evidence is
/// High, otherwise Unknown when some syntax was not understood, else Medium.
pub open spec fn confidence_for(evs: Seq<EvidenceView>, unsupported: Seq<Seq<char>>) -> Confidence {
    if has_high_confidence(evs) {
        Confidence::High
    } else if unsupported.len() > 0 {
        Confidence::Unknown
    } else {
        Confidence::Medium
    }
}

/// What every analysis satisfies: its findings are recorded once each, its
/// effects are those of its evidence, its severity is `Safe` exactly when it
/// has no effect, and its confidence and explanation follow from its
/// findings: with no effect it is the safe
/// analysis, or `Safe` with `Unknown` confidence when some syntax was not
/// understood; with effects the confidence is `confidence_for` and the
/// explanation `explanation_text`.
pub open spec fn analysis_wf(a: AnalysisView) -> bool {
    &&& a.effects.no_duplicates()
    &&& a.evidence.no_duplicates()
    &&& a.unsupported_constructs.no_duplicates()
    &&& variants_distinct(a.decoded_variants)
    &&& evidence_backed(a.effects, a.evidence)
    &&& (a.effects.len() == 0 <==> a.severity == Severity::Safe)
    &&& a.effects.len() == 0 ==> {
        if a.unsupported_constructs.len() == 0 {
            a == safe_analysis()
        } else {
            &&& a.severity == Severity::Safe
            &&& a.confidence == Confidence::Unknown
            &&& a.explanation == unknown_explanation()
        }
    }
    &&& a.effects.len() > 0 ==> {
        &&& a.confidence == confidence_for(a.evidence, a.unsupported_constructs)
        &&& a.explanation == explanation_text(a.severity, a.effects)
    }
}

/// Appending a new member.
pub(crate) proof fn lemma_with_new<T>(xs: Seq<T>, x: T)
    ensures
        forall|y: T| #[trigger] with_new(xs, x).contains(y) <==> xs.contains(y) || y == x,
        xs.no_duplicates() ==> with_new(xs, x).no_duplicates(),
        with_new(xs, x).len() >= xs.len(),
{
    if !xs.contains(x) {
        assert forall|y: T| #[trigger] xs.push(x).contains(y) <==> xs.contains(y) || y == x by {
            if xs.push(x).contains(y) {
                let k = choose|k: int| 0 <= k < xs.push(x).len() && xs.push(x)[k] == y;
                if k < xs.len() {
                    assert(xs[k] == y);
                }
            }
            if xs.contains(y) {
                let k = choose|k: int| 0 <= k < xs.len() && xs[k] == y;
                assert(xs.push(x)[k] == y);
            }
            if y == x {
                assert(xs.push(x)[xs.len() as int] == y);
            }
        }
    }
}

/// Appending the new members of a sequence.
pub(crate) proof fn lemma_with_all_new<T>(xs: Seq<T>, more: Seq<T>)
    ensures
        forall|y: T| #[trigger] with_all_new(xs, more).contains(y) <==> xs.contains(y) || more.contains(y),
        xs.no_duplicates() ==> with_all_new(xs, more).no_duplicates(),
        with_all_new(xs, more).len() >= xs.len(),
    decreases more.len(),
{
    if more.len() > 0 {
        let init = more.drop_last();
        lemma_with_all_new(xs, init);
        lemma_with_new(with_all_new(xs, init), more.last());
        assert forall|y: T| #[trigger] with_all_new(xs, more).contains(y) <==> xs.contains(y) || more.contains(y) by {
            if init.contains(y) {
                let k = choose|k: int| 0 <= k < init.len() && init[k] == y;
                assert(more[k] == y);
            }
            if more.contains(y) && y != more.last() {
                let k = choose|k: int| 0 <= k < more.len() && more[k] == y;
                assert(k != more.len() - 1);
                assert(init[k] == y);
            }
            if y == more.last() {
                assert(more[more.len() - 1] == y);
            }
        }
    }
}

/// Appending a decoded variant keeps variants distinct.
proof fn lemma_with_variant(ds: Seq<DecodedVariantView>, v: DecodedVariantView)
    requires
        variants_distinct(ds),
    ensures
        variants_distinct(with_variant(ds, v)),
{
    if !has_variant(ds, v) {
        let n = ds.push(v);
        assert forall|i: int, j: int|
            0 <= i < j < n.len() implies !(#[trigger] n[i].transform == #[trigger] n[j].transform && n[i].text
            == n[j].text) by {
            if j == ds.len() {
                if n[i].transform == n[j].transform && n[i].text == n[j].text {
                    assert(ds[i].transform == v.transform && ds[i].text == v.text);
                }
            } else {
                assert(n[i] == ds[i] && n[j] == ds[j]);
            }
        }
    }
}

/// Appending the new variants of a sequence keeps variants distinct.
proof fn lemma_with_all_variants(ds: Seq<DecodedVariantView>, more: Seq<DecodedVariantView>)
    requires
        variants_distinct(ds),
    ensures
        variants_distinct(with_all_variants(ds, more)),
    decreases more.len(),
{
    if more.len() > 0 {
        lemma_with_all_variants(ds, more.drop_last());
        lemma_with_variant(with_all_variants(ds, more.drop_last()), more.last());
    }
}

/// The empty builder keeps what every builder keeps.
pub proof fn empty_builder_wf()
    ensures
        builder_wf(empty_builder()),
{
}

/// Recording evidence at a severity above `Safe` keeps what every builder keeps.
pub broadcast proof fn add_finding_keeps_wf(b: BuilderView, severity: Severity, ev: EvidenceView)
    requires
        builder_wf(b),
        severity != Severity::Safe,
    ensures
        #[trigger] builder_wf(add_finding(b, severity, ev)),
{
    let n = add_finding(b, severity, ev);
    lemma_with_new(b.effects, ev.effect);
    lemma_with_new(b.evidence, ev);
    assert(n.evidence.contains(ev));
    assert forall|i: int| 0 <= i < n.evidence.len() implies n.effects.contains(#[trigger] n.evidence[i].effect) by {
        let e = n.evidence[i];
        assert(n.evidence.contains(e));
        if b.evidence.contains(e) {
            let k = choose|k: int| 0 <= k < b.evidence.len() && b.evidence[k] == e;
            assert(b.effects.contains(b.evidence[k].effect));
        }
    }
    assert forall|i: int| 0 <= i < n.effects.len() implies exists|j: int|
        0 <= j < n.evidence.len() && #[trigger] n.evidence[j].effect == #[trigger] n.effects[i] by {
        let e = n.effects[i];
        assert(n.effects.contains(e));
        if b.effects.contains(e) {
            let k = choose|k: int| 0 <= k < b.effects.len() && b.effects[k] == e;
            let j = choose|j: int| 0 <= j < b.evidence.len() && #[trigger] b.evidence[j].effect == b.effects[k];
            assert(n.evidence.contains(b.evidence[j]));
            let m = choose|m: int| 0 <= m < n.evidence.len() && n.evidence[m] == b.evidence[j];
            assert(n.evidence[m].effect == n.effects[i]);
        } else {
            let m = choose|m: int| 0 <= m < n.evidence.len() && n.evidence[m] == ev;
            assert(n.evidence[m].effect == n.effects[i]);
        }
    }
    assert(n.effects.contains(ev.effect));
}

/// Recording a decoded text keeps what every builder keeps.
pub broadcast proof fn add_variant_keeps_wf(b: BuilderView, v: DecodedVariantView)
    requires
        builder_wf(b),
    ensures
        #[trigger] builder_wf(add_variant(b, v)),
{
    lemma_with_variant(b.decoded, v);
}

/// Recording an unsupported construct keeps what every builder keeps.
pub broadcast proof fn add_unknown_keeps_wf(b: BuilderView, c: Seq<char>)
    requires
        builder_wf(b),
    ensures
        #[trigger] builder_wf(add_unknown(b, c)),
{
    lemma_with_new(b.unsupported, c);
}

/// Folding in a nested analysis keeps what every builder keeps.
pub broadcast proof fn merge_analysis_keeps_wf(b: BuilderView, a: AnalysisView)
    requires
        builder_wf(b),
        analysis_wf(a),
    ensures
        #[trigger] builder_wf(merge_analysis(b, a)),
{
    let n = merge_analysis(b, a);
    lemma_with_all_new(b.effects, a.effects);
    lemma_with_all_new(b.evidence, a.evidence);
    lemma_with_all_new(b.unsupported, a.unsupported_constructs);
    lemma_with_all_variants(b.decoded, a.decoded_variants);
    assert forall|i: int| 0 <= i < n.evidence.len() implies n.effects.contains(#[trigger] n.evidence[i].effect) by {
        let e = n.evidence[i];
        assert(n.evidence.contains(e));
        if b.evidence.contains(e) {
            let k = choose|k: int| 0 <= k < b.evidence.len() && b.evidence[k] == e;
            assert(b.effects.contains(b.evidence[k].effect));
        } else {
            let k = choose|k: int| 0 <= k < a.evidence.len() && a.evidence[k] == e;
            assert(a.effects.contains(a.evidence[k].effect));
        }
    }
    assert forall|i: int| 0 <= i < n.effects.len() implies exists|j: int|
        0 <= j < n.evidence.len() && #[trigger] n.evidence[j].effect == #[trigger] n.effects[i] by {
        let e = n.effects[i];
        assert(n.effects.contains(e));
        if b.effects.contains(e) {
            let k = choose|k: int| 0 <= k < b.effects.len() && b.effects[k] == e;
            let j = choose|j: int| 0 <= j < b.evidence.len() && #[trigger] b.evidence[j].effect == b.effects[k];
            assert(n.evidence.contains(b.evidence[j]));
            let m = choose|m: int| 0 <= m < n.evidence.len() && n.evidence[m] == b.evidence[j];
            assert(n.evidence[m].effect == n.effects[i]);
        } else {
            let k = choose|k: int| 0 <= k < a.effects.len() && a.effects[k] == e;
            let j = choose|j: int| 0 <= j < a.evidence.len() && #[trigger] a.evidence[j].effect == a.effects[k];
            assert(n.evidence.contains(a.evidence[j]));
            let m = choose|m: int| 0 <= m < n.evidence.len() && n.evidence[m] == a.evidence[j];
            assert(n.evidence[m].effect == n.effects[i]);
        }
    }
    if n.effects.len() == 0 {
        if b.effects.len() > 0 {
            assert(n.effects.contains(b.effects[0]));
        }
        if a.effects.len() > 0 {
            assert(n.effects.contains(a.effects[0]));
        }
    }
}

/// A builder that keeps what every builder keeps finishes into an analysis
/// that satisfies what every analysis satisfies.
pub proof fn finished_is_wf(b: BuilderView)
    requires
        builder_wf(b),
    ensures
        analysis_wf(finished(b)),
{
    if b.effects.len() == 0 {
        if b.evidence.len() > 0 {
            assert(b.effects.contains(b.evidence[0].effect));
        }
        assert(b.evidence =~= Seq::<EvidenceView>::empty());
    }
}

/// Whether an effect is in a list.
pub fn contains_effect(effects: &Vec<EffectKind>, e: EffectKind) -> (r: bool)
    ensures
        r == effects@.contains(e),
{
    let mut i: usize = 0;
    while i < effects.len()
        invariant
            i <= effects@.len(),
            forall|j: int| 0 <= j < i ==> effects@[j] != e,
        decreases effects@.len() - i,
    {
        if effects[i] == e {
            assert(effects@[i as int] == e);
            return true;
        }
        i = i + 1;
    }
    false
}

/// Whether two optional strings are equal.
fn opt_string_eq(a: &Option<String>, b: &Option<String>) -> (r: bool)
    ensures
        r == (a.deep_view() == b.deep_view()),
{
    match a {
        Some(x) => match b {
            Some(y) => {
                assert(a.deep_view() == Some(x@));
                assert(b.deep_view() == Some(y@));
                *x == *y
            },
            None => false,
        },
        None => match b {
            Some(_) => false,
            None => true,
        },
    }
}

/// Whether two pieces of evidence are equal.
pub fn evidence_eq(a: &Evidence, b: &Evidence) -> (r: bool)
    ensures
        r == (a@ == b@),
{
    opt_string_eq(&a.source, &b.source) && opt_string_eq(&a.transform, &b.transform) && opt_string_eq(
        &a.sink,
        &b.sink,
    ) && a.effect == b.effect && a.confidence == b.confidence && a.reason == b.reason
}

/// A copy of an optional string.
pub fn copy_opt_string(a: &Option<String>) -> (r: Option<String>)
    ensures
        r.deep_view() == a.deep_view(),
{
    match a {
        Some(x) => Some(x.clone()),
        None => None,
    }
}

/// A copy of a piece of evidence.
pub fn copy_evidence(e: &Evidence) -> (r: Evidence)
    ensures
        r@ == e@,
{
    Evidence {
        source: copy_opt_string(&e.source),
        transform: copy_opt_string(&e.transform),
        sink: copy_opt_string(&e.sink),
        effect: e.effect,
        confidence: e.confidence,
        reason: e.reason.clone(),
    }
}

/// A copy of a decoded variant.
pub fn copy_variant(d: &DecodedVariant) -> (r: DecodedVariant)
    ensures
        r@ == d@,
{
    DecodedVariant { transform: d.transform.clone(), text: d.text.clone(), truncated: d.truncated }
}

impl AnalysisBuilder {
    /// A builder with no findings.
    pub fn new() -> (r: Self)
        ensures
            r@ == empty_builder(),
    {
        let r = AnalysisBuilder {
            severity: Severity::Safe,
            effects: Vec::new(),
            evidence: Vec::new(),
            decoded_variants: Vec::new(),
            unsupported_constructs: Vec::new(),
        };
        assert(r@.evidence =~= Seq::<EvidenceView>::empty());
        assert(r@.decoded =~= Seq::<DecodedVariantView>::empty());
        assert(r@.unsupported =~= Seq::<Seq<char>>::empty());
        r
    }

    /// Adds an effect unless it is already recorded.
    fn push_effect(&mut self, e: EffectKind)
        ensures
            final(self)@ == (BuilderView { effects: with_new(old(self)@.effects, e), ..old(self)@ }),
    {
        if !contains_effect(&self.effects, e) {
            self.effects.push(e);
        }
    }

    /// Adds evidence unless an equal one is already recorded.
    fn push_evidence(&mut self, ev: Evidence)
        ensures
            final(self)@ == (BuilderView { evidence: with_new(old(self)@.evidence, ev@), ..old(self)@ }),
    {
        let ghost evs = self@.evidence;
        let mut i: usize = 0;
        while i < self.evidence.len()
            invariant
                i <= self.evidence@.len(),
                evs == self.evidence@.map_values(|e: Evidence| e@),
                forall|j: int| 0 <= j < i ==> evs[j] != ev@,
            decreases self.evidence@.len() - i,
        {
            if evidence_eq(&self.evidence[i], &ev) {
                assert(evs[i as int] == ev@);
                return;
            }
            i = i + 1;
        }
        let ghost before = self@;
        self.evidence.push(ev);
        assert(self@.evidence =~= before.evidence.push(ev@));
    }

    /// Records one piece of evidence at a severity.
    pub fn add(&mut self, severity: Severity, evidence: Evidence)
        ensures
            final(self)@ == add_finding(old(self)@, severity, evidence@),
    {
        self.severity = max_severity(self.severity, severity);
        self.push_effect(evidence.effect);
        self.push_evidence(evidence);
    }

    /// Records a decoded text unless one with its transform and text is recorded.
    pub fn add_decoded(&mut self, variant: DecodedVariant)
        ensures
            final(self)@ == add_variant(old(self)@, variant@),
    {
        let ghost ds = self@.decoded;
        let mut i: usize = 0;
        while i < self.decoded_variants.len()
            invariant
                i <= self.decoded_variants@.len(),
                ds == self.decoded_variants@.map_values(|d: DecodedVariant| d@),
                forall|j: int|
                    0 <= j < i ==> !(#[trigger] ds[j].transform == variant@.transform && ds[j].text
                        == variant@.text),
            decreases self.decoded_variants@.len() - i,
        {
            if self.decoded_variants[i].transform == variant.transform && self.decoded_variants[i].text
                == variant.text {
                assert(ds[i as int].transform == variant@.transform && ds[i as int].text == variant@.text);
                return;
            }
            i = i + 1;
        }
        let ghost before = self@;
        self.decoded_variants.push(variant);
        assert(self@.decoded =~= before.decoded.push(variant@));
    }

    /// Records a construct the analyzer does not understand.
    pub fn add_unsupported(&mut self, construct: String)
        ensures
            final(self)@ == add_unknown(old(self)@, construct@),
    {
        let ghost us = self@.unsupported;
        let mut i: usize = 0;
        while i < self.unsupported_constructs.len()
            invariant
                i <= self.unsupported_constructs@.len(),
                us == self.unsupported_constructs.deep_view(),
                forall|j: int| 0 <= j < i ==> us[j] != construct@,
            decreases self.unsupported_constructs@.len() - i,
        {
            if self.unsupported_constructs[i] == construct {
                assert(us[i as int] == construct@);
                return;
            }
            i = i + 1;
        }
        let ghost before = self@;
        self.unsupported_constructs.push(construct);
        assert(self@.unsupported =~= before.unsupported.push(construct@));
    }

    /// Folds a nested analysis into the builder.
    pub fn merge_nested(&mut self, nested: Analysis)
        ensures
            final(self)@ == merge_analysis(old(self)@, nested@),
    {
        let ghost b0 = self@;
        let ghost a = nested@;
        self.severity = max_severity(self.severity, nested.severity);
        let mut i: usize = 0;
        while i < nested.effects.len()
            invariant
                i <= nested.effects@.len(),
                a == nested@,
                self@ == (BuilderView {
                    severity: severity_max(b0.severity, a.severity),
                    effects: with_all_new(b0.effects, a.effects.take(i as int)),
                    ..b0
                }),
            decreases nested.effects@.len() - i,
        {
            assert(a.effects.take(i + 1).drop_last() =~= a.effects.take(i as int));
            self.push_effect(nested.effects[i]);
            i = i + 1;
        }
        assert(a.effects.take(i as int) =~= a.effects);
        let ghost b1 = self@;
        let mut i: usize = 0;
        while i < nested.evidence.len()
            invariant
                i <= nested.evidence@.len(),
                a == nested@,
                self@ == (BuilderView { evidence: with_all_new(b1.evidence, a.evidence.take(i as int)), ..b1 }),
            decreases nested.evidence@.len() - i,
        {
            assert(a.evidence.take(i + 1).drop_last() =~= a.evidence.take(i as int));
            self.push_evidence(copy_evidence(&nested.evidence[i]));
            i = i + 1;
        }
        assert(a.evidence.take(i as int) =~= a.evidence);
        let ghost b2 = self@;
        let mut i: usize = 0;
        while i < nested.decoded_variants.len()
            invariant
                i <= nested.decoded_variants@.len(),
                a == nested@,
                self@ == (BuilderView {
                    decoded: with_all_variants(b2.decoded, a.decoded_variants.take(i as int)),
                    ..b2
                }),
            decreases nested.decoded_variants@.len() - i,
        {
            assert(a.decoded_variants.take(i + 1).drop_last() =~= a.decoded_variants.take(i as int));
            self.add_decoded(copy_variant(&nested.decoded_variants[i]));
            i = i + 1;
        }
        assert(a.decoded_variants.take(i as int) =~= a.decoded_variants);
        let ghost b3 = self@;
        let mut i: usize = 0;
        while i < nested.unsupported_constructs.len()
            invariant
                i <= nested.unsupported_constructs@.len(),
                a == nested@,
                self@ == (BuilderView {
                    unsupported: with_all_new(b3.unsupported, a.unsupported_constructs.take(i as int)),
                    ..b3
                }),
            decreases nested.unsupported_constructs@.len() - i,
        {
            assert(a.unsupported_constructs.take(i + 1).drop_last() =~= a.unsupported_constructs.take(
                i as int,
            ));
            self.add_unsupported(nested.unsupported_constructs[i].clone());
            i = i + 1;
        }
        assert(a.unsupported_constructs.take(i as int) =~= a.unsupported_constructs);
    }

    /// The analysis that the findings amount to.
    pub fn finish(self) -> (r: Analysis)
        ensures
            r@ == finished(self@),
    {
        if self.effects.len() == 0 {
            if self.unsupported_constructs.len() == 0 {
                return Analysis::safe();
            }
            let r = Analysis {
                severity: Severity::Safe,
                confidence: Confidence::Unknown,
                effects: Vec::new(),
                evidence: Vec::new(),
                decoded_variants: self.decoded_variants,
                unsupported_constructs: self.unsupported_constructs,
                explanation: String::from_str(
                    "No suspicious effect was identified, but some syntax was outside the v0.1 analyzer.",
                ),
            };
            assert(r@.evidence =~= Seq::<EvidenceView>::empty());
            return r;
        }
        let ghost evs = self@.evidence;
        let mut high = false;
        let mut i: usize = 0;
        while i < self.evidence.len()
            invariant
                i <= self.evidence@.len(),
                evs == self.evidence@.map_values(|e: Evidence| e@),
                high == exists|j: int| 0 <= j < i && (#[trigger] evs[j]).confidence == Confidence::High,
            decreases self.evidence@.len() - i,
        {
            if self.evidence[i].confidence == Confidence::High {
                assert(evs[i as int].confidence == Confidence::High);
                high = true;
            }
            i = i + 1;
        }
        let confidence = if high {
            Confidence::High
        } else if self.unsupported_constructs.len() > 0 {
            Confidence::Unknown
        } else {
            Confidence::Medium
        };
        let explanation = explanation_for(self.severity, &self.effects);
        Analysis {
            severity: self.severity,
            confidence,
            effects: self.effects,
            evidence: self.evidence,
            decoded_variants: self.decoded_variants,
            unsupported_constructs: self.unsupported_constructs,
            explanation,
        }
    }
}

/// The explanation given for a severity and set of effects.
pub fn explanation_for(severity: Severity, effects: &Vec<EffectKind>) -> (r: String)
    ensures
        r@ == explanation_text(severity, effects@),
{
    let high = severity == Severity::High;
    if high && contains_effect(effects, EffectKind::RemoteDownload) && contains_effect(
        effects,
        EffectKind::DynamicExecution,
    ) {
        return String::from_str(
            "High confidence: remote content is executed without being saved or reviewed.",
        );
    }
    if high && contains_effect(effects, EffectKind::ConcealedPayload) && contains_effect(
        effects,
        EffectKind::DynamicExecution,
    ) {
        return String::from_str("High confidence: concealed command text is decoded and executed.");
    }
    if high && contains_effect(effects, EffectKind::DestructiveFilesystem) {
        return String::from_str(
            "High confidence: the pasted command can remove or overwrite filesystem data.",
        );
    }
    if contains_effect(effects, EffectKind::CredentialRead) && contains_effect(
        effects,
        EffectKind::ExternalTransmission,
    ) {
        return String::from_str(
            "High confidence: local credential material may be sent to another host.",
        );
    }
    if contains_effect(effects, EffectKind::PersistenceWrite) {
        return String::from_str(
            "Medium confidence: the command writes to a location that can run code later.",
        );
    }
    String::from_str("Suspicious pasted-command effects were identified.")
}

} // verus!
