//! The analysis model: severities, confidence levels, effects and evidence.
use vstd::prelude::*;

verus! {

/// How risky a pasted command is.
#[derive(Debug, Clone, Copy, PartialEq, Eq, PartialOrd, Ord, Hash, Structural)]
pub enum Severity {
    Safe,
    Low,
    Medium,
    High,
}

impl Severity {
    /// The position of the severity in the order Safe < Low < Medium < High.
    pub open spec fn rank(self) -> int {
        match self {
            Severity::Safe => 0,
            Severity::Low => 1,
            Severity::Medium => 2,
            Severity::High => 3,
        }
    }

    /// Medium and High interrupt a paste; Safe and Low do not.
    pub fn should_interrupt(self) -> (r: bool)
        ensures
            r == (self.rank() >= Severity::Medium.rank()),
    {
        matches!(self, Severity::Medium | Severity::High)
    }
}

/// The larger of two severities.
pub open spec fn severity_max(a: Severity, b: Severity) -> Severity {
    if a.rank() >= b.rank() {
        a
    } else {
        b
    }
}

/// Executable form of `severity_max`.
pub fn max_severity(a: Severity, b: Severity) -> (r: Severity)
    ensures
        r == severity_max(a, b),
{
    if rank_of(a) >= rank_of(b) {
        a
    } else {
        b
    }
}

/// The rank of a severity as a machine integer.
pub fn rank_of(s: Severity) -> (r: u8)
    ensures
        r as int == s.rank(),
{
    match s {
        Severity::Safe => 0,
        Severity::Low => 1,
        Severity::Medium => 2,
        Severity::High => 3,
    }
}

/// How grounded a conclusion is.
#[derive(Debug, Clone, Copy, PartialEq, Eq, Hash, Structural)]
pub enum Confidence {
    Unknown,
    Medium,
    High,
}

/// An effect that a pasted command can have.
#[derive(Debug, Clone, Copy, PartialEq, Eq, Hash, Structural)]
pub enum EffectKind {
    RemoteDownload,
    DynamicExecution,
    ConcealedPayload,
    CredentialRead,
    PersistenceWrite,
    PrivilegeEscalation,
    DestructiveFilesystem,
    ExternalTransmission,
}

/// The human-readable label of an effect.
pub open spec fn effect_label(e: EffectKind) -> Seq<char> {
    match e {
        EffectKind::RemoteDownload => "Remote download"@,
        EffectKind::DynamicExecution => "Dynamic execution"@,
        EffectKind::ConcealedPayload => "Concealed payload"@,
        EffectKind::CredentialRead => "Credential read"@,
        EffectKind::PersistenceWrite => "Persistence write"@,
        EffectKind::PrivilegeEscalation => "Privilege escalation"@,
        EffectKind::DestructiveFilesystem => "Destructive filesystem operation"@,
        EffectKind::ExternalTransmission => "External transmission"@,
    }
}

impl EffectKind {
    /// The human-readable label of the effect.
    pub fn label(&self) -> (r: &'static str)
        ensures
            r@ == effect_label(*self),
    {
        match self {
            EffectKind::RemoteDownload => "Remote download",
            EffectKind::DynamicExecution => "Dynamic execution",
            EffectKind::ConcealedPayload => "Concealed payload",
            EffectKind::CredentialRead => "Credential read",
            EffectKind::PersistenceWrite => "Persistence write",
            EffectKind::PrivilegeEscalation => "Privilege escalation",
            EffectKind::DestructiveFilesystem => "Destructive filesystem operation",
            EffectKind::ExternalTransmission => "External transmission",
        }
    }
}

/// One step of a SOURCE -> TRANSFORM -> SINK -> EFFECT chain.
#[derive(Debug, Clone, PartialEq, Eq)]
pub struct Evidence {
    pub source: Option<String>,
    pub transform: Option<String>,
    pub sink: Option<String>,
    pub effect: EffectKind,
    pub confidence: Confidence,
    pub reason: String,
}

/// The mathematical value of an `Evidence`.
pub struct EvidenceView {
    pub source: Option<Seq<char>>,
    pub transform: Option<Seq<char>>,
    pub sink: Option<Seq<char>>,
    pub effect: EffectKind,
    pub confidence: Confidence,
    pub reason: Seq<char>,
}

impl View for Evidence {
    type V = EvidenceView;

    open spec fn view(&self) -> EvidenceView {
        EvidenceView {
            source: self.source.deep_view(),
            transform: self.transform.deep_view(),
            sink: self.sink.deep_view(),
            effect: self.effect,
            confidence: self.confidence,
            reason: self.reason@,
        }
    }
}

/// Text that was recovered by decoding part of a paste.
#[derive(Debug, Clone, PartialEq, Eq)]
pub struct DecodedVariant {
    pub transform: String,
    pub text: String,
    pub truncated: bool,
}

/// The mathematical value of a `DecodedVariant`.
pub struct DecodedVariantView {
    pub transform: Seq<char>,
    pub text: Seq<char>,
    pub truncated: bool,
}

impl View for DecodedVariant {
    type V = DecodedVariantView;

    open spec fn view(&self) -> DecodedVariantView {
        DecodedVariantView { transform: self.transform@, text: self.text@, truncated: self.truncated }
    }
}

/// The result of analyzing a paste.
#[derive(Debug, Clone, PartialEq, Eq)]
pub struct Analysis {
    pub severity: Severity,
    pub confidence: Confidence,
    pub effects: Vec<EffectKind>,
    pub evidence: Vec<Evidence>,
    pub decoded_variants: Vec<DecodedVariant>,
    pub unsupported_constructs: Vec<String>,
    pub explanation: String,
}

/// The mathematical value of an `Analysis`.
pub struct AnalysisView {
    pub severity: Severity,
    pub confidence: Confidence,
    pub effects: Seq<EffectKind>,
    pub evidence: Seq<EvidenceView>,
    pub decoded_variants: Seq<DecodedVariantView>,
    pub unsupported_constructs: Seq<Seq<char>>,
    pub explanation: Seq<char>,
}

impl View for Analysis {
    type V = AnalysisView;

    open spec fn view(&self) -> AnalysisView {
        AnalysisView {
            severity: self.severity,
            confidence: self.confidence,
            effects: self.effects@,
            evidence: self.evidence@.map_values(|e: Evidence| e@),
            decoded_variants: self.decoded_variants@.map_values(|d: DecodedVariant| d@),
            unsupported_constructs: self.unsupported_constructs.deep_view(),
            explanation: self.explanation@,
        }
    }
}

/// The explanation given when nothing suspicious was found.
pub open spec fn safe_explanation() -> Seq<char> {
    "No suspicious pasted-command effects were identified."@
}

/// The analysis of a paste in which nothing suspicious was found.
pub open spec fn safe_analysis() -> AnalysisView {
    AnalysisView {
        severity: Severity::Safe,
        confidence: Confidence::High,
        effects: Seq::empty(),
        evidence: Seq::empty(),
        decoded_variants: Seq::empty(),
        unsupported_constructs: Seq::empty(),
        explanation: safe_explanation(),
    }
}

impl Analysis {
    /// The analysis of a paste in which nothing suspicious was found.
    pub fn safe() -> (r: Self)
        ensures
            r@ == safe_analysis(),
    {
        let r = Analysis {
            severity: Severity::Safe,
            confidence: Confidence::High,
            effects: Vec::new(),
            evidence: Vec::new(),
            decoded_variants: Vec::new(),
            unsupported_constructs: Vec::new(),
            explanation: String::from_str("No suspicious pasted-command effects were identified."),
        };
        assert(r@.evidence =~= Seq::<EvidenceView>::empty());
        assert(r@.decoded_variants =~= Seq::<DecodedVariantView>::empty());
        assert(r@.unsupported_constructs =~= Seq::<Seq<char>>::empty());
        r
    }
}

/// The severities that interrupt a paste are exactly Medium and High.
pub proof fn interrupting_severities(s: Severity)
    ensures
        s.rank() >= Severity::Medium.rank() <==> (s == Severity::Medium || s == Severity::High),
{
}

} // verus!
