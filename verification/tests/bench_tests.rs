use commandguard::bench::{expected_label, BenchReport};
use commandguard::model::Severity;

fn percent(part: usize, whole: usize) -> String {
    format!("{:.1}", part as f64 / whole as f64 * 100.0)
}

fn render(report: &BenchReport) -> String {
    report.render(
        &percent(report.true_positive, report.malicious),
        &percent(report.false_positive, report.benign),
    )
}

#[test]
fn renders_empty_report() {
    let report = BenchReport::default();
    let rendered = render(&report);
    assert!(rendered.contains("Total cases: 0"));
}

#[test]
fn empty_report_has_no_rate_lines() {
    let rendered = render(&BenchReport::default());
    assert_eq!(
        rendered,
        "CommandGuard bench\n==================\nTotal cases: 0\nMalicious cases: 0\nBenign cases: 0\nSkipped cases: 0\n\nTrue positives: 0\nFalse positives: 0\nTrue negatives: 0\nFalse negatives: 0\n"
    );
}

#[test]
fn records_and_renders_cases() {
    let mut report = BenchReport::default();
    report.record(Some(true), Severity::High);
    report.record(Some(true), Severity::Low);
    report.record(Some(true), Severity::Medium);
    report.record(Some(false), Severity::Safe);
    report.record(Some(false), Severity::Medium);
    report.record(None, Severity::High);
    assert_eq!(report.total, 5);
    assert_eq!(report.malicious, 3);
    assert_eq!(report.benign, 2);
    assert_eq!(report.true_positive, 2);
    assert_eq!(report.false_negative, 1);
    assert_eq!(report.false_positive, 1);
    assert_eq!(report.true_negative, 1);
    assert_eq!(report.skipped, 1);
    let rendered = render(&report);
    assert!(rendered.contains("Total cases: 5\n"));
    assert!(rendered.contains("Recall: 66.7%\n"));
    assert!(rendered.contains("False positive rate: 50.0%\n"));
}

#[test]
fn large_counts_are_written_in_decimal() {
    let mut report = BenchReport::default();
    report.skipped = 1234567;
    assert!(render(&report).contains("Skipped cases: 1234567\n"));
}

#[test]
fn corpus_directories_give_labels() {
    assert_eq!(expected_label("malicious"), Some(true));
    assert_eq!(expected_label("mutations"), Some(true));
    assert_eq!(expected_label("benign"), Some(false));
    assert_eq!(expected_label("notes"), None);
    assert_eq!(expected_label("benign2"), None);
}
