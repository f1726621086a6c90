//! Detection metrics over a corpus of labelled example commands.
use vstd::prelude::*;
use crate::model::Severity;
use crate::text::{chars_of, chars_eq, push_char};

verus! {

/// Counts of a benchmark run over a corpus.
#[derive(Debug, Clone)]
pub struct BenchReport {
    pub total: usize,
    pub malicious: usize,
    pub benign: usize,
    pub true_positive: usize,
    pub false_positive: usize,
    pub true_negative: usize,
    pub false_negative: usize,
    pub skipped: usize,
}

impl Default for BenchReport {
    /// A report with every count zero.
    fn default() -> (r: Self)
        ensures
            r.total == 0,
            r.malicious == 0,
            r.benign == 0,
            r.true_positive == 0,
            r.false_positive == 0,
            r.true_negative == 0,
            r.false_negative == 0,
            r.skipped == 0,
    {
        BenchReport {
            total: 0,
            malicious: 0,
            benign: 0,
            true_positive: 0,
            false_positive: 0,
            true_negative: 0,
            false_negative: 0,
            skipped: 0,
        }
    }
}

/// The character of a decimal digit.
pub open spec fn digit_char(d: nat) -> char {
    (48 + d) as char
}

/// The decimal digits of a number.
pub open spec fn decimal(n: nat) -> Seq<char>
    decreases n,
{
    if n < 10 {
        seq![digit_char(n)]
    } else {
        decimal(n / 10).push(digit_char(n % 10))
    }
}

/// The character of a decimal digit.
fn digit(d: usize) -> (c: char)
    requires
        d < 10,
    ensures
        c == digit_char(d as nat),
{
    match d {
        0 => '0',
        1 => '1',
        2 => '2',
        3 => '3',
        4 => '4',
        5 => '5',
        6 => '6',
        7 => '7',
        8 => '8',
        _ => '9',
    }
}

/// Appends the decimal digits of a number.
fn push_decimal(out: &mut String, n: usize)
    ensures
        final(out)@ == old(out)@ + decimal(n as nat),
    decreases n,
{
    if n >= 10 {
        push_decimal(out, n / 10);
    }
    push_char(out, digit(n % 10));
    if n < 10 {
        assert(old(out)@ + decimal(n as nat) =~= old(out)@.push(digit_char(n as nat)));
    } else {
        assert(old(out)@ + decimal(n as nat) =~= (old(out)@ + decimal((n / 10) as nat)).push(
            digit_char((n % 10) as nat),
        ));
    }
}

/// Appends a string slice.
fn put(out: &mut String, s: &str)
    ensures
        final(out)@ == old(out)@ + s@,
{
    out.append(s);
}

/// Appends a labelled count line.
fn put_count(out: &mut String, label: &str, n: usize)
    ensures
        final(out)@ == old(out)@ + count_line(label@, n),
{
    put(out, label);
    push_decimal(out, n);
    put(out, "\n");
    assert(final(out)@ =~= old(out)@ + count_line(label@, n));
}

/// Appends a rate line when `present`.
fn put_rate(out: &mut String, present: bool, label: &str, rate: &str)
    ensures
        final(out)@ == old(out)@ + rate_line(present, label@, rate@),
{
    if present {
        put(out, label);
        put(out, rate);
        put(out, "%\n");
        assert(final(out)@ =~= old(out)@ + rate_line(present, label@, rate@));
    } else {
        assert(old(out)@ + rate_line(present, label@, rate@) =~= old(out)@);
    }
}

/// A rate line, `label`, the rate and `%`, when `present`.
pub open spec fn rate_line(present: bool, label: Seq<char>, rate: Seq<char>) -> Seq<char> {
    if present {
        label + rate + "%\n"@
    } else {
        Seq::empty()
    }
}

/// A labelled count line: `label` followed by the number and a newline.
pub open spec fn count_line(label: Seq<char>, n: usize) -> Seq<char> {
    label + decimal(n as nat) + "\n"@
}

/// The text `render` prints, given the recall and false positive rate as
/// percentages already formatted with one decimal: the rate lines appear only
/// when there are malicious, resp. benign, cases.
pub open spec fn report_text(r: BenchReport, recall: Seq<char>, false_positive_rate: Seq<char>) -> Seq<char> {
    "CommandGuard bench\n"@ + "==================\n"@ + count_line("Total cases: "@, r.total) + count_line(
        "Malicious cases: "@,
        r.malicious,
    ) + count_line("Benign cases: "@, r.benign) + count_line("Skipped cases: "@, r.skipped) + "\n"@
        + count_line("True positives: "@, r.true_positive) + count_line(
        "False positives: "@,
        r.false_positive,
    ) + count_line("True negatives: "@, r.true_negative) + count_line(
        "False negatives: "@,
        r.false_negative,
    ) + rate_line(r.malicious > 0, "Recall: "@, recall) + rate_line(
        r.benign > 0,
        "False positive rate: "@,
        false_positive_rate,
    )
}

/// Whether the analyzer flags a case: Medium and High findings count as detections.
pub open spec fn detected(s: Severity) -> bool {
    s.rank() >= Severity::Medium.rank()
}

/// The corpus label of a case from the first directory of its path below the
/// corpus root: `malicious` and `mutations` hold attacks, `benign` holds
/// ordinary commands, and other cases are skipped.
pub open spec fn label_of(first_component: Seq<char>) -> Option<bool> {
    if first_component == "malicious"@ || first_component == "mutations"@ {
        Some(true)
    } else if first_component == "benign"@ {
        Some(false)
    } else {
        None
    }
}

/// The corpus label of a case from the first directory of its path below the corpus root.
pub fn expected_label(first_component: &str) -> (r: Option<bool>)
    ensures
        r == label_of(first_component@),
{
    let c = chars_of(first_component);
    let malicious = chars_of("malicious");
    let mutations = chars_of("mutations");
    let benign = chars_of("benign");
    if chars_eq(c.as_slice(), malicious.as_slice()) || chars_eq(c.as_slice(), mutations.as_slice()) {
        Some(true)
    } else if chars_eq(c.as_slice(), benign.as_slice()) {
        Some(false)
    } else {
        None
    }
}

impl BenchReport {
    /// The report text; `recall` and `false_positive_rate` are the two rates
    /// as percentages formatted with one decimal.
    pub fn render(&self, recall: &str, false_positive_rate: &str) -> (r: String)
        ensures
            r@ == report_text(*self, recall@, false_positive_rate@),
    {
        let mut out = String::new();
        put(&mut out, "CommandGuard bench\n");
        put(&mut out, "==================\n");
        put_count(&mut out, "Total cases: ", self.total);
        put_count(&mut out, "Malicious cases: ", self.malicious);
        put_count(&mut out, "Benign cases: ", self.benign);
        put_count(&mut out, "Skipped cases: ", self.skipped);
        put(&mut out, "\n");
        put_count(&mut out, "True positives: ", self.true_positive);
        put_count(&mut out, "False positives: ", self.false_positive);
        put_count(&mut out, "True negatives: ", self.true_negative);
        put_count(&mut out, "False negatives: ", self.false_negative);
        put_rate(&mut out, self.malicious > 0, "Recall: ", recall);
        put_rate(&mut out, self.benign > 0, "False positive rate: ", false_positive_rate);
        out
    }

    /// Counts one case: `expected` is its corpus label (`None`: skipped), and
    /// `severity` what the analyzer found in it.
    pub fn record(&mut self, expected: Option<bool>, severity: Severity)
        requires
            room_for(*old(self), expected),
        ensures
            *final(self) == counted(*old(self), expected, severity),
    {
        match expected {
            None => {
                self.skipped = self.skipped + 1;
            },
            Some(expected_malicious) => {
                let hit = crate::model::rank_of(severity) >= 2;
                self.total = self.total + 1;
                if expected_malicious {
                    self.malicious = self.malicious + 1;
                    if hit {
                        self.true_positive = self.true_positive + 1;
                    } else {
                        self.false_negative = self.false_negative + 1;
                    }
                } else {
                    self.benign = self.benign + 1;
                    if hit {
                        self.false_positive = self.false_positive + 1;
                    } else {
                        self.true_negative = self.true_negative + 1;
                    }
                }
            },
        }
    }
}

/// One more than a count.
pub open spec fn inc(n: usize) -> usize {
    (n + 1) as usize
}

/// Whether every count that a case would raise is below `usize::MAX`.
pub open spec fn room_for(r: BenchReport, expected: Option<bool>) -> bool {
    match expected {
        None => r.skipped < usize::MAX,
        Some(true) => r.total < usize::MAX && r.malicious < usize::MAX && r.true_positive < usize::MAX
            && r.false_negative < usize::MAX,
        Some(false) => r.total < usize::MAX && r.benign < usize::MAX && r.false_positive < usize::MAX
            && r.true_negative < usize::MAX,
    }
}

/// The report after counting one case: a skipped case raises `skipped`; a
/// labelled one raises `total`, its class, and its hit or miss count.
pub open spec fn counted(r: BenchReport, expected: Option<bool>, severity: Severity) -> BenchReport {
    match expected {
        None => BenchReport { skipped: inc(r.skipped), ..r },
        Some(true) => if detected(severity) {
            BenchReport {
                total: inc(r.total),
                malicious: inc(r.malicious),
                true_positive: inc(r.true_positive),
                ..r
            }
        } else {
            BenchReport {
                total: inc(r.total),
                malicious: inc(r.malicious),
                false_negative: inc(r.false_negative),
                ..r
            }
        },
        Some(false) => if detected(severity) {
            BenchReport {
                total: inc(r.total),
                benign: inc(r.benign),
                false_positive: inc(r.false_positive),
                ..r
            }
        } else {
            BenchReport {
                total: inc(r.total),
                benign: inc(r.benign),
                true_negative: inc(r.true_negative),
                ..r
            }
        },
    }
}

/// Whether a report's counts agree: every counted case is malicious or
/// benign, and each is a hit or a miss.
pub open spec fn consistent(r: BenchReport) -> bool {
    &&& r.total == r.malicious + r.benign
    &&& r.malicious == r.true_positive + r.false_negative
    &&& r.benign == r.false_positive + r.true_negative
}

/// Counting a case keeps a report's counts in agreement.
pub proof fn record_keeps_counts_consistent(r: BenchReport, expected: Option<bool>, severity: Severity)
    requires
        consistent(r),
        room_for(r, expected),
    ensures
        consistent(counted(r, expected, severity)),
{
}

/// A case counts as detected exactly when its severity is Medium or High, for
/// attacks and for benign cases alike: a labelled case raises `total` and its
/// class by one, and exactly one of its class's hit and miss counts by one.
/// A benign case flagged Medium or High is a false positive, a benign Safe or
/// Low one a true negative; an attack flagged Medium or High is a true
/// positive, otherwise a false negative. A skipped case only raises `skipped`.
pub proof fn record_counts_by_severity(r: BenchReport, expected: Option<bool>, s: Severity)
    requires
        room_for(r, expected),
    ensures
        ({
            let c = counted(r, expected, s);
            let flagged: int = if s == Severity::Medium || s == Severity::High { 1 } else { 0 };
            let benign = expected == Some(false);
            let attack = expected == Some(true);
            &&& c.skipped == r.skipped + (if expected is None { 1int } else { 0 })
            &&& c.total == r.total + (if expected is Some { 1int } else { 0 })
            &&& c.malicious == r.malicious + (if attack { 1int } else { 0 })
            &&& c.benign == r.benign + (if benign { 1int } else { 0 })
            &&& c.true_positive == r.true_positive + (if attack { flagged } else { 0 })
            &&& c.false_negative == r.false_negative + (if attack { 1 - flagged } else { 0 })
            &&& c.false_positive == r.false_positive + (if benign { flagged } else { 0 })
            &&& c.true_negative == r.true_negative + (if benign { 1 - flagged } else { 0 })
        }),
{
}

} // verus!
