//! The decisions of the guarded terminal: the bracketed-paste scanner, the
//! alternate-screen switch and the review of a held paste.
use vstd::prelude::*;
use vstd::utf8::{decode_utf8, valid_utf8};
use crate::analyzer::Analyzer;
use crate::model::{Analysis, AnalysisView, Severity};
use crate::semantics::analysis_of;
use crate::warning::{paste_warning, warning_text};

verus! {

/// The escape byte that starts every terminal control sequence.
pub const ESC: u8 = 27;

/// `ESC[200~`, sent by the terminal before pasted text.
pub open spec fn paste_start() -> Seq<u8> {
    seq![27u8, 91u8, 50u8, 48u8, 48u8, 126u8]
}

/// `ESC[201~`, sent by the terminal after pasted text.
pub open spec fn paste_end() -> Seq<u8> {
    seq![27u8, 91u8, 50u8, 48u8, 49u8, 126u8]
}

/// The paste end marker when `end` holds, else the paste start marker.
pub open spec fn marker(end: bool) -> Seq<u8> {
    if end {
        paste_end()
    } else {
        paste_start()
    }
}

/// Whether `p` is a prefix of `m`.
pub open spec fn prefix_of(p: Seq<u8>, m: Seq<u8>) -> bool {
    p.len() <= m.len() && p == m.take(p.len() as int)
}

/// Byte `i` of a paste marker.
fn marker_byte(end: bool, i: usize) -> (r: u8)
    requires
        i < 6,
    ensures
        r == marker(end)[i as int],
{
    match i {
        0 => 27,
        1 => 91,
        2 => 50,
        3 => 48,
        4 => if end {
            49
        } else {
            48
        },
        _ => 126,
    }
}

/// Whether the buffered bytes are a prefix of a paste marker.
fn is_marker_prefix(buf: &Vec<u8>, end: bool) -> (r: bool)
    ensures
        r == prefix_of(buf@, marker(end)),
{
    if buf.len() > 6 {
        return false;
    }
    let mut i: usize = 0;
    while i < buf.len()
        invariant
            i <= buf@.len(),
            buf@.len() <= 6,
            forall|j: int| 0 <= j < i ==> buf@[j] == marker(end)[j],
        decreases buf@.len() - i,
    {
        if buf[i] != marker_byte(end, i) {
            assert(marker(end).take(buf@.len() as int)[i as int] == marker(end)[i as int]);
            return false;
        }
        i = i + 1;
    }
    assert(buf@ =~= marker(end).take(buf@.len() as int));
    true
}

/// Whether the buffered bytes are exactly a paste marker.
fn is_marker(buf: &Vec<u8>, end: bool) -> (r: bool)
    ensures
        r == (buf@ == marker(end)),
{
    if buf.len() != 6 {
        return false;
    }
    let p = is_marker_prefix(buf, end);
    assert(marker(end).take(6) =~= marker(end));
    p
}

/// What the scanner hands on for one input byte.
#[derive(Debug, Clone, PartialEq, Eq)]
pub enum InputAction {
    /// Bytes typed by the user, to go to the shell at once.
    Forward(Vec<u8>),
    /// The text of a complete bracketed paste, without its markers.
    Paste(Vec<u8>),
}

/// The mathematical value of an `InputAction`.
pub enum ActionView {
    Forward(Seq<u8>),
    Paste(Seq<u8>),
}

impl View for InputAction {
    type V = ActionView;

    open spec fn view(&self) -> ActionView {
        match self {
            InputAction::Forward(b) => ActionView::Forward(b@),
            InputAction::Paste(b) => ActionView::Paste(b@),
        }
    }
}

/// The values of a sequence of actions.
pub open spec fn actions_view(acts: Seq<InputAction>) -> Seq<ActionView> {
    acts.map_values(|a: InputAction| a@)
}

/// Where the scanner is within the input stream.
#[derive(Debug, Clone, PartialEq, Eq)]
enum ScannerState {
    Normal,
    Escape(Vec<u8>),
    Paste { bytes: Vec<u8>, possible_end: Vec<u8> },
}

/// The mathematical value of the scanner's state.
pub enum ScanState {
    /// Between escape sequences.
    Normal,
    /// Inside an escape sequence that may still become the paste start marker;
    /// a new ESC hands the buffered bytes on and starts a new sequence.
    Escape(Seq<u8>),
    /// Inside a paste: its text so far, and bytes that may become the end marker.
    Paste { bytes: Seq<u8>, possible_end: Seq<u8> },
}

/// One input byte's effect: the next state and the actions handed on.
pub open spec fn scan_step(s: ScanState, b: u8) -> (ScanState, Seq<ActionView>) {
    match s {
        ScanState::Normal => {
            if b == ESC {
                (ScanState::Escape(seq![b]), Seq::empty())
            } else {
                (ScanState::Normal, seq![ActionView::Forward(seq![b])])
            }
        },
        ScanState::Escape(buf) => {
            let nb = buf.push(b);
            if b == ESC {
                (ScanState::Escape(seq![b]), seq![ActionView::Forward(buf)])
            } else if nb == paste_start() {
                (ScanState::Paste { bytes: Seq::empty(), possible_end: Seq::empty() }, Seq::empty())
            } else if prefix_of(nb, paste_start()) {
                (ScanState::Escape(nb), Seq::empty())
            } else {
                (ScanState::Normal, seq![ActionView::Forward(nb)])
            }
        },
        ScanState::Paste { bytes, possible_end } => {
            if possible_end.len() > 0 || b == ESC {
                let pe = possible_end.push(b);
                if pe == paste_end() {
                    (ScanState::Normal, seq![ActionView::Paste(bytes)])
                } else if prefix_of(pe, paste_end()) {
                    (ScanState::Paste { bytes, possible_end: pe }, Seq::empty())
                } else {
                    (ScanState::Paste { bytes: bytes + pe, possible_end: Seq::empty() }, Seq::empty())
                }
            } else {
                (ScanState::Paste { bytes: bytes.push(b), possible_end }, Seq::empty())
            }
        },
    }
}

/// The state after feeding `input`, and every action handed on meanwhile.
pub open spec fn scan_bytes(s: ScanState, input: Seq<u8>) -> (ScanState, Seq<ActionView>)
    decreases input.len(),
{
    if input.len() == 0 {
        (s, Seq::empty())
    } else {
        let (s1, a1) = scan_bytes(s, input.drop_last());
        let (s2, a2) = scan_step(s1, input.last());
        (s2, a1 + a2)
    }
}

/// The input bytes that an action stands for: typed bytes as they are, a
/// paste between its two markers.
pub open spec fn action_bytes(a: ActionView) -> Seq<u8> {
    match a {
        ActionView::Forward(b) => b,
        ActionView::Paste(p) => paste_start() + p + paste_end(),
    }
}

/// The input bytes that a sequence of actions stands for.
pub open spec fn emitted(acts: Seq<ActionView>) -> Seq<u8>
    decreases acts.len(),
{
    if acts.len() == 0 {
        Seq::empty()
    } else {
        emitted(acts.drop_last()) + action_bytes(acts.last())
    }
}

/// The input bytes that the scanner holds back in a state.
pub open spec fn held(s: ScanState) -> Seq<u8> {
    match s {
        ScanState::Normal => Seq::empty(),
        ScanState::Escape(buf) => buf,
        ScanState::Paste { bytes, possible_end } => paste_start() + bytes + possible_end,
    }
}

/// The states the scanner can reach: an escape buffer is a started, unfinished
/// paste start marker, and the bytes held after a paste's text are an
/// unfinished paste end marker.
pub open spec fn scanner_wf(s: ScanState) -> bool {
    match s {
        ScanState::Normal => true,
        ScanState::Escape(buf) => 0 < buf.len() < 6 && prefix_of(buf, paste_start()),
        ScanState::Paste { bytes, possible_end } => possible_end.len() < 6 && prefix_of(
            possible_end,
            paste_end(),
        ),
    }
}

/// Whether a byte string holds no escape byte.
pub open spec fn escape_free(b: Seq<u8>) -> bool {
    forall|i: int| 0 <= i < b.len() ==> b[i] != ESC
}

/// Typed input goes to the shell at once: outside an escape sequence, a byte
/// other than ESC is handed on by itself and the scanner stays where it was.
pub proof fn typed_byte_is_forwarded(b: u8)
    requires
        b != ESC,
    ensures
        scan_step(ScanState::Normal, b) == (ScanState::Normal, seq![ActionView::Forward(seq![b])]),
{
}

/// Every reachable state steps to a reachable state.
pub proof fn scanner_stays_wf(s: ScanState, b: u8)
    requires
        scanner_wf(s),
    ensures
        scanner_wf(scan_step(s, b).0),
{
    assert(paste_start().take(6) =~= paste_start());
    assert(paste_end().take(6) =~= paste_end());
    assert(paste_end().take(0) =~= Seq::<u8>::empty());
    match s {
        ScanState::Normal => {
            if b == ESC {
                assert(paste_start().take(1) =~= seq![b]);
                assert(prefix_of(seq![b], paste_start()));
            }
        },
        ScanState::Escape(buf) => {
            if b == ESC {
                assert(paste_start().take(1) =~= seq![b]);
                assert(prefix_of(seq![b], paste_start()));
            }
        },
        ScanState::Paste { bytes, possible_end } => {
            if possible_end.len() > 0 || b == ESC {
                let pe = possible_end.push(b);
                if pe != paste_end() && !prefix_of(pe, paste_end()) {
                    assert(prefix_of(Seq::<u8>::empty(), paste_end()));
                }
            }
        },
    }
}

/// The bytes of two runs of actions.
proof fn lemma_emitted_concat(a: Seq<ActionView>, b: Seq<ActionView>)
    ensures
        emitted(a + b) == emitted(a) + emitted(b),
    decreases b.len(),
{
    if b.len() == 0 {
        assert(a + b =~= a);
        assert(emitted(a) + emitted(b) =~= emitted(a));
    } else {
        lemma_emitted_concat(a, b.drop_last());
        assert((a + b).drop_last() =~= a + b.drop_last());
        assert((a + b).last() == b.last());
        assert(emitted(a + b) =~= emitted(a) + emitted(b));
    }
}

/// The bytes of a single action.
proof fn lemma_emitted_one(a: ActionView)
    ensures
        emitted(seq![a]) == action_bytes(a),
{
    assert(seq![a].drop_last() =~= Seq::<ActionView>::empty());
    assert(emitted(Seq::<ActionView>::empty()) == Seq::<u8>::empty());
    assert(Seq::<u8>::empty() + action_bytes(a) =~= action_bytes(a));
}

/// One byte neither lost nor invented.
proof fn lemma_step_keeps_bytes(s: ScanState, b: u8)
    ensures
        held(s).push(b) == emitted(scan_step(s, b).1) + held(scan_step(s, b).0),
{
    let none = Seq::<ActionView>::empty();
    assert(emitted(none) == Seq::<u8>::empty());
    match s {
        ScanState::Normal => {
            if b == ESC {
                assert(held(s).push(b) =~= Seq::<u8>::empty() + seq![b]);
            } else {
                lemma_emitted_one(ActionView::Forward(seq![b]));
                assert(held(s).push(b) =~= seq![b] + Seq::<u8>::empty());
            }
        },
        ScanState::Escape(buf) => {
            let nb = buf.push(b);
            if b == ESC {
                lemma_emitted_one(ActionView::Forward(buf));
                assert(held(s).push(b) =~= buf + seq![b]);
            } else if nb == paste_start() {
                assert(held(s).push(b) =~= Seq::<u8>::empty() + (paste_start() + Seq::<u8>::empty()
                    + Seq::<u8>::empty()));
            } else if prefix_of(nb, paste_start()) {
                assert(held(s).push(b) =~= Seq::<u8>::empty() + nb);
            } else {
                lemma_emitted_one(ActionView::Forward(nb));
                assert(held(s).push(b) =~= nb + Seq::<u8>::empty());
            }
        },
        ScanState::Paste { bytes, possible_end } => {
            if possible_end.len() > 0 || b == ESC {
                let pe = possible_end.push(b);
                if pe == paste_end() {
                    lemma_emitted_one(ActionView::Paste(bytes));
                    assert(held(s).push(b) =~= (paste_start() + bytes + paste_end()) + Seq::<u8>::empty());
                } else if prefix_of(pe, paste_end()) {
                    assert(held(s).push(b) =~= Seq::<u8>::empty() + (paste_start() + bytes + pe));
                } else {
                    assert(held(s).push(b) =~= Seq::<u8>::empty() + (paste_start() + (bytes + pe)
                        + Seq::<u8>::empty()));
                }
            } else {
                assert(held(s).push(b) =~= Seq::<u8>::empty() + (paste_start() + bytes.push(b)
                    + possible_end));
            }
        },
    }
}

/// The scanner neither drops nor invents input: what it has handed on,
/// followed by what it still holds, is what it held before followed by the
/// input (a paste counts with its two markers).
pub proof fn scanner_keeps_every_byte(s: ScanState, input: Seq<u8>)
    ensures
        held(s) + input == emitted(scan_bytes(s, input).1) + held(scan_bytes(s, input).0),
    decreases input.len(),
{
    if input.len() == 0 {
        assert(held(s) + input =~= held(s));
        assert(emitted(Seq::<ActionView>::empty()) + held(s) =~= held(s));
    } else {
        let (s1, a1) = scan_bytes(s, input.drop_last());
        scanner_keeps_every_byte(s, input.drop_last());
        lemma_step_keeps_bytes(s1, input.last());
        let (s2, a2) = scan_step(s1, input.last());
        lemma_emitted_concat(a1, a2);
        assert(held(s) + input =~= (held(s) + input.drop_last()).push(input.last()));
        assert(held(s) + input =~= emitted(a1 + a2) + held(s2));
    }
}

/// Feeding two pieces of input one after the other.
proof fn lemma_scan_concat(s: ScanState, a: Seq<u8>, b: Seq<u8>)
    ensures
        scan_bytes(s, a + b).0 == scan_bytes(scan_bytes(s, a).0, b).0,
        scan_bytes(s, a + b).1 == scan_bytes(s, a).1 + scan_bytes(scan_bytes(s, a).0, b).1,
    decreases b.len(),
{
    if b.len() == 0 {
        assert(a + b =~= a);
        assert(scan_bytes(s, a).1 + Seq::<ActionView>::empty() =~= scan_bytes(s, a).1);
    } else {
        lemma_scan_concat(s, a, b.drop_last());
        assert((a + b).drop_last() =~= a + b.drop_last());
        assert((a + b).last() == b.last());
        let m = scan_bytes(s, a).0;
        assert(scan_bytes(s, a + b).1 =~= scan_bytes(s, a).1 + scan_bytes(m, b).1);
    }
}

/// The paste start marker moves the scanner into a paste, after handing on
/// what the first ESC hands on.
proof fn lemma_scan_start(s: ScanState, first: Seq<ActionView>)
    requires
        scan_step(s, ESC) == (ScanState::Escape(seq![ESC]), first),
    ensures
        scan_bytes(s, paste_start()) == (
        ScanState::Paste { bytes: Seq::<u8>::empty(), possible_end: Seq::<u8>::empty() },
        first,
        ),
{
    let m = paste_start();
    let e0 = Seq::<u8>::empty();
    let e1 = e0.push(27u8);
    let e2 = e1.push(91u8);
    let e3 = e2.push(50u8);
    let e4 = e3.push(48u8);
    let e5 = e4.push(48u8);
    assert(m =~= e5.push(126u8));
    assert(e1 =~= seq![ESC]);
    assert(e1.drop_last() =~= e0);
    assert(e2.drop_last() =~= e1);
    assert(e3.drop_last() =~= e2);
    assert(e4.drop_last() =~= e3);
    assert(e5.drop_last() =~= e4);
    assert(m.drop_last() =~= e5);
    assert(m.take(2) =~= e2);
    assert(m.take(3) =~= e3);
    assert(m.take(4) =~= e4);
    assert(m.take(5) =~= e5);
    let none = Seq::<ActionView>::empty();
    assert(none + first =~= first);
    assert(first + none =~= first);
    assert(scan_bytes(s, e0) == (s, none));
    assert(scan_bytes(s, e1) == (ScanState::Escape(e1), first));
    assert(scan_bytes(s, e2) == (ScanState::Escape(e2), first));
    assert(scan_bytes(s, e3) == (ScanState::Escape(e3), first));
    assert(scan_bytes(s, e4) == (ScanState::Escape(e4), first));
    assert(scan_bytes(s, e5) == (ScanState::Escape(e5), first));
}

/// Text without escape bytes is gathered into the paste.
proof fn lemma_scan_text(text: Seq<u8>)
    requires
        escape_free(text),
    ensures
        scan_bytes(ScanState::Paste { bytes: Seq::empty(), possible_end: Seq::empty() }, text) == (
        ScanState::Paste { bytes: text, possible_end: Seq::<u8>::empty() },
        Seq::<ActionView>::empty(),
        ),
    decreases text.len(),
{
    let none = Seq::<ActionView>::empty();
    if text.len() == 0 {
        assert(text =~= Seq::<u8>::empty());
    } else {
        let init = text.drop_last();
        assert forall|i: int| 0 <= i < init.len() implies init[i] != ESC by {
            assert(init[i] == text[i]);
        }
        lemma_scan_text(init);
        assert(text.last() == text[text.len() - 1]);
        assert(init.push(text.last()) =~= text);
        assert(none + none =~= none);
    }
}

/// The paste end marker hands on the paste and leaves it.
proof fn lemma_scan_end(text: Seq<u8>)
    ensures
        scan_bytes(ScanState::Paste { bytes: text, possible_end: Seq::empty() }, paste_end()) == (
        ScanState::Normal,
        seq![ActionView::Paste(text)],
        ),
{
    let m = paste_end();
    let e0 = Seq::<u8>::empty();
    let e1 = e0.push(27u8);
    let e2 = e1.push(91u8);
    let e3 = e2.push(50u8);
    let e4 = e3.push(48u8);
    let e5 = e4.push(49u8);
    assert(m =~= e5.push(126u8));
    assert(e1.drop_last() =~= e0);
    assert(e2.drop_last() =~= e1);
    assert(e3.drop_last() =~= e2);
    assert(e4.drop_last() =~= e3);
    assert(e5.drop_last() =~= e4);
    assert(m.drop_last() =~= e5);
    assert(m.take(1) =~= e1);
    assert(m.take(2) =~= e2);
    assert(m.take(3) =~= e3);
    assert(m.take(4) =~= e4);
    assert(m.take(5) =~= e5);
    let none = Seq::<ActionView>::empty();
    assert(none + none =~= none);
    let p = |pe: Seq<u8>| ScanState::Paste { bytes: text, possible_end: pe };
    let s0 = p(e0);
    assert(scan_bytes(s0, e0) == (s0, none));
    assert(scan_bytes(s0, e1) == (p(e1), none));
    assert(scan_bytes(s0, e2) == (p(e2), none));
    assert(scan_bytes(s0, e3) == (p(e3), none));
    assert(scan_bytes(s0, e4) == (p(e4), none));
    assert(scan_bytes(s0, e5) == (p(e5), none));
    assert(none + seq![ActionView::Paste(text)] =~= seq![ActionView::Paste(text)]);
}

/// A bracketed paste from state `s`, whose first ESC leaves the scanner
/// at the start of an escape sequence after handing on `first`.
proof fn lemma_bracketed_paste(s: ScanState, first: Seq<ActionView>, text: Seq<u8>)
    requires
        scan_step(s, ESC) == (ScanState::Escape(seq![ESC]), first),
        escape_free(text),
    ensures
        scan_bytes(s, paste_start() + text + paste_end()) == (
        ScanState::Normal,
        first + seq![ActionView::Paste(text)],
        ),
{
    let none = Seq::<ActionView>::empty();
    lemma_scan_start(s, first);
    lemma_scan_text(text);
    lemma_scan_end(text);
    lemma_scan_concat(s, paste_start(), text);
    lemma_scan_concat(s, paste_start() + text, paste_end());
    assert(first + none =~= first);
}

/// A bracketed paste of text without escape bytes, fed from between escape
/// sequences, is handed on as exactly one paste of that text, and the scanner
/// is back between escape sequences.
pub proof fn bracketed_paste_is_captured(text: Seq<u8>)
    requires
        escape_free(text),
    ensures
        scan_bytes(ScanState::Normal, paste_start() + text + paste_end()) == (
        ScanState::Normal,
        seq![ActionView::Paste(text)],
        ),
{
    lemma_bracketed_paste(ScanState::Normal, Seq::empty(), text);
    assert(Seq::<ActionView>::empty() + seq![ActionView::Paste(text)] =~= seq![ActionView::Paste(text)]);
}

/// A bracketed paste that arrives inside an unfinished escape sequence (a
/// lone Esc key press, say) is still captured: the bytes of the unfinished
/// sequence are handed on as typed input, then the paste as one paste.
pub proof fn bracketed_paste_after_escape(buf: Seq<u8>, text: Seq<u8>)
    requires
        scanner_wf(ScanState::Escape(buf)),
        escape_free(text),
    ensures
        scan_bytes(ScanState::Escape(buf), paste_start() + text + paste_end()) == (
        ScanState::Normal,
        seq![ActionView::Forward(buf), ActionView::Paste(text)],
        ),
{
    lemma_bracketed_paste(ScanState::Escape(buf), seq![ActionView::Forward(buf)], text);
    assert(seq![ActionView::Forward(buf)] + seq![ActionView::Paste(text)] =~= seq![
        ActionView::Forward(buf),
        ActionView::Paste(text),
    ]);
}

/// Splits terminal input into typed bytes and bracketed pastes.
#[derive(Debug, Clone, PartialEq, Eq)]
pub struct PasteScanner {
    state: ScannerState,
}

impl View for PasteScanner {
    type V = ScanState;

    closed spec fn view(&self) -> ScanState {
        match self.state {
            ScannerState::Normal => ScanState::Normal,
            ScannerState::Escape(b) => ScanState::Escape(b@),
            ScannerState::Paste { bytes, possible_end } => ScanState::Paste {
                bytes: bytes@,
                possible_end: possible_end@,
            },
        }
    }
}

impl Default for PasteScanner {
    /// A scanner between escape sequences.
    fn default() -> (r: Self)
        ensures
            r@ == ScanState::Normal,
    {
        PasteScanner { state: ScannerState::Normal }
    }
}

/// A vector holding one byte.
fn one_byte(b: u8) -> (r: Vec<u8>)
    ensures
        r@ == seq![b],
{
    let mut v: Vec<u8> = Vec::new();
    v.push(b);
    v
}

impl PasteScanner {
    /// Feeds one input byte and returns what is to be handed on.
    pub fn feed_byte(&mut self, byte: u8) -> (r: Vec<InputAction>)
        ensures
            final(self)@ == scan_step(old(self)@, byte).0,
            actions_view(r@) == scan_step(old(self)@, byte).1,
    {
        let mut actions: Vec<InputAction> = Vec::new();
        let mut state = ScannerState::Normal;
        std::mem::swap(&mut state, &mut self.state);
        match state {
            ScannerState::Normal => {
                if byte == ESC {
                    self.state = ScannerState::Escape(one_byte(byte));
                } else {
                    actions.push(InputAction::Forward(one_byte(byte)));
                }
            },
            ScannerState::Escape(mut buffer) => {
                if byte == ESC {
                    actions.push(InputAction::Forward(buffer));
                    self.state = ScannerState::Escape(one_byte(byte));
                    assert(actions_view(actions@) =~= scan_step(old(self)@, byte).1);
                    return actions;
                }
                buffer.push(byte);
                if is_marker(&buffer, false) {
                    self.state = ScannerState::Paste { bytes: Vec::new(), possible_end: Vec::new() };
                } else if is_marker_prefix(&buffer, false) {
                    self.state = ScannerState::Escape(buffer);
                } else {
                    actions.push(InputAction::Forward(buffer));
                }
            },
            ScannerState::Paste { mut bytes, mut possible_end } => {
                if possible_end.len() > 0 || byte == ESC {
                    possible_end.push(byte);
                    if is_marker(&possible_end, true) {
                        actions.push(InputAction::Paste(bytes));
                    } else if is_marker_prefix(&possible_end, true) {
                        self.state = ScannerState::Paste { bytes, possible_end };
                    } else {
                        bytes.append(&mut possible_end);
                        self.state = ScannerState::Paste { bytes, possible_end };
                    }
                } else {
                    bytes.push(byte);
                    self.state = ScannerState::Paste { bytes, possible_end };
                }
            },
        }
        assert(actions_view(actions@) =~= scan_step(old(self)@, byte).1);
        actions
    }

    /// Feeds bytes one after the other, each by `feed_byte`, and returns all
    /// that is handed on, in order.
    pub fn feed_bytes(&mut self, bytes: &[u8]) -> (r: Vec<InputAction>)
        ensures
            final(self)@ == scan_bytes(old(self)@, bytes@).0,
            actions_view(r@) == scan_bytes(old(self)@, bytes@).1,
    {
        let ghost s0 = self@;
        let mut out: Vec<InputAction> = Vec::new();
        let mut i: usize = 0;
        assert(bytes@.take(0) =~= Seq::<u8>::empty());
        assert(actions_view(out@) =~= Seq::<ActionView>::empty());
        while i < bytes.len()
            invariant
                i <= bytes@.len(),
                self@ == scan_bytes(s0, bytes@.take(i as int)).0,
                actions_view(out@) == scan_bytes(s0, bytes@.take(i as int)).1,
            decreases bytes@.len() - i,
        {
            assert(bytes@.take(i + 1).drop_last() =~= bytes@.take(i as int));
            assert(bytes@.take(i + 1).last() == bytes@[i as int]);
            let ghost before = out@;
            let mut acts = self.feed_byte(bytes[i]);
            let ghost new_acts = acts@;
            out.append(&mut acts);
            assert(actions_view(out@) =~= actions_view(before) + actions_view(new_acts));
            i = i + 1;
        }
        assert(bytes@.take(i as int) =~= bytes@);
        out
    }
}

/// Whether `needle` occurs in `hay` at index `i`.
pub open spec fn bytes_occur_at(hay: Seq<u8>, needle: Seq<u8>, i: int) -> bool {
    0 <= i && i + needle.len() <= hay.len() && hay.subrange(i, i + needle.len()) == needle
}

/// Whether `needle` occurs in `hay`.
pub open spec fn contains_bytes(hay: Seq<u8>, needle: Seq<u8>) -> bool {
    exists|i: int| bytes_occur_at(hay, needle, i)
}

/// Whether `needle` occurs in `hay` at index `i`.
fn bytes_at(hay: &[u8], needle: &Vec<u8>, i: usize) -> (r: bool)
    requires
        i + needle@.len() <= hay@.len(),
    ensures
        r == bytes_occur_at(hay@, needle@, i as int),
{
    let hl: usize = hay.len();
    let mut k: usize = 0;
    while k < needle.len()
        invariant
            k <= needle@.len(),
            hl == hay@.len(),
            i + needle@.len() <= hay@.len(),
            forall|j: int| 0 <= j < k ==> hay@[i + j] == needle@[j],
        decreases needle@.len() - k,
    {
        if hay[i + k] != needle[k] {
            assert(hay@.subrange(i as int, i + needle@.len())[k as int] == hay@[i + k]);
            return false;
        }
        k = k + 1;
    }
    assert(hay@.subrange(i as int, i + needle@.len()) =~= needle@);
    true
}

/// Whether `needle` occurs in `hay`.
pub fn find_bytes(hay: &[u8], needle: &Vec<u8>) -> (r: bool)
    ensures
        r == contains_bytes(hay@, needle@),
{
    if needle.len() > hay.len() {
        return false;
    }
    let last = hay.len() - needle.len();
    let mut i: usize = 0;
    loop
        invariant
            i <= last,
            last + needle@.len() == hay@.len(),
            forall|j: int| 0 <= j < i ==> !bytes_occur_at(hay@, needle@, j),
        decreases last - i,
    {
        if bytes_at(hay, needle, i) {
            return true;
        }
        if i == last {
            assert forall|j: int| !bytes_occur_at(hay@, needle@, j) by {
                if 0 <= j && j + needle@.len() <= hay@.len() {
                    assert(j <= last);
                }
            }
            return false;
        }
        i = i + 1;
    }
}

/// `ESC[?` + `code` + `h` (switch to the alternate screen, `on`) or `l` (switch back).
pub open spec fn screen_marker(code: Seq<u8>, on: bool) -> Seq<u8> {
    seq![27u8, 91u8, 63u8] + code + seq![if on { 104u8 } else { 108u8 }]
}

/// The codes of the three alternate-screen modes: 1049, 1047 and 47.
pub open spec fn screen_code(kind: int) -> Seq<u8> {
    if kind == 0 {
        seq![49u8, 48u8, 52u8, 57u8]
    } else if kind == 1 {
        seq![49u8, 48u8, 52u8, 55u8]
    } else {
        seq![52u8, 55u8]
    }
}

/// Whether output holds a marker that switches the alternate screen on (`on`) or off.
pub open spec fn switches_screen(output: Seq<u8>, on: bool) -> bool {
    contains_bytes(output, screen_marker(screen_code(0), on)) || contains_bytes(
        output,
        screen_marker(screen_code(1), on),
    ) || contains_bytes(output, screen_marker(screen_code(2), on))
}

/// Whether the shell's output leaves a full-screen program running: a
/// switch-off marker in a chunk wins over a switch-on marker, and a chunk with
/// neither keeps the current mode.
pub open spec fn screen_after(output: Seq<u8>, current: bool) -> bool {
    if switches_screen(output, false) {
        false
    } else if switches_screen(output, true) {
        true
    } else {
        current
    }
}

/// The bytes of an alternate-screen marker.
fn screen_marker_bytes(kind: u8, on: bool) -> (r: Vec<u8>)
    requires
        kind < 3,
    ensures
        r@ == screen_marker(screen_code(kind as int), on),
{
    let mut v: Vec<u8> = Vec::new();
    v.push(27);
    v.push(91);
    v.push(63);
    if kind == 0 {
        v.push(49);
        v.push(48);
        v.push(52);
        v.push(57);
    } else if kind == 1 {
        v.push(49);
        v.push(48);
        v.push(52);
        v.push(55);
    } else {
        v.push(52);
        v.push(55);
    }
    v.push(if on { 104 } else { 108 });
    assert(v@ =~= screen_marker(screen_code(kind as int), on));
    v
}

/// Whether a chunk of output holds a marker that switches the alternate screen on (`on`) or off.
fn chunk_switches_screen(output: &[u8], on: bool) -> (r: bool)
    ensures
        r == switches_screen(output@, on),
{
    find_bytes(output, &screen_marker_bytes(0, on)) || find_bytes(output, &screen_marker_bytes(1, on))
        || find_bytes(output, &screen_marker_bytes(2, on))
}

/// Whether a full-screen program (Vim, less) runs after the shell wrote
/// `output`, given whether one ran before. The markers are ASCII, so searching
/// the bytes finds exactly what searching their lossy UTF-8 text finds.
pub fn update_alternate_screen(output: &[u8], current: bool) -> (r: bool)
    ensures
        r == screen_after(output@, current),
{
    let mut mode = current;
    if chunk_switches_screen(output, true) {
        mode = true;
    }
    if chunk_switches_screen(output, false) {
        mode = false;
    }
    mode
}

/// The text std's `String::from_utf8_lossy` makes of a byte string.
pub uninterp spec fn lossy_utf8(bytes: Seq<u8>) -> Seq<char>;

/// std's `String::from_utf8_lossy`: valid UTF-8 gives the text it encodes; the
/// result for other bytes (with U+FFFD for each invalid sequence) is named
/// `lossy_utf8` and not described further.
#[verifier::external_body]
fn lossy_text(bytes: &[u8]) -> (r: String)
    ensures
        r@ == lossy_utf8(bytes@),
        valid_utf8(bytes@) ==> r@ == decode_utf8(bytes@),
{
    String::from_utf8_lossy(bytes).into_owned()
}

/// Whether pasted text ends with a line break, which would run it at once.
pub open spec fn ends_in_line_break(t: Seq<char>) -> bool {
    t.len() > 0 && (t.last() == '\n' || t.last() == '\r')
}

/// What the user can answer to a paste warning.
#[derive(Debug, Clone, Copy, PartialEq, Eq, Structural)]
pub enum PasteChoice {
    Cancel,
    ShowDecoded,
    ExecuteAnyway,
}

/// ASCII upper-case letters made lower-case, other bytes kept.
pub open spec fn ascii_lower(b: u8) -> u8 {
    if 65 <= b <= 90 {
        (b + 32) as u8
    } else {
        b
    }
}

/// The answer a key press gives: `c`, Ctrl-C or Esc cancel, `s` shows the
/// decoded command, `e` executes; letters in either case; other keys are ignored.
pub open spec fn choice_of(b: u8) -> Option<PasteChoice> {
    let l = ascii_lower(b);
    if l == 99 || l == 3 || l == 27 {
        Some(PasteChoice::Cancel)
    } else if l == 115 {
        Some(PasteChoice::ShowDecoded)
    } else if l == 101 {
        Some(PasteChoice::ExecuteAnyway)
    } else {
        None
    }
}

/// The answer a key press gives, if any.
pub fn choice_for_byte(b: u8) -> (r: Option<PasteChoice>)
    ensures
        r == choice_of(b),
{
    let l = if 65 <= b && b <= 90 {
        b + 32
    } else {
        b
    };
    if l == 99 || l == 3 || l == 27 {
        Some(PasteChoice::Cancel)
    } else if l == 115 {
        Some(PasteChoice::ShowDecoded)
    } else if l == 101 {
        Some(PasteChoice::ExecuteAnyway)
    } else {
        None
    }
}

/// A held paste under review: its analysis, whether it ends with a line break,
/// and whether the decoded command text is shown.
#[derive(Debug, Clone)]
pub struct PasteReview {
    pub analysis: Analysis,
    pub trailing_newline: bool,
    pub show_decoded: bool,
}

/// The mathematical value of a `PasteReview`.
pub struct ReviewView {
    pub analysis: AnalysisView,
    pub trailing_newline: bool,
    pub show_decoded: bool,
}

impl View for PasteReview {
    type V = ReviewView;

    open spec fn view(&self) -> ReviewView {
        ReviewView {
            analysis: self.analysis@,
            trailing_newline: self.trailing_newline,
            show_decoded: self.show_decoded,
        }
    }
}

/// What happens to a paste when it arrives.
#[derive(Debug, Clone)]
pub enum PasteStart {
    /// The paste goes to the shell unchanged.
    Forward,
    /// The paste is held and the user is asked.
    Review(PasteReview),
}

/// Whether a paste is held: Medium and High findings interrupt, and so does a
/// trailing line break, which would run the paste at once.
pub open spec fn holds_paste(a: AnalysisView, trailing: bool) -> bool {
    a.severity.rank() >= Severity::Medium.rank() || trailing
}

/// A paste is held exactly when its analysis is Medium or High, or it ends
/// with a line break; a Safe or Low paste without one goes through.
pub proof fn paste_held_exactly_when_interrupting(a: AnalysisView, trailing: bool)
    ensures
        holds_paste(a, trailing) <==> (a.severity == Severity::Medium || a.severity == Severity::High || trailing),
        !trailing && (a.severity == Severity::Safe || a.severity == Severity::Low) ==> !holds_paste(a, trailing),
{
}

/// What the guarded terminal does with pasted text: it analyzes the text and
/// holds it, unasked-for display off, exactly when `holds_paste`.
#[verifier::rlimit(30)]
pub fn review_text(analyzer: &Analyzer, text: &str) -> (r: PasteStart)
    ensures
        ({
            let a = analysis_of(*analyzer, text@, 0);
            let t = ends_in_line_break(text@);
            &&& (r is Forward <==> (a.severity == Severity::Safe || a.severity == Severity::Low) && !t)
            &&& match r {
                PasteStart::Forward => !holds_paste(a, t),
                PasteStart::Review(rv) => holds_paste(a, t) && rv@ == ReviewView {
                    analysis: a,
                    trailing_newline: t,
                    show_decoded: false,
                },
            }
        }),
{
    let analysis = analyzer.analyze(text);
    let chars = crate::text::chars_of(text);
    let n = chars.len();
    let trailing = n > 0 && (chars[n - 1] == '\n' || chars[n - 1] == '\r');
    if !analysis.severity.should_interrupt() && !trailing {
        PasteStart::Forward
    } else {
        PasteStart::Review(PasteReview { analysis, trailing_newline: trailing, show_decoded: false })
    }
}

/// What the guarded terminal does with the bytes of a paste: their lossy
/// UTF-8 text is reviewed as `review_text` says.
pub fn review_paste(analyzer: &Analyzer, paste: &[u8]) -> (r: PasteStart)
    ensures
        ({
            let text = lossy_utf8(paste@);
            let a = analysis_of(*analyzer, text, 0);
            let t = ends_in_line_break(text);
            &&& (r is Forward <==> (a.severity == Severity::Safe || a.severity == Severity::Low) && !t)
            &&& match r {
                PasteStart::Forward => !holds_paste(a, t),
                PasteStart::Review(rv) => holds_paste(a, t) && rv@ == ReviewView {
                    analysis: a,
                    trailing_newline: t,
                    show_decoded: false,
                },
            }
        }),
{
    let text = lossy_text(paste);
    review_text(analyzer, text.as_str())
}

/// Where a review goes after an answer.
#[derive(Debug, Clone, Copy, PartialEq, Eq, Structural)]
pub enum ReviewOutcome {
    /// The paste is dropped.
    Canceled,
    /// The warning is shown again.
    ShowAgain,
    /// The paste goes to the shell.
    Execute,
}

/// The outcome of an answer.
pub open spec fn outcome_of(c: PasteChoice) -> ReviewOutcome {
    match c {
        PasteChoice::Cancel => ReviewOutcome::Canceled,
        PasteChoice::ShowDecoded => ReviewOutcome::ShowAgain,
        PasteChoice::ExecuteAnyway => ReviewOutcome::Execute,
    }
}

impl PasteReview {
    /// The warning to show for the held paste.
    pub fn prompt(&self) -> (r: String)
        ensures
            r@ == warning_text(self.analysis@, self.trailing_newline, self.show_decoded),
    {
        paste_warning(&self.analysis, self.trailing_newline, self.show_decoded)
    }

    /// Takes the user's answer: only `ExecuteAnyway` lets the paste through,
    /// and `ShowDecoded` turns on the decoded command text, all else unchanged.
    pub fn answer(&mut self, choice: PasteChoice) -> (r: ReviewOutcome)
        ensures
            r == outcome_of(choice),
            final(self)@ == (ReviewView {
                show_decoded: old(self).show_decoded || choice == PasteChoice::ShowDecoded,
                ..old(self)@
            }),
    {
        match choice {
            PasteChoice::Cancel => ReviewOutcome::Canceled,
            PasteChoice::ShowDecoded => {
                self.show_decoded = true;
                ReviewOutcome::ShowAgain
            },
            PasteChoice::ExecuteAnyway => ReviewOutcome::Execute,
        }
    }
}

/// The line printed when a review ends (`Canceled` or `Execute`); none otherwise.
pub open spec fn outcome_notice(o: ReviewOutcome) -> Seq<char> {
    match o {
        ReviewOutcome::Canceled => "\r\nPaste canceled.\r\n"@,
        ReviewOutcome::Execute => "\r\nExecuting pasted text.\r\n"@,
        ReviewOutcome::ShowAgain => ""@,
    }
}

/// The line printed when a review ends.
pub fn notice_for(o: ReviewOutcome) -> (r: &'static str)
    ensures
        r@ == outcome_notice(o),
{
    match o {
        ReviewOutcome::Canceled => "\r\nPaste canceled.\r\n",
        ReviewOutcome::Execute => "\r\nExecuting pasted text.\r\n",
        ReviewOutcome::ShowAgain => "",
    }
}

} // verus!
