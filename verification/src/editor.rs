//! The interactive line editor: classifying raw input bytes, and the
//! editing state machine over the current line, the cursor and the
//! history. Reading the terminal and drawing on it stay outside this
//! crate; the caller feeds events in and renders the state that comes out.

use vstd::prelude::*;

use vstd::utf8::{decode_utf8, valid_utf8};

verus! {

/// An event emitted from the input abstraction to the application.
pub enum Event {
    /// A command line was submitted.
    CommandReceived(String),
    /// Application exit was requested.
    ExitRequested,
}

/// Any object which can carry [Event] values to the application.
pub trait SendChannel: Send + 'static {
    /// Sends an [Event] to the underlying application.
    fn send(&self, event: Event);
}

/// One decoded keyboard event.
pub enum InputEvent {
    /// Input text to insert at the cursor.
    Input(String),
    /// The input stream ended.
    End,
    /// The line was submitted.
    NewLine,
    /// Completion was requested.
    Complete,
    /// Move one entry back in the history.
    HistoryPrev,
    /// Move one entry forward in the history.
    HistoryNext,
    /// Move the cursor to the start of the line.
    LineStart,
    /// Move the cursor to the end of the line.
    LineEnd,
    /// Move the cursor one place left.
    Left,
    /// Move the cursor one place right.
    Right,
    /// Delete the character left of the cursor.
    Delete,
}

/// What a run of raw input bytes asks for.
pub enum InputDecision {
    /// A complete event; the byte buffer is consumed.
    Emit(InputEvent),
    /// The end-of-transmission byte: the caller closes its input stream and
    /// keeps the buffer.
    CloseRequested,
    /// An unfinished escape sequence; more bytes are needed.
    Pending,
}

/// Relies on std's `String::from_utf8_lossy`: on valid UTF-8 the decoding
/// is exact; invalid sequences are replaced and nothing more is promised.
#[verifier::external_body]
fn bytes_to_text(buf: &[u8]) -> (r: String)
    ensures
        valid_utf8(buf@) ==> r@ == decode_utf8(buf@),
{
    String::from_utf8_lossy(buf).into_owned()
}

/// Whether a byte run is exactly the given bytes.
fn bytes_eq(buf: &[u8], pat: &[u8]) -> (r: bool)
    ensures
        r == (buf@ == pat@),
{
    if buf.len() != pat.len() {
        proof {
            assert(buf@.len() != pat@.len());
        }
        return false;
    }
    let n: usize = buf.len();
    let mut i: usize = 0;
    while i < n
        invariant
            0 <= i <= n,
            n == buf@.len() == pat@.len(),
            forall|j: int| 0 <= j < i ==> buf@[j] == pat@[j],
        decreases n - i,
    {
        if buf[i] != pat[i] {
            return false;
        }
        i = i + 1;
    }
    proof {
        assert(buf@ =~= pat@);
    }
    true
}

/// The shape of a classified input run, without payloads.
pub ghost enum DecisionSpec {
    /// The end-of-transmission byte.
    Close,
    /// A known control sequence, decoded to this event.
    Left,
    Right,
    Complete,
    HistoryPrev,
    HistoryNext,
    LineStart,
    LineEnd,
    NewLine,
    Delete,
    /// Plain text to insert.
    Text,
    /// An unfinished escape sequence.
    Pending,
}

/// The control sequences the editor understands, by their raw bytes.
pub open spec fn spec_decode(buf: Seq<u8>) -> DecisionSpec {
    if buf == seq![4u8] {
        DecisionSpec::Close
    } else if buf == seq![27u8, 91u8, 68u8] {
        DecisionSpec::Left
    } else if buf == seq![27u8, 91u8, 67u8] {
        DecisionSpec::Right
    } else if buf == seq![9u8] {
        DecisionSpec::Complete
    } else if buf == seq![27u8, 91u8, 65u8] {
        DecisionSpec::HistoryPrev
    } else if buf == seq![27u8, 91u8, 66u8] {
        DecisionSpec::HistoryNext
    } else if buf == seq![27u8, 91u8, 72u8] {
        DecisionSpec::LineStart
    } else if buf == seq![27u8, 91u8, 70u8] {
        DecisionSpec::LineEnd
    } else if buf == seq![10u8] {
        DecisionSpec::NewLine
    } else if buf == seq![127u8] {
        DecisionSpec::Delete
    } else if buf[0] != 27u8 {
        DecisionSpec::Text
    } else {
        DecisionSpec::Pending
    }
}

/// Classifies a run of raw input bytes: the known control sequences become
/// their events, a run not opening an escape sequence becomes text to
/// insert (decoded exactly when it is valid UTF-8), and an unfinished
/// escape sequence asks for more bytes.
pub fn decode_input(buf: &[u8]) -> (r: InputDecision)
    requires
        buf@.len() >= 1,
    ensures
        match spec_decode(buf@) {
            DecisionSpec::Close => r == InputDecision::CloseRequested,
            DecisionSpec::Left => r == InputDecision::Emit(InputEvent::Left),
            DecisionSpec::Right => r == InputDecision::Emit(InputEvent::Right),
            DecisionSpec::Complete => r == InputDecision::Emit(InputEvent::Complete),
            DecisionSpec::HistoryPrev => r == InputDecision::Emit(InputEvent::HistoryPrev),
            DecisionSpec::HistoryNext => r == InputDecision::Emit(InputEvent::HistoryNext),
            DecisionSpec::LineStart => r == InputDecision::Emit(InputEvent::LineStart),
            DecisionSpec::LineEnd => r == InputDecision::Emit(InputEvent::LineEnd),
            DecisionSpec::NewLine => r == InputDecision::Emit(InputEvent::NewLine),
            DecisionSpec::Delete => r == InputDecision::Emit(InputEvent::Delete),
            DecisionSpec::Text => (r matches InputDecision::Emit(e) && (e matches
                InputEvent::Input(s) && (valid_utf8(buf@) ==> s@ == decode_utf8(buf@)))),
            DecisionSpec::Pending => r == InputDecision::Pending,
        },
{
    let code_eot: [u8; 1] = [4u8];
    let code_left: [u8; 3] = [27u8, 91u8, 68u8];
    let code_right: [u8; 3] = [27u8, 91u8, 67u8];
    let code_tab: [u8; 1] = [9u8];
    let code_up: [u8; 3] = [27u8, 91u8, 65u8];
    let code_down: [u8; 3] = [27u8, 91u8, 66u8];
    let code_home: [u8; 3] = [27u8, 91u8, 72u8];
    let code_end: [u8; 3] = [27u8, 91u8, 70u8];
    let code_newline: [u8; 1] = [10u8];
    let code_delete: [u8; 1] = [127u8];
    proof {
        assert(code_eot@ =~= seq![4u8]);
        assert(code_left@ =~= seq![27u8, 91u8, 68u8]);
        assert(code_right@ =~= seq![27u8, 91u8, 67u8]);
        assert(code_tab@ =~= seq![9u8]);
        assert(code_up@ =~= seq![27u8, 91u8, 65u8]);
        assert(code_down@ =~= seq![27u8, 91u8, 66u8]);
        assert(code_home@ =~= seq![27u8, 91u8, 72u8]);
        assert(code_end@ =~= seq![27u8, 91u8, 70u8]);
        assert(code_newline@ =~= seq![10u8]);
        assert(code_delete@ =~= seq![127u8]);
    }
    if bytes_eq(buf, code_eot.as_slice()) {
        InputDecision::CloseRequested
    } else if bytes_eq(buf, code_left.as_slice()) {
        InputDecision::Emit(InputEvent::Left)
    } else if bytes_eq(buf, code_right.as_slice()) {
        InputDecision::Emit(InputEvent::Right)
    } else if bytes_eq(buf, code_tab.as_slice()) {
        InputDecision::Emit(InputEvent::Complete)
    } else if bytes_eq(buf, code_up.as_slice()) {
        InputDecision::Emit(InputEvent::HistoryPrev)
    } else if bytes_eq(buf, code_down.as_slice()) {
        InputDecision::Emit(InputEvent::HistoryNext)
    } else if bytes_eq(buf, code_home.as_slice()) {
        InputDecision::Emit(InputEvent::LineStart)
    } else if bytes_eq(buf, code_end.as_slice()) {
        InputDecision::Emit(InputEvent::LineEnd)
    } else if bytes_eq(buf, code_newline.as_slice()) {
        InputDecision::Emit(InputEvent::NewLine)
    } else if bytes_eq(buf, code_delete.as_slice()) {
        InputDecision::Emit(InputEvent::Delete)
    } else if *vstd::slice::slice_index_get(buf, 0) != 27u8 {
        InputDecision::Emit(InputEvent::Input(bytes_to_text(buf)))
    } else {
        InputDecision::Pending
    }
}

/// What the application must do after the editor handled one event.
pub enum EditorEffect {
    /// Nothing outward; redraw from the editor's state.
    Redraw,
    /// Print a line break, show a fresh prompt, and hand the submitted
    /// command to the application.
    Submitted(Event),
    /// Tell the user completion is not available.
    Unsupported,
    /// Hand the event to the application and stop the editing loop.
    Stop(Event),
    /// Nothing changed at all.
    Quiet,
}

/// The editing state: the history of submitted lines, the index the
/// history navigation stands at, the line being edited and the cursor
/// position in it.
pub struct LineEditor {
    history: Vec<String>,
    hindex: usize,
    cur_line: String,
    pos: usize,
}

impl LineEditor {
    /// The submitted lines, oldest first.
    pub closed spec fn history_view(&self) -> Seq<Seq<char>> {
        self.history@.map_values(|s: String| s@)
    }

    /// Where the history navigation stands; equal to the history's length
    /// when no entry is being recalled.
    pub closed spec fn hindex_view(&self) -> nat {
        self.hindex as nat
    }

    /// The line being edited.
    pub closed spec fn line_view(&self) -> Seq<char> {
        self.cur_line@
    }

    /// The cursor position, in characters from the line's start.
    pub closed spec fn pos_view(&self) -> nat {
        self.pos as nat
    }

    /// The cursor stays inside the line and the history index inside the
    /// history.
    pub closed spec fn wf(&self) -> bool {
        &&& self.pos <= self.cur_line@.len()
        &&& self.hindex <= self.history@.len()
        &&& self.cur_line@.len() < usize::MAX
        &&& self.history@.len() < usize::MAX
        &&& forall|i: int| 0 <= i < self.history@.len() ==> (#[trigger] self.history@[i])@.len() < usize::MAX
    }

    /// A fresh editor: empty line, empty history, cursor at the start.
    pub fn new() -> (r: LineEditor)
        ensures
            r.wf(),
            r.history_view() == Seq::<Seq<char>>::empty(),
            r.hindex_view() == 0,
            r.line_view() == Seq::<char>::empty(),
            r.pos_view() == 0,
    {
        let r = LineEditor { history: Vec::new(), hindex: 0, cur_line: String::new(), pos: 0 };
        proof {
            assert(r.history_view() =~= Seq::<Seq<char>>::empty());
        }
        r
    }

    /// The line being edited, for rendering.
    pub fn line(&self) -> (r: &str)
        ensures
            r@ == self.line_view(),
    {
        self.cur_line.as_str()
    }

    /// The cursor position, for rendering.
    pub fn pos(&self) -> (r: usize)
        ensures
            r as nat == self.pos_view(),
    {
        self.pos
    }

    /// Applies one input event to the editing state and says what the
    /// caller must now do. Submitting a line appends it to the history and
    /// clears the line; history navigation recalls entries and puts the
    /// cursor at their end; text is inserted at the cursor; deletion takes
    /// the character left of the cursor; the cursor never leaves the line.
    #[verifier::loop_isolation(false)]
    pub fn handle(&mut self, event: InputEvent) -> (r: EditorEffect)
        requires
            old(self).wf(),
            old(self).history_view().len() + 1 < usize::MAX,
            event matches InputEvent::Input(s) ==> old(self).line_view().len() + s@.len() + 1
                < usize::MAX,
        ensures
            final (self).wf(),
            match event {
                InputEvent::End => r == EditorEffect::Stop(Event::ExitRequested) && *final (self)
                    == *old(self),
                InputEvent::NewLine => {
                    &&& (r matches EditorEffect::Submitted(ev) && ev matches
                        Event::CommandReceived(line) && line@ == old(self).line_view())
                    &&& final (self).history_view() == old(self).history_view().push(
                        old(self).line_view(),
                    )
                    &&& final (self).hindex_view() == final (self).history_view().len()
                    &&& final (self).line_view() == Seq::<char>::empty()
                    &&& final (self).pos_view() == 0
                },
                InputEvent::Complete => r == EditorEffect::Unsupported && *final (self) == *old(self),
                InputEvent::Input(s) => {
                    &&& r == EditorEffect::Redraw
                    &&& final (self).line_view() == old(self).line_view().take(
                        old(self).pos_view() as int,
                    ) + s@ + old(self).line_view().skip(old(self).pos_view() as int)
                    &&& final (self).pos_view() == old(self).pos_view() + s@.len()
                    &&& final (self).history_view() == old(self).history_view()
                    &&& final (self).hindex_view() == old(self).hindex_view()
                },
                InputEvent::Left => {
                    &&& (old(self).pos_view() == 0 ==> r == EditorEffect::Quiet && *final (self)
                        == *old(self))
                    &&& (old(self).pos_view() > 0 ==> r == EditorEffect::Redraw && final (self).pos_view() == old(self).pos_view() - 1 && final (self).line_view() == old(
                        self,
                    ).line_view() && final (self).history_view() == old(self).history_view())
                },
                InputEvent::Right => {
                    &&& (old(self).pos_view() >= old(self).line_view().len() ==> r
                        == EditorEffect::Quiet && *final (self) == *old(self))
                    &&& (old(self).pos_view() < old(self).line_view().len() ==> r
                        == EditorEffect::Redraw && final (self).pos_view() == old(self).pos_view()
                        + 1 && final (self).line_view() == old(self).line_view() && final (self).history_view() == old(self).history_view())
                },
                InputEvent::Delete => {
                    &&& (old(self).pos_view() == 0 ==> r == EditorEffect::Quiet && *final (self)
                        == *old(self))
                    &&& (old(self).pos_view() > 0 ==> r == EditorEffect::Redraw && final (self).line_view() == old(self).line_view().take(
                        old(self).pos_view() - 1,
                    ) + old(self).line_view().skip(old(self).pos_view() as int) && final (self).pos_view() == old(self).pos_view() - 1 && final (self).history_view() == old(
                        self,
                    ).history_view())
                },
                InputEvent::LineStart => {
                    &&& r == EditorEffect::Redraw
                    &&& final (self).pos_view() == 0
                    &&& final (self).line_view() == old(self).line_view()
                    &&& final (self).history_view() == old(self).history_view()
                },
                InputEvent::LineEnd => {
                    &&& r == EditorEffect::Redraw
                    &&& final (self).pos_view() == old(self).line_view().len()
                    &&& final (self).line_view() == old(self).line_view()
                    &&& final (self).history_view() == old(self).history_view()
                },
                InputEvent::HistoryPrev => {
                    &&& (old(self).history_view().len() == 0 ==> r == EditorEffect::Quiet
                        && *final (self) == *old(self))
                    &&& (old(self).history_view().len() > 0 ==> {
                        let idx = if old(self).hindex_view() > 0 {
                            (old(self).hindex_view() - 1) as nat
                        } else {
                            0nat
                        };
                        &&& r == EditorEffect::Redraw
                        &&& final (self).hindex_view() == idx
                        &&& final (self).line_view() == old(self).history_view()[idx as int]
                        &&& final (self).pos_view() == final (self).line_view().len()
                        &&& final (self).history_view() == old(self).history_view()
                    })
                },
                InputEvent::HistoryNext => {
                    &&& (old(self).history_view().len() == 0 ==> r == EditorEffect::Quiet
                        && *final (self) == *old(self))
                    &&& (old(self).history_view().len() > 0 ==> {
                        let idx = if old(self).hindex_view() < old(self).history_view().len() {
                            old(self).hindex_view() + 1
                        } else {
                            old(self).hindex_view()
                        };
                        &&& final (self).history_view() == old(self).history_view()
                        &&& final (self).hindex_view() == idx
                        &&& (idx == old(self).history_view().len() ==> r == EditorEffect::Redraw
                            && final (self).line_view() == Seq::<char>::empty() && final (self).pos_view() == 0)
                        &&& (idx < old(self).history_view().len() ==> r == EditorEffect::Redraw
                            && final (self).line_view() == old(self).history_view()[idx as int]
                            && final (self).pos_view() == final (self).line_view().len())
                    })
                },
            },
    {
        match event {
            InputEvent::End => EditorEffect::Stop(Event::ExitRequested),
            InputEvent::NewLine => {
                let line = self.cur_line.clone();
                self.history.push(self.cur_line.clone());
                self.hindex = self.history.len();
                self.cur_line = String::new();
                self.pos = 0;
                proof {
                    assert(self.history_view() =~= old(self).history_view().push(
                        old(self).line_view(),
                    ));
                }
                EditorEffect::Submitted(Event::CommandReceived(line))
            },
            InputEvent::Complete => EditorEffect::Unsupported,
            InputEvent::Input(s) => {
                let len: usize = self.cur_line.as_str().unicode_len();
                let slen: usize = s.as_str().unicode_len();
                let head = self.cur_line.as_str().substring_char(0, self.pos);
                let tail = self.cur_line.as_str().substring_char(self.pos, len);
                let rebuilt = String::from_str(head).concat(s.as_str()).concat(tail);
                self.cur_line = rebuilt;
                self.pos = self.pos + slen;
                EditorEffect::Redraw
            },
            InputEvent::Left => {
                if self.pos == 0 {
                    EditorEffect::Quiet
                } else {
                    self.pos = self.pos - 1;
                    EditorEffect::Redraw
                }
            },
            InputEvent::Right => {
                let len: usize = self.cur_line.as_str().unicode_len();
                if self.pos >= len {
                    EditorEffect::Quiet
                } else {
                    self.pos = self.pos + 1;
                    EditorEffect::Redraw
                }
            },
            InputEvent::Delete => {
                if self.pos == 0 {
                    EditorEffect::Quiet
                } else {
                    let len: usize = self.cur_line.as_str().unicode_len();
                    let head = self.cur_line.as_str().substring_char(0, self.pos - 1);
                    let tail = self.cur_line.as_str().substring_char(self.pos, len);
                    let rebuilt = String::from_str(head).concat(tail);
                    self.cur_line = rebuilt;
                    self.pos = self.pos - 1;
                    EditorEffect::Redraw
                }
            },
            InputEvent::LineStart => {
                self.pos = 0;
                EditorEffect::Redraw
            },
            InputEvent::LineEnd => {
                self.pos = self.cur_line.as_str().unicode_len();
                EditorEffect::Redraw
            },
            InputEvent::HistoryPrev => {
                if self.history.len() == 0 {
                    EditorEffect::Quiet
                } else {
                    if self.hindex != 0 {
                        self.hindex = self.hindex - 1;
                    }
                    proof {
                        assert(self.history_view()[self.hindex as int] == self.history@[self.hindex as int]@);
                    }
                    self.cur_line = self.history[self.hindex].clone();
                    self.pos = self.cur_line.as_str().unicode_len();
                    EditorEffect::Redraw
                }
            },
            InputEvent::HistoryNext => {
                if self.history.len() == 0 {
                    EditorEffect::Quiet
                } else {
                    if self.hindex != self.history.len() {
                        self.hindex = self.hindex + 1;
                    }
                    if self.hindex == self.history.len() {
                        self.cur_line = String::new();
                        self.pos = 0;
                        EditorEffect::Redraw
                    } else {
                        proof {
                            assert(self.history_view()[self.hindex as int] == self.history@[self.hindex as int]@);
                        }
                        self.cur_line = self.history[self.hindex].clone();
                        self.pos = self.cur_line.as_str().unicode_len();
                        EditorEffect::Redraw
                    }
                }
            },
        }
    }
}

/// The part of the edited line that fits the terminal.
pub enum Window {
    /// Show the slice between these two positions.
    StartEnd(usize, usize),
    /// Show everything from this position on.
    Start(usize),
    /// The whole line fits.
    Full,
}

/// Shrinks the window towards the front until its end fits the line.
pub open spec fn spec_shrink(start: int, end: int, len: int) -> (int, int)
    decreases (if end >= len {
        end - len + 1
    } else {
        0
    }),
{
    if end >= len && end > 0 {
        spec_shrink(if start > 0 { start - 1 } else { 0 }, end - 1, len)
    } else {
        (start, end)
    }
}

/// Picks the visible window of the edited line: everything when it fits,
/// its tail when the cursor stands at the end, and otherwise a slice
/// around the cursor shrunk to the line's end.
pub fn string_window(pos: usize, col: usize, prompt: &str, line: &str) -> (r: Window)
    requires
        col >= prompt@.len() + 2,
        pos + col < usize::MAX,
    ensures
        ({
            let maxsize = col - prompt@.len() - 1;
            let len = line@.len();
            if len > maxsize {
                if pos >= len {
                    r matches Window::Start(s) && s == len - maxsize
                } else {
                    r matches Window::StartEnd(s, e) && (s as int, e as int) == spec_shrink(
                        pos as int,
                        pos + maxsize,
                        len as int,
                    )
                }
            } else {
                r matches Window::Full
            }
        }),
{
    let plen: usize = prompt.unicode_len();
    let maxsize: usize = col - plen - 1;
    let len: usize = line.unicode_len();
    if len > maxsize {
        if pos >= len {
            Window::Start(len - maxsize)
        } else {
            let mut start: usize = pos;
            let mut end: usize = pos + maxsize;
            while end >= len
                invariant
                    0 <= start,
                    len >= 1,
                    spec_shrink(pos as int, pos + maxsize, len as int) == spec_shrink(
                        start as int,
                        end as int,
                        len as int,
                    ),
                decreases end,
            {
                end = end - 1;
                if start > 0 {
                    start = start - 1;
                }
            }
            Window::StartEnd(start, end)
        }
    } else {
        Window::Full
    }
}

/// The escape sequence that clears the rest of the current line.
pub fn clear_remaining() -> (r: String)
    ensures
        r@ == "\u{1b}[K"@,
{
    String::from_str("\u{1b}[K")
}

} // verus!

verus! {

/// One decimal digit as its character.
pub open spec fn spec_digit_char(d: int) -> char {
    if d == 0 {
        '0'
    } else if d == 1 {
        '1'
    } else if d == 2 {
        '2'
    } else if d == 3 {
        '3'
    } else if d == 4 {
        '4'
    } else if d == 5 {
        '5'
    } else if d == 6 {
        '6'
    } else if d == 7 {
        '7'
    } else if d == 8 {
        '8'
    } else {
        '9'
    }
}

/// The decimal writing of a number, most significant digit first.
pub open spec fn spec_dec(n: int) -> Seq<char>
    decreases n,
{
    if n < 10 {
        seq![spec_digit_char(n)]
    } else {
        spec_dec(n / 10) + seq![spec_digit_char(n % 10)]
    }
}

fn digit_char(d: u32) -> (r: char)
    requires
        d < 10,
    ensures
        r == spec_digit_char(d as int),
{
    if d == 0 {
        '0'
    } else if d == 1 {
        '1'
    } else if d == 2 {
        '2'
    } else if d == 3 {
        '3'
    } else if d == 4 {
        '4'
    } else if d == 5 {
        '5'
    } else if d == 6 {
        '6'
    } else if d == 7 {
        '7'
    } else if d == 8 {
        '8'
    } else {
        '9'
    }
}

/// Pushing a digit in front of a reversal.
proof fn lemma_reverse_push(s: Seq<char>, c: char)
    ensures
        s.push(c).reverse() == seq![c] + s.reverse(),
{
    assert(s.push(c).reverse() =~= seq![c] + s.reverse());
}

/// The decimal writing of a number, exactly as `spec_dec` says.
#[verifier::loop_isolation(false)]
pub fn dec_string(n: u32) -> (r: String)
    ensures
        r@ == spec_dec(n as int),
{
    let mut digits: Vec<char> = Vec::new();
    digits.push(digit_char(n % 10));
    let mut m: u32 = n / 10;
    proof {
        lemma_reverse_push(Seq::empty(), spec_digit_char(n as int % 10));
        assert(Seq::<char>::empty().reverse() =~= Seq::<char>::empty());
        assert(digits@ =~= Seq::<char>::empty().push(spec_digit_char(n as int % 10)));
        assert(seq![spec_digit_char(n as int % 10)] + Seq::<char>::empty() =~= seq![
            spec_digit_char(n as int % 10),
        ]);
        if n < 10 {
            assert(n as int % 10 == n as int);
        }
    }
    while m > 0
        invariant
            m > 0 ==> spec_dec(n as int) == spec_dec(m as int) + digits@.reverse(),
            m == 0 ==> spec_dec(n as int) == digits@.reverse(),
        decreases m,
    {
        let ghost old_digits = digits@;
        digits.push(digit_char(m % 10));
        proof {
            lemma_reverse_push(old_digits, spec_digit_char(m as int % 10));
            if m >= 10 {
                assert(spec_dec(m as int) == spec_dec(m as int / 10) + seq![
                    spec_digit_char(m as int % 10),
                ]);
                assert(spec_dec(m as int / 10) + (seq![spec_digit_char(m as int % 10)]
                    + old_digits.reverse()) =~= spec_dec(m as int) + old_digits.reverse());
            } else {
                assert(spec_dec(m as int) == seq![spec_digit_char(m as int)]);
                assert(m as int % 10 == m as int);
                assert(seq![spec_digit_char(m as int)] + old_digits.reverse() =~= spec_dec(
                    m as int,
                ) + old_digits.reverse());
            }
        }
        m = m / 10;
    }
    let total: usize = digits.len();
    let mut out = String::new();
    let mut j: usize = total;
    while j > 0
        invariant
            0 <= j <= total,
            total == digits@.len(),
            out@.len() == total - j,
            forall|i: int| 0 <= i < total - j ==> out@[i] == digits@[total - 1 - i],
        decreases j,
    {
        crate::strutil::push_char(&mut out, digits[j - 1]);
        j = j - 1;
    }
    proof {
        assert(out@ =~= digits@.reverse());
    }
    out
}

/// The escape sequence that moves the terminal cursor to column `x` of
/// row `y`.
pub fn move_cursor(x: u32, y: u32) -> (r: String)
    requires
        x < 0xffff_ffff,
    ensures
        r@ == "\u{1b}["@ + spec_dec(y as int) + ";"@ + spec_dec(x + 1) + "H"@,
{
    let row = dec_string(y);
    let col = dec_string(x + 1);
    String::from_str("\u{1b}[").concat(row.as_str()).concat(";").concat(col.as_str()).concat("H")
}

} // verus!
