use vstd::prelude::*;
use arrayvec::ArrayString;

verus! {

/// Capacity of the line buffer, in bytes of UTF-8.
pub const LINE_CAPACITY: usize = 1024;

/// The byte that ends a line.
pub const NEWLINE: u8 = 0x0A;

/// Bytes that `c` takes in UTF-8.
pub open spec fn utf8_len(c: char) -> nat {
    if (c as u32) < 0x80 {
        1
    } else if (c as u32) < 0x800 {
        2
    } else if (c as u32) < 0x10000 {
        3
    } else {
        4
    }
}

/// Bytes that `s` takes in UTF-8.
pub open spec fn text_len(s: Seq<char>) -> nat
    decreases s.len(),
{
    if s.len() == 0 {
        0
    } else {
        text_len(s.drop_last()) + utf8_len(s.last())
    }
}

proof fn lemma_text_len_push(s: Seq<char>, c: char)
    ensures
        text_len(s.push(c)) == text_len(s) + utf8_len(c),
{
    assert(s.push(c).drop_last() =~= s);
}

/// A fixed-capacity string of 1024 bytes, kept in arrayvec's `ArrayString`.
#[verifier::external_body]
pub struct TextBuf {
    s: ArrayString<[u8; 1024]>,
}

/// The characters that a `TextBuf` holds.
pub uninterp spec fn text_of(b: TextBuf) -> Seq<char>;

/// Relies on `ArrayString::new`: the string starts empty.
#[verifier::external_body]
fn text_new() -> (r: TextBuf)
    ensures
        text_of(r) == Seq::<char>::empty(),
{
    TextBuf { s: ArrayString::new() }
}

/// Relies on `ArrayString::try_push`: `c` is appended when its UTF-8 bytes
/// fit in what is left of the capacity; otherwise the string is unchanged.
#[verifier::external_body]
fn text_try_push(b: &mut TextBuf, c: char) -> (r: bool)
    ensures
        r == (text_len(text_of(*old(b))) + utf8_len(c) <= LINE_CAPACITY),
        r ==> text_of(*final(b)) == text_of(*old(b)).push(c),
        !r ==> text_of(*final(b)) == text_of(*old(b)),
{
    b.s.try_push(c).is_ok()
}

/// Relies on `ArrayString::clear`: the string becomes empty.
#[verifier::external_body]
fn text_clear(b: &mut TextBuf)
    ensures
        text_of(*final(b)) == Seq::<char>::empty(),
{
    b.s.clear()
}

/// Relies on `ArrayString::as_str`: the characters held, as a `String`.
#[verifier::external_body]
fn text_to_string(b: &TextBuf) -> (r: String)
    ensures
        r@ == text_of(*b),
{
    String::from(b.s.as_str())
}

/// The character that a received byte stands for.
pub open spec fn byte_char(b: u8) -> char {
    b as char
}

/// The buffer after an attempt to append byte `b`: it is dropped when its
/// character does not fit.
pub open spec fn pushed(s: Seq<char>, b: u8) -> Seq<char> {
    if text_len(s) + utf8_len(byte_char(b)) <= LINE_CAPACITY {
        s.push(byte_char(b))
    } else {
        s
    }
}

/// The buffer after byte `b`: a newline empties it, any other byte is
/// appended if it fits.
pub open spec fn feed(s: Seq<char>, b: u8) -> Seq<char> {
    if b == NEWLINE {
        Seq::empty()
    } else {
        pushed(s, b)
    }
}

/// The line that byte `b` flushes from buffer `s`, if any.
pub open spec fn flushed(s: Seq<char>, b: u8) -> Option<Seq<char>> {
    if b == NEWLINE {
        Some(s)
    } else {
        None
    }
}

/// The buffer after feeding every byte of `bs`, in order.
pub open spec fn feed_all(s: Seq<char>, bs: Seq<u8>) -> Seq<char>
    decreases bs.len(),
{
    if bs.len() == 0 {
        s
    } else {
        feed(feed_all(s, bs.drop_last()), bs.last())
    }
}

/// The lines flushed while feeding every byte of `bs`, in order.
pub open spec fn lines_of(s: Seq<char>, bs: Seq<u8>) -> Seq<Seq<char>>
    decreases bs.len(),
{
    if bs.len() == 0 {
        Seq::empty()
    } else {
        let before = feed_all(s, bs.drop_last());
        match flushed(before, bs.last()) {
            Some(l) => lines_of(s, bs.drop_last()).push(l),
            None => lines_of(s, bs.drop_last()),
        }
    }
}

/// The characters that the bytes `bs` stand for.
pub open spec fn chars_of(bs: Seq<u8>) -> Seq<char> {
    bs.map_values(|b: u8| byte_char(b))
}

/// Whether no byte of `bs` is a newline.
pub open spec fn no_newline(bs: Seq<u8>) -> bool {
    forall|i: int| 0 <= i < bs.len() ==> bs[i] != NEWLINE
}

/// Whether every byte of `bs` is ASCII.
pub open spec fn is_ascii(bs: Seq<u8>) -> bool {
    forall|i: int| 0 <= i < bs.len() ==> bs[i] < 0x80
}

proof fn lemma_ascii_text_len(bs: Seq<u8>)
    requires
        is_ascii(bs),
    ensures
        text_len(chars_of(bs)) == bs.len(),
    decreases bs.len(),
{
    if bs.len() > 0 {
        assert(chars_of(bs).drop_last() =~= chars_of(bs.drop_last()));
        lemma_ascii_text_len(bs.drop_last());
    }
}

/// Bytes without a newline never flush: the lines they yield are none, and
/// the buffer only grows by appending.
pub proof fn lemma_no_newline_no_flush(s: Seq<char>, bs: Seq<u8>)
    requires
        no_newline(bs),
    ensures
        lines_of(s, bs) == Seq::<Seq<char>>::empty(),
        s.is_prefix_of(feed_all(s, bs)),
    decreases bs.len(),
{
    if bs.len() > 0 {
        lemma_no_newline_no_flush(s, bs.drop_last());
        let before = feed_all(s, bs.drop_last());
        assert(bs.last() != NEWLINE);
        if text_len(before) + utf8_len(byte_char(bs.last())) <= LINE_CAPACITY {
            assert(s.is_prefix_of(before.push(byte_char(bs.last()))));
        }
    }
}

/// Bytes without a newline, then one newline, flush exactly once: the line is
/// what the bytes had collected, and the buffer is left empty.
pub proof fn lemma_line_flushed_once(s: Seq<char>, bs: Seq<u8>)
    requires
        no_newline(bs),
    ensures
        lines_of(s, bs.push(NEWLINE)) == seq![feed_all(s, bs)],
        feed_all(s, bs.push(NEWLINE)) == Seq::<char>::empty(),
{
    lemma_no_newline_no_flush(s, bs);
    assert(bs.push(NEWLINE).drop_last() =~= bs);
    assert(seq![feed_all(s, bs)] =~= Seq::<Seq<char>>::empty().push(feed_all(s, bs)));
}

/// From an empty buffer, ASCII bytes without a newline collect exactly their
/// first 1024 characters: bytes beyond the capacity are absent.
pub proof fn lemma_ascii_line_clipped(bs: Seq<u8>)
    requires
        no_newline(bs),
        is_ascii(bs),
    ensures
        feed_all(Seq::empty(), bs) == chars_of(
            bs.take(if bs.len() <= LINE_CAPACITY { bs.len() as int } else { LINE_CAPACITY as int }),
        ),
    decreases bs.len(),
{
    if bs.len() > 0 {
        let prefix = bs.drop_last();
        let m: int = if prefix.len() <= LINE_CAPACITY { prefix.len() as int } else { LINE_CAPACITY as int };
        lemma_ascii_line_clipped(prefix);
        assert(is_ascii(prefix.take(m)));
        lemma_ascii_text_len(prefix.take(m));
        assert(bs.last() != NEWLINE);
        assert(bs.last() < 0x80);
        if prefix.len() < LINE_CAPACITY {
            assert(chars_of(prefix.take(m)).push(byte_char(bs.last())) =~= chars_of(bs.take(m + 1)));
        } else {
            assert(prefix.take(m) =~= bs.take(LINE_CAPACITY as int));
        }
    }
}

/// Two newlines in a row flush the collected text and then one empty line,
/// leaving the buffer empty.
pub proof fn lemma_double_flush(s: Seq<char>)
    ensures
        lines_of(s, seq![NEWLINE, NEWLINE]) == seq![s, Seq::<char>::empty()],
        feed_all(s, seq![NEWLINE, NEWLINE]) == Seq::<char>::empty(),
{
    let bs = seq![NEWLINE, NEWLINE];
    assert(bs.drop_last() =~= seq![NEWLINE]);
    assert(seq![NEWLINE].drop_last() =~= Seq::<u8>::empty());
    assert(feed_all(s, Seq::<u8>::empty()) == s);
    assert(lines_of(s, Seq::<u8>::empty()) == Seq::<Seq<char>>::empty());
    assert(seq![NEWLINE].last() == NEWLINE);
    assert(lines_of(s, seq![NEWLINE]) =~= seq![s]);
    assert(seq![s].push(Seq::<char>::empty()) =~= seq![s, Seq::<char>::empty()]);
}

/// A hardware receive fault on the serial line.
#[derive(Clone, Copy, Debug, PartialEq, Eq, Structural)]
pub enum RxError {
    Overrun,
    Framing,
    Noise,
    Parity,
}

impl RxError {
    pub open spec fn spec_marker(self) -> u8 {
        match self {
            RxError::Overrun => 0x4F,
            RxError::Framing => 0x46,
            RxError::Noise => 0x4E,
            RxError::Parity => 0x50,
        }
    }

    /// The byte that stands for this fault in the text: `O`, `F`, `N` or `P`.
    pub fn marker(self) -> (r: u8)
        ensures
            r == self.spec_marker(),
    {
        match self {
            RxError::Overrun => 0x4F,
            RxError::Framing => 0x46,
            RxError::Noise => 0x4E,
            RxError::Parity => 0x50,
        }
    }
}

/// Collects received bytes into newline-terminated lines.
pub struct LineAssembler {
    buf: TextBuf,
}

impl View for LineAssembler {
    type V = Seq<char>;

    closed spec fn view(&self) -> Seq<char> {
        text_of(self.buf)
    }
}

impl LineAssembler {
    /// The buffer never holds more than its capacity.
    pub open spec fn wf(&self) -> bool {
        text_len(self@) <= LINE_CAPACITY
    }

    /// An assembler with an empty buffer.
    pub fn new() -> (r: Self)
        ensures
            r@ == Seq::<char>::empty(),
            r.wf(),
    {
        LineAssembler { buf: text_new() }
    }

    /// The text collected since the last flush.
    pub fn pending(&self) -> (r: String)
        ensures
            r@ == self@,
    {
        text_to_string(&self.buf)
    }

    /// Takes one received byte. A byte that does not fit is dropped. A newline
    /// is not stored: it flushes the collected text, which is returned, and
    /// empties the buffer.
    pub fn on_byte(&mut self, b: u8) -> (r: Option<String>)
        requires
            old(self).wf(),
        ensures
            final(self).wf(),
            final(self)@ == feed(old(self)@, b),
            r is Some <==> flushed(old(self)@, b) is Some,
            r is Some ==> Some(r->0@) == flushed(old(self)@, b),
    {
        if b == NEWLINE {
            let line = text_to_string(&self.buf);
            text_clear(&mut self.buf);
            Some(line)
        } else {
            proof {
                lemma_text_len_push(self@, byte_char(b));
            }
            let _fits = text_try_push(&mut self.buf, b as char);
            None
        }
    }

    /// Takes a receive fault: its marker byte goes into the line, which is
    /// then flushed at once and returned.
    pub fn on_error(&mut self, kind: RxError) -> (r: String)
        requires
            old(self).wf(),
        ensures
            final(self).wf(),
            final(self)@ == Seq::<char>::empty(),
            r@ == pushed(old(self)@, kind.spec_marker()),
    {
        let _none = self.on_byte(kind.marker());
        let line = self.on_byte(NEWLINE);
        match line {
            Some(l) => l,
            None => String::new(),
        }
    }
}

} // verus!
