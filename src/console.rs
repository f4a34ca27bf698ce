//! The console writer: re-encodes text into the firmware's zero-terminated
//! fixed-width form, one bounded buffer at a time.
use vstd::prelude::*;
use vstd::std_specs::iter::IteratorSpec;
use vstd::string::*;
use crate::utf16::single_unit_chars;

verus! {

/// Units in the buffer handed to the firmware console, terminating zero included.
pub const BUFFER_UNITS: usize = 128;

/// The buffer is flushed before a character when fewer than three units are
/// free: a newline takes two, and the terminating zero one more.
pub const FLUSH_THRESHOLD: usize = 126;

pub const CARRIAGE_RETURN: u16 = 0x0D;

pub const LINE_FEED: u16 = 0x0A;

/// The units that a character becomes on the console: a line feed becomes a
/// carriage return and a line feed, any other character its single unit.
pub open spec fn char_units(c: char) -> Seq<u16> {
    if c == '\n' {
        seq![CARRIAGE_RETURN, LINE_FEED]
    } else {
        seq![(c as u32) as u16]
    }
}

/// What the firmware receives for `content`: the content, then zeros up to
/// the buffer's size.
pub open spec fn frame(content: Seq<u16>) -> Seq<u16> {
    content + Seq::new((BUFFER_UNITS - content.len()) as nat, |_k: int| 0u16)
}

/// One character buffered after `pending`, with `flushed` the contents
/// flushed so far: the pending content is flushed first when it has reached
/// the threshold.
pub open spec fn buffer_char(flushed: Seq<Seq<u16>>, pending: Seq<u16>, c: char) -> (Seq<Seq<u16>>, Seq<u16>) {
    if pending.len() >= FLUSH_THRESHOLD {
        (flushed.push(pending), char_units(c))
    } else {
        (flushed, pending + char_units(c))
    }
}

/// The contents flushed while the characters of `s` are buffered after
/// `pending`, and the content left pending at the end.
pub open spec fn buffer_chars(pending: Seq<u16>, s: Seq<char>) -> (Seq<Seq<u16>>, Seq<u16>)
    decreases s.len(),
{
    if s.len() == 0 {
        (seq![], pending)
    } else {
        let before = buffer_chars(pending, s.drop_last());
        buffer_char(before.0, before.1, s.last())
    }
}

/// The contents sent for `s` written after `pending`, the final flush included.
pub open spec fn written_contents(pending: Seq<u16>, s: Seq<char>) -> Seq<Seq<u16>> {
    let r = buffer_chars(pending, s);
    r.0.push(r.1)
}

/// The frames sent for `s` written after `pending`, in order.
pub open spec fn written_frames(pending: Seq<u16>, s: Seq<char>) -> Seq<Seq<u16>> {
    written_contents(pending, s).map_values(|c: Seq<u16>| frame(c))
}

/// The fixed-capacity unit buffer: its content, then zeros.
struct Units {
    buf: [u16; BUFFER_UNITS],
    i: usize,
}

impl Units {
    #[verifier::type_invariant]
    spec fn inv(self) -> bool {
        &&& self.i <= FLUSH_THRESHOLD + 1
        &&& forall|j: int| self.i <= j < BUFFER_UNITS ==> self.buf@[j] == 0
    }

    closed spec fn content(self) -> Seq<u16> {
        self.buf@.subrange(0, self.i as int)
    }

    fn empty() -> (u: Units)
        ensures
            u.content() == Seq::<u16>::empty(),
    {
        let u = Units { buf: [0u16; BUFFER_UNITS], i: 0 };
        assert(u.content() =~= Seq::<u16>::empty());
        u
    }

    fn len(&self) -> (n: usize)
        ensures
            n == self.content().len(),
            n <= FLUSH_THRESHOLD + 1,
    {
        proof {
            use_type_invariant(self);
        }
        self.i
    }

    /// The whole buffer, as the firmware receives it.
    fn to_frame(&self) -> (f: Vec<u16>)
        ensures
            f@ == frame(self.content()),
    {
        proof {
            use_type_invariant(self);
        }
        let mut out: Vec<u16> = Vec::with_capacity(BUFFER_UNITS);
        let mut j: usize = 0;
        while j < BUFFER_UNITS
            invariant
                j <= BUFFER_UNITS,
                out@ == self.buf@.subrange(0, j as int),
            decreases BUFFER_UNITS - j,
        {
            out.push(self.buf[j]);
            j = j + 1;
            assert(out@ =~= self.buf@.subrange(0, j as int));
        }
        assert(out@ =~= frame(self.content()));
        out
    }

    fn push_char(&mut self, c: char)
        requires
            old(self).content().len() < FLUSH_THRESHOLD,
        ensures
            final(self).content() == old(self).content() + char_units(c),
    {
        proof {
            use_type_invariant(&*self);
        }
        let ghost before = self.content();
        let i = self.i;
        let mut buf = self.buf;
        if c == '\n' {
            buf[i] = CARRIAGE_RETURN;
            buf[i + 1] = LINE_FEED;
            self.i = i + 2;
        } else {
            buf[i] = (c as u32) as u16;
            self.i = i + 1;
        }
        self.buf = buf;
        assert(self.content() =~= before + char_units(c));
    }
}

/// A bounded buffer of console units and the frames it has flushed, oldest first.
pub struct WriteBuf {
    units: Units,
    sent: Vec<Vec<u16>>,
}

impl WriteBuf {
    /// The content buffered and not yet flushed.
    pub closed spec fn pending(self) -> Seq<u16> {
        self.units.content()
    }

    /// The frames flushed so far, oldest first.
    pub closed spec fn sent(self) -> Seq<Seq<u16>> {
        self.sent@.map_values(|v: Vec<u16>| v@)
    }

    pub fn new() -> (w: WriteBuf)
        ensures
            w.pending() == Seq::<u16>::empty(),
            w.sent() == Seq::<Seq<u16>>::empty(),
    {
        let w = WriteBuf { units: Units::empty(), sent: Vec::new() };
        assert(w.sent() =~= Seq::<Seq<u16>>::empty());
        w
    }

    /// Sends the buffer as one frame and starts over with an empty one.
    pub fn flush(&mut self)
        ensures
            final(self).sent() == old(self).sent().push(frame(old(self).pending())),
            final(self).pending() == Seq::<u16>::empty(),
    {
        let f = self.units.to_frame();
        let ghost before = self.sent();
        self.sent.push(f);
        assert(self.sent() =~= before.push(frame(self.pending())));
        self.units = Units::empty();
    }

    /// Buffers one character, flushing first when fewer than three units are free.
    pub fn write_char(&mut self, c: char)
        requires
            (c as u32) < 0x10000,
        ensures
            old(self).pending().len() >= FLUSH_THRESHOLD ==> final(self).sent() == old(
                self,
            ).sent().push(frame(old(self).pending())) && final(self).pending() == char_units(c),
            old(self).pending().len() < FLUSH_THRESHOLD ==> final(self).sent() == old(self).sent()
                && final(self).pending() == old(self).pending() + char_units(c),
    {
        if self.units.len() >= FLUSH_THRESHOLD {
            self.flush();
        }
        self.units.push_char(c);
    }

    /// The frames flushed so far, oldest first.
    pub fn into_frames(self) -> (r: Vec<Vec<u16>>)
        ensures
            r@.map_values(|v: Vec<u16>| v@) == self.sent(),
    {
        self.sent
    }

    /// Buffers every character of `s`, then flushes what is left.
    pub fn write_str(&mut self, s: &str)
        requires
            single_unit_chars(s@),
        ensures
            final(self).sent() == old(self).sent() + written_frames(old(self).pending(), s@),
            final(self).pending() == Seq::<u16>::empty(),
    {
        broadcast use vstd::string::group_string_axioms;

        let ghost start = self.pending();
        let ghost sent0 = self.sent();
        let mut chars = s.chars();
        let ghost mut n: int = 0;
        loop
            invariant
                0 <= n <= s@.len(),
                single_unit_chars(s@),
                chars.remaining() == s@.subrange(n, s@.len() as int),
                self.sent() == sent0 + buffer_chars(start, s@.subrange(0, n)).0.map_values(
                    |x: Seq<u16>| frame(x),
                ),
                self.pending() == buffer_chars(start, s@.subrange(0, n)).1,
            ensures
                n == s@.len(),
            decreases s@.len() - n,
        {
            match chars.next() {
                Some(c) => {
                    assert(c == s@[n]);
                    let ghost prev = buffer_chars(start, s@.subrange(0, n));
                    assert(s@.subrange(0, n + 1).drop_last() =~= s@.subrange(0, n));
                    self.write_char(c);
                    proof {
                        assert(prev.0.push(prev.1).map_values(|x: Seq<u16>| frame(x))
                            =~= prev.0.map_values(|x: Seq<u16>| frame(x)).push(frame(prev.1)));
                        n = n + 1;
                    }
                    assert(chars.remaining() =~= s@.subrange(n, s@.len() as int));
                },
                None => {
                    break ;
                },
            }
        }
        assert(s@.subrange(0, n) =~= s@);
        let ghost last = buffer_chars(start, s@);
        self.flush();
        assert(last.0.push(last.1).map_values(|x: Seq<u16>| frame(x)) =~= last.0.map_values(
            |x: Seq<u16>| frame(x),
        ).push(frame(last.1)));
        assert(self.sent() =~= sent0 + written_frames(start, s@));
    }
}

/// Whether every character of `s` fits in one UTF-16 unit, as the console
/// requires.
pub fn is_console_text(s: &str) -> (b: bool)
    ensures
        b == single_unit_chars(s@),
{
    broadcast use vstd::string::group_string_axioms;

    let mut chars = s.chars();
    let ghost mut n: int = 0;
    loop
        invariant
            0 <= n <= s@.len(),
            chars.remaining() == s@.subrange(n, s@.len() as int),
            single_unit_chars(s@.subrange(0, n)),
        ensures
            n == s@.len(),
        decreases s@.len() - n,
    {
        match chars.next() {
            Some(c) => {
                assert(c == s@[n]);
                if (c as u32) >= 0x10000 {
                    assert(!single_unit_chars(s@)) by {
                        assert(s@[n] == c);
                    }
                    return false;
                }
                proof {
                    assert forall|k: int| 0 <= k < n + 1 implies (#[trigger] s@.subrange(0, n + 1)[k]
                        as u32) < 0x10000 by {
                        if k < n {
                            assert(s@.subrange(0, n + 1)[k] == s@.subrange(0, n)[k]);
                        }
                    }
                    n = n + 1;
                }
                assert(chars.remaining() =~= s@.subrange(n, s@.len() as int));
            },
            None => {
                break ;
            },
        }
    }
    assert(s@.subrange(0, n) =~= s@);
    true
}

/// The console writer installed for the process: the firmware console that
/// its frames go to.
pub struct Output<S> {
    pub stdout: S,
}

impl<S> Output<S> {
    /// The frames that carry `s` to the console, in order: `s` is buffered
    /// from an empty buffer and flushed at the end.
    pub fn write_str(&self, s: &str) -> (frames: Vec<Vec<u16>>)
        requires
            single_unit_chars(s@),
        ensures
            frames@.map_values(|v: Vec<u16>| v@) == written_frames(Seq::<u16>::empty(), s@),
    {
        let mut buf = WriteBuf::new();
        buf.write_str(s);
        assert(Seq::<Seq<u16>>::empty() + written_frames(Seq::<u16>::empty(), s@) =~= written_frames(Seq::<u16>::empty(), s@));
        buf.into_frames()
    }
}

/// Installs the console writer for `stdout` in `slot`.
pub fn set_stdout<S>(slot: &mut Option<Output<S>>, stdout: S)
    ensures
        *final(slot) == Some(Output { stdout }),
{
    *slot = Some(Output { stdout });
}

/// The units of all `chunks`, in order.
pub open spec fn joined(chunks: Seq<Seq<u16>>) -> Seq<u16>
    decreases chunks.len(),
{
    if chunks.len() == 0 {
        Seq::empty()
    } else {
        joined(chunks.drop_last()) + chunks.last()
    }
}

/// The console units of a text, in order.
pub open spec fn text_units(s: Seq<char>) -> Seq<u16>
    decreases s.len(),
{
    if s.len() == 0 {
        Seq::empty()
    } else {
        text_units(s.drop_last()) + char_units(s.last())
    }
}

proof fn lemma_buffer_chars_keeps_units(pending: Seq<u16>, s: Seq<char>)
    ensures
        joined(buffer_chars(pending, s).0) + buffer_chars(pending, s).1 == pending + text_units(s),
    decreases s.len(),
{
    if s.len() == 0 {
        assert(joined(Seq::<Seq<u16>>::empty()) + pending =~= pending + text_units(s));
    } else {
        lemma_buffer_chars_keeps_units(pending, s.drop_last());
        let prev = buffer_chars(pending, s.drop_last());
        let c = s.last();
        if prev.1.len() >= FLUSH_THRESHOLD {
            assert(prev.0.push(prev.1).drop_last() =~= prev.0);
        }
        assert(joined(buffer_chars(pending, s).0) + buffer_chars(pending, s).1 =~= joined(prev.0)
            + prev.1 + char_units(c));
        assert(pending + text_units(s) =~= pending + text_units(s.drop_last()) + char_units(c));
    }
}

/// Nothing is lost, added or reordered: the contents sent for `s`, joined,
/// are the pending content followed by the units of every character of `s`.
pub proof fn lemma_written_contents_keep_order(pending: Seq<u16>, s: Seq<char>)
    ensures
        joined(written_contents(pending, s)) == pending + text_units(s),
{
    lemma_buffer_chars_keeps_units(pending, s);
    let r = buffer_chars(pending, s);
    assert(r.0.push(r.1).drop_last() =~= r.0);
}

proof fn lemma_buffer_chars_sizes(pending: Seq<u16>, s: Seq<char>)
    requires
        pending.len() <= FLUSH_THRESHOLD + 1,
    ensures
        buffer_chars(pending, s).1.len() <= FLUSH_THRESHOLD + 1,
        forall|k: int|
            0 <= k < buffer_chars(pending, s).0.len() ==> FLUSH_THRESHOLD <= (
            #[trigger] buffer_chars(pending, s).0[k]).len() <= FLUSH_THRESHOLD + 1,
    decreases s.len(),
{
    if s.len() > 0 {
        lemma_buffer_chars_sizes(pending, s.drop_last());
    }
}

/// Every frame sent ends in a terminating zero, and the buffer is flushed
/// only when fewer than three units are free: every content sent before the
/// last has reached the threshold.
pub proof fn lemma_written_frames_bounded(pending: Seq<u16>, s: Seq<char>)
    requires
        pending.len() <= FLUSH_THRESHOLD + 1,
    ensures
        forall|k: int|
            0 <= k < written_contents(pending, s).len() ==> (#[trigger] written_contents(
                pending,
                s,
            )[k]).len() < BUFFER_UNITS,
        forall|k: int|
            0 <= k < written_contents(pending, s).len() - 1 ==> FLUSH_THRESHOLD <= (
            #[trigger] written_contents(pending, s)[k]).len(),
        forall|k: int|
            0 <= k < written_frames(pending, s).len() ==> (#[trigger] written_frames(pending, s)[k]).len()
                == BUFFER_UNITS && written_frames(pending, s)[k][BUFFER_UNITS - 1] == 0,
{
    lemma_buffer_chars_sizes(pending, s);
    assert forall|k: int| 0 <= k < written_frames(pending, s).len() implies (
    #[trigger] written_frames(pending, s)[k]).len() == BUFFER_UNITS && written_frames(
        pending,
        s,
    )[k][BUFFER_UNITS - 1] == 0 by {
        let c = written_contents(pending, s)[k];
        assert(c.len() < BUFFER_UNITS);
        assert(written_frames(pending, s)[k] == frame(c));
    }
}

/// True when `s` holds no newline.
pub open spec fn no_newline(s: Seq<char>) -> bool {
    forall|k: int| 0 <= k < s.len() ==> #[trigger] s[k] != '\n'
}

proof fn lemma_plain_buffer_chars(s: Seq<char>)
    requires
        s.len() >= 1,
        no_newline(s),
    ensures
        forall|k: int|
            0 <= k < buffer_chars(Seq::<u16>::empty(), s).0.len() ==> (
            #[trigger] buffer_chars(Seq::<u16>::empty(), s).0[k]).len() == FLUSH_THRESHOLD,
        1 <= buffer_chars(Seq::<u16>::empty(), s).1.len() <= FLUSH_THRESHOLD,
        buffer_chars(Seq::<u16>::empty(), s).0.len() * FLUSH_THRESHOLD + buffer_chars(
            Seq::<u16>::empty(),
            s,
        ).1.len() == s.len(),
    decreases s.len(),
{
    let p = s.drop_last();
    assert(s.last() == s[s.len() - 1]);
    if s.len() == 1 {
        assert(buffer_chars(Seq::<u16>::empty(), p) == (
        Seq::<Seq<u16>>::empty(),
        Seq::<u16>::empty(),
        ));
    } else {
        assert forall|k: int| 0 <= k < p.len() implies #[trigger] p[k] != '\n' by {
            assert(p[k] == s[k]);
        }
        lemma_plain_buffer_chars(p);
    }
}

/// Newline-free text written from an empty buffer goes out in frames of
/// exactly `FLUSH_THRESHOLD` units each, but for the last, which holds
/// between one and `FLUSH_THRESHOLD` units.
pub proof fn lemma_plain_text_frames(s: Seq<char>)
    requires
        s.len() >= 1,
        no_newline(s),
    ensures
        forall|k: int|
            0 <= k < written_contents(Seq::<u16>::empty(), s).len() - 1 ==> (
            #[trigger] written_contents(Seq::<u16>::empty(), s)[k]).len() == FLUSH_THRESHOLD,
        1 <= written_contents(Seq::<u16>::empty(), s).last().len() <= FLUSH_THRESHOLD,
        (written_contents(Seq::<u16>::empty(), s).len() - 1) * FLUSH_THRESHOLD
            + written_contents(Seq::<u16>::empty(), s).last().len() == s.len(),
{
    lemma_plain_buffer_chars(s);
    let r = buffer_chars(Seq::<u16>::empty(), s);
    assert forall|k: int| 0 <= k < written_contents(Seq::<u16>::empty(), s).len() - 1 implies (
    #[trigger] written_contents(Seq::<u16>::empty(), s)[k]).len() == FLUSH_THRESHOLD by {
        assert(written_contents(Seq::<u16>::empty(), s)[k] == r.0[k]);
    }
}

/// Newline-free text longer than one buffer's worth and at most two
/// buffers' worth is sent with exactly one flush before the final one.
pub proof fn lemma_two_frames(s: Seq<char>)
    requires
        FLUSH_THRESHOLD < s.len() <= 2 * FLUSH_THRESHOLD,
        no_newline(s),
    ensures
        written_frames(Seq::<u16>::empty(), s).len() == 2,
{
    lemma_plain_text_frames(s);
}

} // verus!
