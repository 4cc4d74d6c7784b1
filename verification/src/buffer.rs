//! A buffer between a reader that gives out large pieces and one who takes small ones.

use vstd::prelude::*;

verus! {

/// A buffer for the bytes of a reader.
#[derive(Debug)]
pub struct BufReader {
    buf: Vec<u8>,
    pos: usize,
    filled: usize,
}

/// The state of a [`BufReader`].
pub struct BufReaderView {
    /// The memory of the buffer.
    pub memory: Seq<u8>,
    /// How many of the bytes have been taken.
    pub pos: nat,
    /// How many bytes the reader put into the memory.
    pub filled: nat,
}

impl BufReaderView {
    /// What holds of every buffer: its bytes lie in its memory.
    pub open spec fn wf(self) -> bool {
        self.filled <= self.memory.len()
    }

    /// No more bytes were taken than there were.
    pub open spec fn in_range(self) -> bool {
        self.pos <= self.filled
    }

    /// The bytes that have not been taken yet.
    pub open spec fn contents(self) -> Seq<u8> {
        self.memory.subrange(self.pos as int, self.filled as int)
    }

    /// The buffer once `amt` more bytes are taken.
    pub open spec fn consumed(self, amt: nat) -> Self {
        BufReaderView { pos: self.pos + amt, ..self }
    }

    /// The buffer once the reader put `count` bytes into the memory.
    pub open spec fn filled_with(self, memory: Seq<u8>, count: nat) -> Self {
        BufReaderView { memory, filled: count, ..self }
    }
}

impl View for BufReader {
    type V = BufReaderView;

    closed spec fn view(&self) -> BufReaderView {
        BufReaderView { memory: self.buf@, pos: self.pos as nat, filled: self.filled as nat }
    }
}

impl BufReader {
    /// A buffer of `buffer_size` bytes that holds nothing.
    pub fn new(buffer_size: usize) -> (r: Self)
        ensures
            r@.memory == Seq::new(buffer_size as nat, |i: int| 0u8),
            r@.pos == 0,
            r@.filled == 0,
            r@.wf(),
            r@.in_range(),
    {
        let buf: Vec<u8> = vec![0u8; buffer_size];
        assert(buf@ =~= Seq::new(buffer_size as nat, |i: int| 0u8));
        BufReader { buf, pos: 0, filled: 0 }
    }

    /// Takes bytes out of the buffer. Says how many they are, or that there are none, so
    /// that the reader itself is to be asked.
    pub fn poll_read(&mut self, out: &mut [u8]) -> (r: Option<usize>)
        requires
            old(self)@.wf(),
            old(self)@.in_range(),
        ensures
            final(self)@.wf(),
            final(self)@.in_range(),
            final(self)@.memory == old(self)@.memory,
            match r {
                Some(n) => {
                    let contents = old(self)@.contents();
                    &&& contents.len() > 0
                    &&& n == crate::file::smaller(contents.len() as int, old(out)@.len() as int)
                    &&& final(out)@ == contents.take(n as int) + old(out)@.skip(n as int)
                    &&& final(self)@.contents() == contents.skip(n as int)
                    &&& n == contents.len() ==> final(self)@ == (BufReaderView {
                        pos: 0,
                        filled: 0,
                        ..old(self)@
                    })
                    &&& n < contents.len() ==> final(self)@ == old(self)@.consumed(n as nat)
                },
                None => {
                    &&& old(self)@.contents().len() == 0
                    &&& final(out)@ == old(out)@
                    &&& final(self)@ == old(self)@
                },
            },
    {
        let remaining: usize = self.filled - self.pos;
        if remaining == 0 {
            return None;
        }
        let count: usize = if remaining <= out.len() {
            remaining
        } else {
            out.len()
        };
        let ghost before = out@;
        let ghost contents = self@.contents();
        for i in 0..count
            invariant
                out@.len() == before.len(),
                count <= before.len(),
                count <= contents.len(),
                self.pos + contents.len() == self.filled,
                self.filled <= self.buf@.len(),
                contents == self.buf@.subrange(self.pos as int, self.filled as int),
                forall|j: int| 0 <= j < i ==> out@[j] == contents[j],
                forall|j: int| i <= j < before.len() ==> out@[j] == before[j],
        {
            out[i] = self.buf[self.pos + i];
        }
        assert(out@ =~= contents.take(count as int) + before.skip(count as int));
        self.pos = self.pos + count;
        if self.pos == self.filled {
            self.filled = 0;
            self.pos = 0;
        }
        assert(self@.contents() =~= contents.skip(count as int));
        Some(count)
    }

    /// Whether the buffer holds bytes. One that holds none is made ready for the reader.
    pub fn poll_fill_buf(&mut self) -> (r: bool)
        requires
            old(self)@.wf(),
            old(self)@.in_range(),
        ensures
            r == (old(self)@.contents().len() > 0),
            final(self)@.wf(),
            final(self)@.in_range(),
            final(self)@.contents() == old(self)@.contents(),
            r ==> final(self)@ == old(self)@,
            !r ==> final(self)@ == (BufReaderView { pos: 0, filled: 0, ..old(self)@ }),
    {
        if self.filled - self.pos > 0 {
            true
        } else {
            self.filled = 0;
            self.pos = 0;
            assert(self@.contents() =~= old(self)@.contents());
            false
        }
    }

    /// The memory that the reader puts its bytes into.
    pub fn memory(&mut self) -> (r: &mut [u8])
        ensures
            r@ == old(self)@.memory,
            final(self)@ == (BufReaderView { memory: final(r)@, ..old(self)@ }),
    {
        self.buf.as_mut_slice()
    }

    /// The reader put `count` bytes into the memory.
    pub fn filled(&mut self, count: usize)
        requires
            count <= old(self)@.memory.len(),
        ensures
            final(self)@ == old(self)@.filled_with(old(self)@.memory, count as nat),
            final(self)@.wf(),
    {
        self.filled = count;
    }

    /// The bytes that have not been taken yet.
    pub fn contents(&self) -> (r: &[u8])
        requires
            self@.wf(),
            self@.in_range(),
        ensures
            r@ == self@.contents(),
    {
        vstd::slice::slice_subrange(self.buf.as_slice(), self.pos, self.filled)
    }

    /// Whether no more bytes were taken than there were.
    pub fn in_bounds(&self) -> (r: bool)
        ensures
            r == self@.in_range(),
    {
        self.pos <= self.filled
    }

    /// Whether it can be counted that `amt` more bytes are taken.
    pub fn can_consume(&self, amt: usize) -> (r: bool)
        ensures
            r == (self@.pos + amt <= usize::MAX),
    {
        amt <= usize::MAX - self.pos
    }

    /// `amt` more bytes are taken.
    pub fn consume(&mut self, amt: usize)
        requires
            old(self)@.pos + amt <= usize::MAX,
        ensures
            final(self)@ == old(self)@.consumed(amt as nat),
            final(self)@.wf() == old(self)@.wf(),
    {
        self.pos = self.pos + amt;
    }

    /// Drops the bytes that have not been taken: the reader goes on elsewhere.
    pub fn poll_seek(&mut self)
        ensures
            final(self)@ == (BufReaderView { pos: 0, filled: 0, ..old(self)@ }),
            final(self)@.wf(),
            final(self)@.in_range(),
            final(self)@.contents().len() == 0,
    {
        self.filled = 0;
        self.pos = 0;
    }
}

/// What the reader put into an empty buffer is what the buffer holds.
pub proof fn law_filled_bytes_are_held(b: BufReaderView, bytes: Seq<u8>, rest: Seq<u8>)
    requires
        b.pos == 0,
        b.filled == 0,
    ensures
        b.filled_with(bytes + rest, bytes.len()).wf(),
        b.filled_with(bytes + rest, bytes.len()).in_range(),
        b.filled_with(bytes + rest, bytes.len()).contents() == bytes,
{
    assert(b.filled_with(bytes + rest, bytes.len()).contents() =~= bytes);
}

/// The bytes come out in the order in which they were put in, each of them once: to take
/// some and then some more is to take the first ones of them, and the others are left.
pub proof fn law_bytes_come_out_in_order(b: BufReaderView, first: nat, second: nat)
    requires
        b.wf(),
        b.in_range(),
        first + second <= b.contents().len(),
    ensures
        b.contents().take(first as int) + b.consumed(first).contents().take(second as int)
            == b.contents().take((first + second) as int),
        b.consumed(first).contents() == b.contents().skip(first as int),
        b.consumed(first).consumed(second).contents() == b.contents().skip(
            (first + second) as int,
        ),
        b.consumed(first).consumed(second).in_range(),
{
    assert(b.consumed(first).contents() =~= b.contents().skip(first as int));
    assert(b.contents().take(first as int) + b.consumed(first).contents().take(second as int)
        =~= b.contents().take((first + second) as int));
    assert(b.consumed(first).consumed(second).contents() =~= b.contents().skip(
        (first + second) as int,
    ));
}

/// The bytes that a buffer holds are those of its memory from the first one that was not
/// taken up to the last one that was put in.
pub proof fn law_contents(b: BufReaderView)
    requires
        b.wf(),
        b.in_range(),
    ensures
        b.contents().len() == b.filled - b.pos,
        forall|i: int|
            0 <= i < b.contents().len() ==> #[trigger] b.contents()[i] == b.memory[b.pos + i],
{
}

/// To take bytes moves the place of the next one, and to put bytes in sets how many there
/// are; neither changes anything else.
pub proof fn law_what_changes(b: BufReaderView, amt: nat, memory: Seq<u8>, count: nat)
    ensures
        b.consumed(amt).pos == b.pos + amt,
        b.consumed(amt).filled == b.filled,
        b.consumed(amt).memory == b.memory,
        b.filled_with(memory, count).pos == b.pos,
        b.filled_with(memory, count).filled == count,
        b.filled_with(memory, count).memory == memory,
        b.wf() <==> b.filled <= b.memory.len(),
        b.in_range() <==> b.pos <= b.filled,
{
}

} // verus!
