//! Reading a file piece by piece: where the next piece starts and ends, and where a seek
//! leads.

use vstd::prelude::*;

verus! {

/// Where a seek leads.
#[derive(Debug, Clone, Copy, PartialEq, Eq, Structural)]
pub enum SeekFrom {
    /// This many bytes behind the start of the file.
    Start(u64),
    /// This many bytes behind the end of the file.
    End(i64),
    /// This many bytes behind the position.
    Current(i64),
}

/// What a read of the file is to do.
#[derive(Debug, Clone, Copy, PartialEq, Eq, Structural)]
pub enum ReadAction {
    /// There is nothing to read: no bytes are given out.
    Nothing,
    /// The bytes are still on their way.
    Wait,
    /// The bytes are there: give them out.
    Deliver,
    /// Load the bytes from the position `from` up to the position `to`.
    Load { from: u64, to: u64 },
}

/// How far the bytes that are being loaded are.
#[derive(Debug, Clone, Copy, PartialEq, Eq, Structural)]
pub enum LoadState {
    Loading,
    Done,
}

/// A file that is read piece by piece.
#[derive(Debug)]
pub struct FileWrapper {
    position: u64,
    loading: bool,
}

/// The state of a [`FileWrapper`].
pub struct FileWrapperView {
    /// Where the next piece starts.
    pub position: u64,
    /// A piece is being loaded.
    pub loading: bool,
}

/// `n`, or the nearest number from 0 to `limit`.
pub open spec fn clamped(n: int, limit: int) -> int {
    if n < 0 {
        0
    } else if n > limit {
        limit
    } else {
        n
    }
}

/// The smaller of two numbers.
pub open spec fn smaller(a: int, b: int) -> int {
    if a <= b {
        a
    } else {
        b
    }
}

impl View for FileWrapper {
    type V = FileWrapperView;

    closed spec fn view(&self) -> FileWrapperView {
        FileWrapperView { position: self.position, loading: self.loading }
    }
}

impl FileWrapperView {
    /// The position that a seek asks for, in a file of `size` bytes.
    pub open spec fn target(self, size: u64, to: SeekFrom) -> int {
        match to {
            SeekFrom::Start(offset) => offset as int,
            SeekFrom::End(offset) => size + offset,
            SeekFrom::Current(offset) => self.position + offset,
        }
    }

    /// How many bytes of a file of `size` bytes the next piece has, if `room` bytes can be
    /// taken.
    pub open spec fn piece(self, size: u64, room: usize) -> int {
        if self.position >= size {
            0
        } else {
            smaller(size - self.position, room as int)
        }
    }
}

fn moved_by(from: u64, offset: i64, limit: u64) -> (r: u64)
    ensures
        r == clamped(from + offset, limit as int),
{
    let sum: i128 = from as i128 + offset as i128;
    if sum < 0 {
        0
    } else if sum > limit as i128 {
        limit
    } else {
        sum as u64
    }
}

impl FileWrapper {
    /// A file that is read from its start.
    pub fn new() -> (r: Self)
        ensures
            r@ == (FileWrapperView { position: 0, loading: false }),
    {
        FileWrapper { position: 0, loading: false }
    }

    /// Where the next piece starts.
    pub fn position(&self) -> (r: u64)
        ensures
            r == self@.position,
    {
        self.position
    }

    /// The position from which and up to which the next piece is read, if there is one.
    pub fn read(&self, size: u64, room: usize) -> (r: Option<(u64, u64)>)
        ensures
            match r {
                None => self@.piece(size, room) == 0,
                Some((from, to)) => from == self@.position && to == self@.position + self@.piece(
                    size,
                    room,
                ) && self@.piece(size, room) > 0,
            },
    {
        if self.position >= size || room == 0 {
            return None;
        }
        let remaining: u64 = size - self.position;
        let count: u64 = if remaining <= room as u64 {
            remaining
        } else {
            room as u64
        };
        Some((self.position, self.position + count))
    }

    /// What a read is to do that does not wait for its bytes.
    pub fn poll_read(&self, size: u64, room: usize, state: LoadState) -> (r: ReadAction)
        ensures
            r == (if self@.piece(size, room) == 0 {
                ReadAction::Nothing
            } else if self@.loading {
                match state {
                    LoadState::Loading => ReadAction::Wait,
                    LoadState::Done => ReadAction::Deliver,
                }
            } else {
                ReadAction::Load {
                    from: self@.position,
                    to: (self@.position + self@.piece(size, room)) as u64,
                }
            }),
    {
        match self.read(size, room) {
            None => ReadAction::Nothing,
            Some((from, to)) => if self.loading {
                match state {
                    LoadState::Loading => ReadAction::Wait,
                    LoadState::Done => ReadAction::Deliver,
                }
            } else {
                ReadAction::Load { from, to }
            },
        }
    }

    /// A piece is being loaded from now on.
    pub fn loading(&mut self)
        ensures
            final(self)@ == (FileWrapperView { loading: true, ..old(self)@ }),
    {
        self.loading = true;
    }

    /// Gives out a piece that was read at once: says how many of its bytes are given out, and
    /// moves the position behind them.
    pub fn advance(&mut self, loaded: usize, room: usize) -> (r: usize)
        requires
            old(self)@.position + smaller(loaded as int, room as int) <= u64::MAX,
        ensures
            r == smaller(loaded as int, room as int),
            final(self)@ == (FileWrapperView {
                position: (old(self)@.position + r) as u64,
                ..old(self)@
            }),
    {
        let count: usize = if loaded <= room {
            loaded
        } else {
            room
        };
        self.position = self.position + count as u64;
        count
    }

    /// Gives out the piece that was loaded: says how many of its bytes are given out, and
    /// moves the position behind them.
    pub fn deliver(&mut self, loaded: usize, room: usize) -> (r: usize)
        requires
            old(self)@.position + smaller(loaded as int, room as int) <= u64::MAX,
        ensures
            r == smaller(loaded as int, room as int),
            final(self)@ == (FileWrapperView {
                position: (old(self)@.position + r) as u64,
                loading: false,
            }),
    {
        self.loading = false;
        self.advance(loaded, room)
    }

    /// Moves the position, at most up to the last byte of the file.
    pub fn seek(&mut self, size: u64, to: SeekFrom) -> (r: u64)
        ensures
            r == clamped(
                old(self)@.target(size, to),
                if size == 0 {
                    0
                } else {
                    size - 1
                },
            ),
            final(self)@ == (FileWrapperView { position: r, ..old(self)@ }),
    {
        let last: u64 = if size == 0 {
            0
        } else {
            size - 1
        };
        self.position = match to {
            SeekFrom::Start(offset) => if offset <= last {
                offset
            } else {
                last
            },
            SeekFrom::End(offset) => moved_by(size, offset, last),
            SeekFrom::Current(offset) => moved_by(self.position, offset, last),
        };
        self.position
    }

    /// Moves the position, at most up to the end of the file.
    pub fn poll_seek(&mut self, size: u64, to: SeekFrom) -> (r: u64)
        ensures
            r == clamped(old(self)@.target(size, to), size as int),
            final(self)@ == (FileWrapperView { position: r, ..old(self)@ }),
    {
        self.position = match to {
            SeekFrom::Start(offset) => if offset <= size {
                offset
            } else {
                size
            },
            SeekFrom::End(offset) => moved_by(size, offset, size),
            SeekFrom::Current(offset) => moved_by(self.position, offset, size),
        };
        self.position
    }
}

/// A read never asks for a byte that the file does not have, nor for more than there is
/// room for, and it asks for something as long as there is something left and room for it.
pub proof fn law_pieces_lie_in_the_file(f: FileWrapperView, size: u64, room: usize)
    ensures
        0 <= f.piece(size, room) <= room,
        f.piece(size, room) > 0 ==> f.position + f.piece(size, room) <= size,
        f.piece(size, room) == 0 <==> f.position >= size || room == 0,
{
}

/// Two reads of a piece each, one after the other, read what one read with the room of both
/// would: the pieces follow one another without a gap and without an overlap.
pub proof fn law_pieces_follow_one_another(
    f: FileWrapperView,
    size: u64,
    first: usize,
    second: usize,
    both: usize,
)
    requires
        first + second == both,
    ensures
        ({
            let g = FileWrapperView {
                position: (f.position + f.piece(size, first)) as u64,
                ..f
            };
            f.piece(size, first) + g.piece(size, second) == f.piece(size, both)
        }),
{
}

/// A seek to a position inside of the file leads there, and where it leads does not depend
/// on whether the reads wait for their bytes. The two differ at the end of the file only.
pub proof fn law_seek_inside_of_the_file(f: FileWrapperView, size: u64, to: SeekFrom)
    requires
        0 <= f.target(size, to) < size,
    ensures
        clamped(f.target(size, to), size as int) == f.target(size, to),
        clamped(f.target(size, to), size - 1) == f.target(size, to),
{
}

/// A piece takes all the room that there is, or ends at the end of the file.
pub proof fn law_pieces_are_as_large_as_can_be(f: FileWrapperView, size: u64, room: usize)
    requires
        f.position < size,
    ensures
        f.piece(size, room) == room || f.position + f.piece(size, room) == size,
        f.piece(size, room) <= room,
        f.position + f.piece(size, room) <= size,
{
}

/// What a seek asks for is counted from the start of the file, from its end or from the
/// position.
pub proof fn law_target_of_a_seek(f: FileWrapperView, size: u64, forward: u64, offset: i64)
    ensures
        f.target(size, SeekFrom::Start(forward)) == forward,
        f.target(size, SeekFrom::End(offset)) - size == offset,
        f.target(size, SeekFrom::Current(offset)) - f.position == offset,
{
}

/// A seek leads to where it asks for, or to the nearest position that there is: the start
/// where it asks for one before it, and the last one where it asks for one behind that.
pub proof fn law_nearest_position(n: int, limit: int)
    requires
        limit >= 0,
    ensures
        0 <= clamped(n, limit) <= limit,
        0 <= n <= limit ==> clamped(n, limit) == n,
        n < 0 ==> clamped(n, limit) == 0,
        n > limit ==> clamped(n, limit) == limit,
{
}

/// The smaller of two numbers is one of them, and no larger than either.
pub proof fn law_smaller(a: int, b: int)
    ensures
        smaller(a, b) == a || smaller(a, b) == b,
        smaller(a, b) <= a,
        smaller(a, b) <= b,
{
}

/// What a read gives: nothing exactly if the file has no byte behind the position or there is no
/// room, and otherwise a piece that starts at the position, lies in the file and in the room, and
/// could not be longer.
pub proof fn law_read(f: FileWrapper, size: u64, room: usize, r: Option<(u64, u64)>)
    requires
        call_ensures(FileWrapper::read, (&f, size, room), r),
    ensures
        r is None <==> f@.position >= size || room == 0,
        r matches Some((from, to)) ==> {
            &&& from == f@.position
            &&& from < to <= size
            &&& to - from <= room
            &&& to == size || to - from == room
        },
{
}

/// What a read does that does not wait: nothing where there is nothing to read or no room, and
/// otherwise it loads the next piece, waits for the one that is being loaded, or gives that out
/// once it is there.
pub proof fn law_poll_read(
    f: FileWrapper,
    size: u64,
    room: usize,
    state: LoadState,
    r: ReadAction,
)
    requires
        call_ensures(FileWrapper::poll_read, (&f, size, room, state), r),
    ensures
        r == ReadAction::Nothing <==> f@.position >= size || room == 0,
        f@.position < size && room > 0 && f@.loading ==> r == (match state {
            LoadState::Loading => ReadAction::Wait,
            LoadState::Done => ReadAction::Deliver,
        }),
        f@.position < size && room > 0 && !f@.loading ==> (r matches ReadAction::Load { from, to }
            && from == f@.position && from < to <= size && to - from <= room && (to == size || to
            - from == room)),
{
}

} // verus!
