//! The cursor with which a growing log file is read piece by piece.

use vstd::prelude::*;

verus! {

/// How far a log file has been read.
#[derive(Clone, Copy, Debug, PartialEq, Eq, Structural)]
pub struct TailCursor {
    position: u64,
    first_read: bool,
}

/// A `TailCursor` as plain values: the number of bytes already taken in, and
/// whether nothing has been read yet.
pub struct TailView {
    pub position: nat,
    pub first_read: bool,
}

/// One poll of the file, as the file answered it: its length when it was
/// opened, and the number of bytes that the read then returned.
pub struct Poll {
    pub file_len: nat,
    pub bytes_read: nat,
}

impl TailView {
    /// The cursor before any read.
    pub open spec fn initial() -> TailView {
        TailView { position: 0, first_read: true }
    }

    /// A cursor that has read nothing yet has taken in nothing.
    pub open spec fn valid(self) -> bool {
        self.first_read ==> self.position == 0
    }

    /// Whether the file, now `file_len` bytes long, has shrunk below the
    /// cursor.
    pub open spec fn shrunk(self, file_len: nat) -> bool {
        !self.first_read && file_len < self.position
    }

    /// Where a read of a file of `file_len` bytes starts: at its end when it
    /// is the first read, at its start when the file has shrunk below the
    /// cursor, and at the cursor otherwise.
    pub open spec fn start(self, file_len: nat) -> nat {
        if self.first_read {
            file_len
        } else if file_len < self.position {
            0
        } else {
            self.position
        }
    }

    /// The cursor after one poll: where the read started, and the bytes that
    /// it returned.
    pub open spec fn polled(self, poll: Poll) -> TailView {
        TailView { position: self.start(poll.file_len) + poll.bytes_read, first_read: false }
    }

    /// The cursor after the polls `polls`, one after the other.
    pub open spec fn after(self, polls: Seq<Poll>) -> TailView
        decreases polls.len(),
    {
        if polls.len() == 0 {
            self
        } else {
            self.after(polls.drop_last()).polled(polls.last())
        }
    }
}

/// What a read from `offset` to the end returns of a file that holds
/// `contents`.
pub open spec fn unread(contents: Seq<u8>, offset: nat) -> Seq<u8> {
    if offset <= contents.len() {
        contents.skip(offset as int)
    } else {
        Seq::empty()
    }
}

impl View for TailCursor {
    type V = TailView;

    closed spec fn view(&self) -> TailView {
        TailView { position: self.position as nat, first_read: self.first_read }
    }
}

impl TailCursor {
    #[verifier::type_invariant]
    spec fn is_valid(self) -> bool {
        self.first_read ==> self.position == 0
    }

    /// The cursor before any read.
    pub fn new() -> (cursor: TailCursor)
        ensures
            cursor@ == TailView::initial(),
    {
        TailCursor { position: 0, first_read: true }
    }

    /// The number of bytes already taken in: none before the first read.
    pub fn position(&self) -> (position: u64)
        ensures
            position == self@.position,
            self@.valid(),
    {
        proof {
            use_type_invariant(self);
        }
        self.position
    }

    /// Whether nothing has been read yet.
    pub fn is_first_read(&self) -> (first: bool)
        ensures
            first == self@.first_read,
            self@.valid(),
    {
        proof {
            use_type_invariant(self);
        }
        self.first_read
    }

    /// Says where to start reading the file, which is `file_len` bytes long
    /// now. The first read starts at the end of the file, so that what the
    /// file held before is passed over. A file that has shrunk below the
    /// cursor is read from its start.
    pub fn start(&self, file_len: u64) -> (offset: u64)
        ensures
            offset == self@.start(file_len as nat),
    {
        if self.first_read {
            file_len
        } else if file_len < self.position {
            0
        } else {
            self.position
        }
    }

    /// Takes in a read: the file was `file_len` bytes long, and the read,
    /// begun where `start` says, returned `bytes_read` bytes. The cursor must
    /// stay within what 64 bits count.
    pub fn advance(&mut self, file_len: u64, bytes_read: u64)
        requires
            old(self)@.start(file_len as nat) + bytes_read <= u64::MAX,
        ensures
            final(self)@ == old(self)@.polled(
                Poll { file_len: file_len as nat, bytes_read: bytes_read as nat },
            ),
    {
        let offset = self.start(file_len);
        *self = TailCursor { position: offset + bytes_read, first_read: false };
    }
}

/// The first read passes over what the file already holds: it starts at the
/// end of the file and so returns nothing, and it leaves the cursor at the
/// file's length.
pub proof fn lemma_first_read_skips_history(cursor: TailView, contents: Seq<u8>)
    requires
        cursor.first_read,
    ensures
        cursor.start(contents.len()) == contents.len(),
        unread(contents, cursor.start(contents.len())) == Seq::<u8>::empty(),
        cursor.polled(
            Poll {
                file_len: contents.len(),
                bytes_read: unread(contents, cursor.start(contents.len())).len(),
            },
        ) == (TailView { position: contents.len(), first_read: false }),
{
}

/// A poll never moves the cursor back, unless the file has shrunk below it.
pub proof fn lemma_poll_keeps_order(cursor: TailView, poll: Poll)
    requires
        cursor.valid(),
        !cursor.shrunk(poll.file_len),
    ensures
        cursor.position <= cursor.polled(poll).position,
{
}

/// When the file has shrunk below the cursor, the next read starts at 0, and
/// the cursor then counts the bytes of that read alone.
pub proof fn lemma_shrunk_file_is_read_anew(cursor: TailView, poll: Poll)
    requires
        cursor.shrunk(poll.file_len),
    ensures
        cursor.start(poll.file_len) == 0,
        cursor.polled(poll).position == poll.bytes_read,
{
}

/// A cursor that is valid stays valid over any run of polls.
pub proof fn lemma_polls_keep_valid(cursor: TailView, polls: Seq<Poll>)
    requires
        cursor.valid(),
    ensures
        cursor.after(polls).valid(),
    decreases polls.len(),
{
    if polls.len() > 0 {
        lemma_polls_keep_valid(cursor, polls.drop_last());
    }
}

/// Over any run of polls the cursor never moves back between two of them,
/// as long as the file does not shrink below it in between.
pub proof fn lemma_cursor_is_monotonic(cursor: TailView, polls: Seq<Poll>, i: int, j: int)
    requires
        cursor.valid(),
        0 <= i <= j <= polls.len(),
        forall|k: int|
            i <= k < j ==> !cursor.after(polls.take(k)).shrunk((#[trigger] polls[k]).file_len),
    ensures
        cursor.after(polls.take(i)).position <= cursor.after(polls.take(j)).position,
    decreases j - i,
{
    if i < j {
        lemma_cursor_is_monotonic(cursor, polls, i, j - 1);
        lemma_polls_keep_valid(cursor, polls.take(j - 1));
        assert(polls.take(j).drop_last() =~= polls.take(j - 1));
        lemma_poll_keeps_order(cursor.after(polls.take(j - 1)), polls[j - 1]);
    }
}

} // verus!
