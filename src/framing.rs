//! The connection engine's decisions: what to do with the receive buffer
//! after each decoding attempt, and how far to read during the
//! authentication continuation.
use vstd::prelude::*;
use crate::response::{status_v, tagged_line, Response, ResponseV, StatusKind};

verus! {

/// The outcome of decoding one command from the start of the buffer.
#[derive(Clone, Copy, Debug, PartialEq, Eq, Structural)]
pub enum Decoded {
    /// A command was decoded from the first `consumed` bytes.
    Complete { consumed: usize },
    /// More bytes are needed.
    Incomplete,
    /// The bytes are not a command.
    Failed,
    /// The command uses a byte-counted literal, which is not supported.
    Literal,
}

/// What the connection does next.
#[derive(Clone, Copy, Debug, PartialEq, Eq, Structural)]
pub enum Action {
    /// Drop the command's bytes from the buffer and dispatch it.
    Dispatch { consumed: usize },
    /// Read more bytes into the buffer.
    Read,
    /// The buffer is full and still holds no whole command: close the
    /// connection.
    Overflow,
    /// Send an untagged BAD and discard the whole buffer.
    Malformed,
    /// Report the literal as not supported and discard the whole buffer.
    LiteralUnsupported,
}

pub open spec fn spec_next_action(d: Decoded, buffered: nat, capacity: nat) -> Action {
    match d {
        Decoded::Complete { consumed } => Action::Dispatch { consumed },
        Decoded::Incomplete => if buffered >= capacity {
            Action::Overflow
        } else {
            Action::Read
        },
        Decoded::Failed => Action::Malformed,
        Decoded::Literal => Action::LiteralUnsupported,
    }
}

/// The next step of the read loop after a decoding attempt over
/// `buffered` bytes of a buffer that holds at most `capacity`.
pub fn next_action(d: Decoded, buffered: usize, capacity: usize) -> (r: Action)
    ensures
        r == spec_next_action(d, buffered as nat, capacity as nat),
{
    match d {
        Decoded::Complete { consumed } => Action::Dispatch { consumed },
        Decoded::Incomplete => if buffered >= capacity {
            Action::Overflow
        } else {
            Action::Read
        },
        Decoded::Failed => Action::Malformed,
        Decoded::Literal => Action::LiteralUnsupported,
    }
}

/// The bytes received and not yet consumed, up to a fixed capacity.
pub struct InputBuffer {
    data: Vec<u8>,
    capacity: usize,
}

impl View for InputBuffer {
    type V = Seq<u8>;

    closed spec fn view(&self) -> Seq<u8> {
        self.data@
    }
}

impl InputBuffer {
    pub closed spec fn spec_capacity(&self) -> nat {
        self.capacity as nat
    }

    /// What is held fits the capacity.
    pub open spec fn wf(&self) -> bool {
        self@.len() <= self.spec_capacity()
    }

    /// An empty buffer that holds at most `capacity` bytes.
    pub fn new(capacity: usize) -> (r: InputBuffer)
        ensures
            r.wf(),
            r@ == Seq::<u8>::empty(),
            r.spec_capacity() == capacity,
    {
        InputBuffer { data: Vec::new(), capacity }
    }

    pub fn bytes(&self) -> (r: &Vec<u8>)
        ensures
            r@ == self@,
    {
        &self.data
    }

    pub fn len(&self) -> (r: usize)
        ensures
            r == self@.len(),
    {
        self.data.len()
    }

    pub fn capacity(&self) -> (r: usize)
        ensures
            r == self.spec_capacity(),
    {
        self.capacity
    }

    /// How many more bytes fit.
    pub fn room(&self) -> (r: usize)
        requires
            self.wf(),
        ensures
            r == self.spec_capacity() - self@.len(),
    {
        self.capacity - self.data.len()
    }

    /// Appends received bytes.
    pub fn append(&mut self, bytes: &[u8])
        requires
            old(self).wf(),
            old(self)@.len() + bytes@.len() <= old(self).spec_capacity(),
        ensures
            final(self).wf(),
            final(self)@ == old(self)@ + bytes@,
            final(self).spec_capacity() == old(self).spec_capacity(),
    {
        let mut i: usize = 0;
        let ghost start = self.data@;
        while i < bytes.len()
            invariant
                i <= bytes@.len(),
                self.data@ == start + bytes@.subrange(0, i as int),
                start.len() + bytes@.len() <= self.capacity,
                self.capacity == old(self).capacity,
                start == old(self).data@,
            decreases bytes.len() - i,
        {
            self.data.push(bytes[i]);
            assert(self.data@ =~= start + bytes@.subrange(0, i + 1));
            i = i + 1;
        }
        assert(bytes@.subrange(0, bytes@.len() as int) =~= bytes@);
    }

    /// Drops the first `n` bytes, keeping the rest in order at the start.
    pub fn consume(&mut self, n: usize)
        requires
            old(self).wf(),
            n <= old(self)@.len(),
        ensures
            final(self).wf(),
            final(self)@ == old(self)@.subrange(n as int, old(self)@.len() as int),
            final(self).spec_capacity() == old(self).spec_capacity(),
    {
        let mut rest: Vec<u8> = Vec::new();
        let mut i: usize = n;
        while i < self.data.len()
            invariant
                n <= i <= self.data@.len(),
                rest@ == self.data@.subrange(n as int, i as int),
            decreases self.data.len() - i,
        {
            rest.push(self.data[i]);
            assert(rest@ =~= self.data@.subrange(n as int, i + 1));
            i = i + 1;
        }
        self.data = rest;
    }

    /// Discards everything held.
    pub fn clear(&mut self)
        ensures
            final(self)@ == Seq::<u8>::empty(),
            final(self).wf(),
            final(self).spec_capacity() == old(self).spec_capacity(),
    {
        self.data = Vec::new();
    }
}

/// The untagged BAD sent for bytes that are not a command.
pub fn malformed_response() -> (r: Response)
    ensures
        r@ == (ResponseV::Status { tag: None, kind: StatusKind::Invalid, code: None, text: "Parsing failed"@ }),
{
    Response::Status {
        tag: None,
        kind: StatusKind::Invalid,
        code: None,
        text: String::from_str("Parsing failed"),
    }
}

/// The tagged NO sent for a command that uses a literal.
pub fn literal_response(tag: &String) -> (r: Response)
    ensures
        r@ == status_v(tag@, StatusKind::Refused, "Literals are not supported"@),
{
    tagged_line(tag, StatusKind::Refused, "Literals are not supported")
}

/// The untagged BYE sent before a connection whose buffer overflowed is
/// closed.
pub fn overflow_response() -> (r: Response)
    ensures
        r@ == (ResponseV::Status { tag: None, kind: StatusKind::Closing, code: None, text: "Command too long"@ }),
{
    Response::Status {
        tag: None,
        kind: StatusKind::Closing,
        code: None,
        text: String::from_str("Command too long"),
    }
}

/// The outcome of decoding the continuation line from the bytes looked at.
#[derive(Clone, Copy, Debug, PartialEq, Eq, Structural)]
pub enum Peeked {
    /// The line is the first `len` bytes.
    Line { len: usize },
    Incomplete,
    Failed,
}

/// What to do while reading the continuation line.
#[derive(Clone, Copy, Debug, PartialEq, Eq, Structural)]
pub enum PeekAction {
    /// Consume exactly `len` bytes from the socket: the line, no more.
    Take { len: usize },
    /// Look at up to `len` bytes, more than so far.
    LookFurther { len: usize },
    /// Consume what was looked at and answer BAD.
    Reject { len: usize },
    /// The peer closed the connection: give the command up without a
    /// response.
    Abandon,
    /// The look-ahead is full and still holds no whole line: close the
    /// connection with an error.
    Overflow,
}

/// The step of the continuation read after decoding the `seen` bytes looked
/// at: a whole line is consumed and nothing past it; a partial one makes
/// the look-ahead grow; a closed connection abandons the command, and a
/// full look-ahead closes the connection.
pub fn peek_action(p: Peeked, seen: usize, limit: usize, closed: bool) -> (r: PeekAction)
    requires
        p matches Peeked::Line { len } ==> len <= seen,
    ensures
        match p {
            Peeked::Line { len } => r == PeekAction::Take { len },
            Peeked::Failed => r == PeekAction::Reject { len: seen },
            Peeked::Incomplete => if closed {
                r == PeekAction::Abandon
            } else if seen >= limit {
                r == PeekAction::Overflow
            } else {
                r == PeekAction::LookFurther { len: (seen + 1) as usize }
            },
        },
{
    match p {
        Peeked::Line { len } => PeekAction::Take { len },
        Peeked::Failed => PeekAction::Reject { len: seen },
        Peeked::Incomplete => if closed {
            PeekAction::Abandon
        } else if seen >= limit {
            PeekAction::Overflow
        } else {
            PeekAction::LookFurther { len: seen + 1 }
        },
    }
}

} // verus!
