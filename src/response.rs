//! What the server sends: status lines, untagged data and continuation
//! prompts, as plain values that the wire encoder writes out.
use vstd::prelude::*;

verus! {

/// A system flag that the server reports or accepts.
#[derive(Clone, Copy, Debug, PartialEq, Eq, Structural)]
pub enum Flag {
    Seen,
    Answered,
    Draft,
}

/// An advertised capability.
#[derive(Clone, Copy, Debug, PartialEq, Eq, Structural)]
pub enum Capability {
    Imap4Rev1,
    AuthPlain,
}

/// A response code carried by a status line.
#[derive(Clone, Debug, PartialEq, Eq)]
pub enum Code {
    PermanentFlags(Vec<Flag>),
    UidValidity(u32),
    Unseen(u32),
    ReadWrite,
    Capability(Vec<Capability>),
}

#[derive(Clone, Copy, Debug, PartialEq, Eq, Structural)]
/// The kind of a status line: OK, NO, BAD or BYE.
pub enum StatusKind {
    Done,
    Refused,
    Invalid,
    Closing,
}

/// One data item of a FETCH response.
#[derive(Clone, Debug, PartialEq, Eq)]
pub enum FetchItem {
    Flags(Vec<Flag>),
    Uid(u32),
    Rfc822Header(String),
    Body(String),
}

/// One response line.
#[derive(Clone, Debug, PartialEq, Eq)]
pub enum Response {
    /// A status line; `tag` is `None` for an untagged one.
    Status { tag: Option<String>, kind: StatusKind, code: Option<Code>, text: String },
    Capability(Vec<Capability>),
    Flags(Vec<Flag>),
    Exists(u32),
    Recent(u32),
    /// A LIST entry.
    List { noselect: bool, name: String },
    /// STATUS data: message count and, where the mailbox has one, unseen count.
    StatusData { mailbox: String, messages: u32, unseen: Option<u32> },
    /// FETCH data for the message at 1-based position `seq`.
    Fetch { seq: u32, items: Vec<FetchItem> },
    /// An empty continuation prompt.
    Continue,
}

/// The capabilities that the server advertises.
pub open spec fn spec_capabilities() -> Seq<Capability> {
    seq![Capability::Imap4Rev1, Capability::AuthPlain]
}

/// The capabilities that the server advertises: the core protocol revision
/// and the PLAIN authentication mechanism.
pub fn capabilities() -> (r: Vec<Capability>)
    ensures
        r@ == spec_capabilities(),
{
    let r = vec![Capability::Imap4Rev1, Capability::AuthPlain];
    assert(r@ =~= spec_capabilities());
    r
}

/// The mathematical value of a FETCH data item.
pub enum FetchItemV {
    Flags(Seq<Flag>),
    Uid(u32),
    Rfc822Header(Seq<char>),
    Body(Seq<char>),
}

impl View for FetchItem {
    type V = FetchItemV;

    open spec fn view(&self) -> FetchItemV {
        match self {
            FetchItem::Flags(f) => FetchItemV::Flags(f@),
            FetchItem::Uid(u) => FetchItemV::Uid(*u),
            FetchItem::Rfc822Header(h) => FetchItemV::Rfc822Header(h@),
            FetchItem::Body(b) => FetchItemV::Body(b@),
        }
    }
}

pub open spec fn items_view(v: Seq<FetchItem>) -> Seq<FetchItemV> {
    v.map_values(|i: FetchItem| i@)
}

/// The mathematical value of a response code.
pub enum CodeV {
    PermanentFlags(Seq<Flag>),
    UidValidity(u32),
    Unseen(u32),
    ReadWrite,
    Capability(Seq<Capability>),
}

impl View for Code {
    type V = CodeV;

    open spec fn view(&self) -> CodeV {
        match self {
            Code::PermanentFlags(f) => CodeV::PermanentFlags(f@),
            Code::UidValidity(u) => CodeV::UidValidity(*u),
            Code::Unseen(u) => CodeV::Unseen(*u),
            Code::ReadWrite => CodeV::ReadWrite,
            Code::Capability(c) => CodeV::Capability(c@),
        }
    }
}

/// The mathematical value of a response.
pub enum ResponseV {
    Status { tag: Option<Seq<char>>, kind: StatusKind, code: Option<CodeV>, text: Seq<char> },
    Capability(Seq<Capability>),
    Flags(Seq<Flag>),
    Exists(u32),
    Recent(u32),
    List { noselect: bool, name: Seq<char> },
    StatusData { mailbox: Seq<char>, messages: u32, unseen: Option<u32> },
    Fetch { seq: u32, items: Seq<FetchItemV> },
    Continue,
}

impl View for Response {
    type V = ResponseV;

    open spec fn view(&self) -> ResponseV {
        match self {
            Response::Status { tag, kind, code, text } => ResponseV::Status {
                tag: match tag {
                    Some(t) => Some(t@),
                    None => None,
                },
                kind: *kind,
                code: match code {
                    Some(c) => Some(c@),
                    None => None,
                },
                text: text@,
            },
            Response::Capability(c) => ResponseV::Capability(c@),
            Response::Flags(f) => ResponseV::Flags(f@),
            Response::Exists(n) => ResponseV::Exists(*n),
            Response::Recent(n) => ResponseV::Recent(*n),
            Response::List { noselect, name } => ResponseV::List { noselect: *noselect, name: name@ },
            Response::StatusData { mailbox, messages, unseen } => ResponseV::StatusData {
                mailbox: mailbox@,
                messages: *messages,
                unseen: *unseen,
            },
            Response::Fetch { seq, items } => ResponseV::Fetch { seq: *seq, items: items_view(items@) },
            Response::Continue => ResponseV::Continue,
        }
    }
}

pub open spec fn responses_view(v: Seq<Response>) -> Seq<ResponseV> {
    v.map_values(|r: Response| r@)
}

/// A response that bears no tag: data, or an untagged status line.
pub open spec fn is_untagged(r: ResponseV) -> bool {
    !(r matches ResponseV::Status { tag: Some(_), .. })
}

/// The responses to one command: untagged responses, then exactly one
/// terminal OK, NO or BAD bearing the command's tag.
pub open spec fn one_terminal(rs: Seq<ResponseV>, tag: Seq<char>) -> bool {
    &&& rs.len() >= 1
    &&& rs.last() matches ResponseV::Status { tag: Some(t), kind, .. } && t == tag && kind
        != StatusKind::Closing
    &&& forall|i: int| 0 <= i < rs.len() - 1 ==> is_untagged(#[trigger] rs[i])
}

/// A tagged status line as a value.
pub open spec fn status_v(tag: Seq<char>, kind: StatusKind, text: Seq<char>) -> ResponseV {
    ResponseV::Status { tag: Some(tag), kind, code: None, text }
}

/// A tagged status line without a response code.
pub fn tagged_line(tag: &String, kind: StatusKind, text: &str) -> (r: Response)
    ensures
        r@ == status_v(tag@, kind, text@),
{
    Response::Status { tag: Some(tag.clone()), kind, code: None, text: String::from_str(text) }
}

/// A tagged status line alone.
pub fn reply(tag: &String, kind: StatusKind, text: &str) -> (r: Vec<Response>)
    ensures
        responses_view(r@) == seq![status_v(tag@, kind, text@)],
{
    let r = vec![tagged_line(tag, kind, text)];
    assert(responses_view(r@) =~= seq![status_v(tag@, kind, text@)]);
    r
}

} // verus!
