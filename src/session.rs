//! The session state machine: which commands each state admits, and what
//! each command does to the session.
use vstd::prelude::*;
use crate::auth::{parse_plain, plain_delims, Credentials};
use vstd::utf8::{decode_utf8, valid_utf8};
use crate::fetch::ItemName;
use crate::mailbox::{
    filter, make_folders, mailbox_info, school_year, Directory, FolderCounts, MailboxId,
    info_responses, spec_school_year,
};
use crate::response::{
    capabilities, one_terminal, reply, responses_view, spec_capabilities, status_v, tagged_line, Code, CodeV,
    Response, ResponseV, StatusKind,
};
use crate::sequence::Sequence;
use crate::store::{store_plan, StoreFlag, StoreKind, StorePlan};

verus! {

/// The kind of backend account.
#[derive(Clone, Copy, Debug, PartialEq, Eq, Structural)]
pub enum Role {
    Individual,
    Household,
}

/// An authenticated backend identity and its bearer token.
#[derive(Clone, Debug)]
pub struct User {
    pub role: Role,
    pub id: u32,
    pub token: String,
}

/// The protocol state of a session.
#[derive(Clone, Debug)]
pub enum State {
    Greeting,
    NotAuthenticated,
    Authenticated,
    /// A mailbox is selected: its name and what it stands for.
    Selected { name: String, id: MailboxId },
    Logout,
}

/// A command body, as decoded from the wire.
#[derive(Clone, Debug)]
pub enum CommandBody {
    Capability,
    Noop,
    Logout,
    /// AUTHENTICATE: whether the mechanism is PLAIN, and whether an initial
    /// response came inline.
    Authenticate { plain: bool, initial_response: bool },
    Login { username: String, password: String },
    Select { mailbox: String },
    List { pattern: String },
    Lsub,
    Status { mailbox: String },
    Store { set: Vec<Sequence>, kind: StoreKind, silent: bool, flags: Vec<StoreFlag>, uid: bool },
    Close,
    Fetch { set: Vec<Sequence>, items: Vec<ItemName>, uid: bool },
    /// Any other verb.
    Other,
}

/// What the connection does next for a command.
pub enum Step {
    /// Send these responses; the command is done.
    Reply(Vec<Response>),
    /// Send an empty continuation prompt, read one line of authentication
    /// data, and hand it to `Session::authenticate_data`.
    Continue,
    /// Log in on the backend, and hand the outcome to `Session::login_done`.
    Login(Credentials),
    /// Resolve the mailbox (see `Session::resolve`), then finish with
    /// `Session::select_done` or `Session::select_missing`.
    Select(String),
    /// Resolve the mailbox (see `Session::resolve`), then finish with
    /// `status::handle` or `Session::status_missing`.
    Status(String),
    /// Fetch the folder list, and hand it to `Session::list_done`.
    ListFolders,
    /// Make these backend calls in order, then send the responses.
    Store(StorePlan),
    /// Load the messages of mailbox `id`, then answer with `fetch::fetch`.
    Fetch { id: MailboxId, set: Vec<Sequence>, items: Vec<ItemName>, uid: bool },
}

/// The answer of a directory lookup.
#[derive(Clone, Copy, Debug, PartialEq, Eq, Structural)]
pub enum Resolution {
    /// Rebuild the directory from the backend, then look up again.
    Refresh,
    Found(MailboxId),
    Missing,
}

/// The lookup of `name` in the cached directory `cache`; `refreshed` tells
/// whether the directory has been rebuilt for this lookup already.
pub open spec fn resolve_spec(cache: Option<Map<Seq<char>, MailboxId>>, name: Seq<char>, refreshed: bool) -> Resolution {
    match cache {
        Some(d) => if d.contains_key(name) {
            Resolution::Found(d[name])
        } else if refreshed {
            Resolution::Missing
        } else {
            Resolution::Refresh
        },
        None => if refreshed {
            Resolution::Missing
        } else {
            Resolution::Refresh
        },
    }
}

/// A directory lookup rebuilds the directory at most once: a lookup that
/// hits never asks for a rebuild, and a lookup after a rebuild either finds
/// the mailbox or fails.
pub proof fn lemma_refresh_once(
    cache: Option<Map<Seq<char>, MailboxId>>,
    rebuilt: Map<Seq<char>, MailboxId>,
    name: Seq<char>,
)
    ensures
        cache is Some && cache->Some_0.contains_key(name) ==> forall|r: bool|
            #[trigger] resolve_spec(cache, name, r) == Resolution::Found(cache->Some_0[name]),
        resolve_spec(Some(rebuilt), name, true) != Resolution::Refresh,
        rebuilt.contains_key(name) ==> resolve_spec(Some(rebuilt), name, true) == Resolution::Found(
            rebuilt[name],
        ),
        !rebuilt.contains_key(name) ==> resolve_spec(Some(rebuilt), name, true)
            == Resolution::Missing,
{
}

/// One session: its state, its identity once authenticated, and its cached
/// mailbox directory.
pub struct Session {
    pub state: State,
    pub user: Option<User>,
    pub folders: Option<Directory>,
}

pub open spec fn dir_view(d: Option<Directory>) -> Option<Map<Seq<char>, MailboxId>> {
    match d {
        Some(x) => Some(x@),
        None => None,
    }
}

pub open spec fn is_authenticated(s: State) -> bool {
    s is Authenticated || s is Selected
}

pub open spec fn capability_responses(tag: Seq<char>) -> Seq<ResponseV> {
    seq![
        ResponseV::Capability(spec_capabilities()),
        status_v(tag, StatusKind::Done, "CAPABILITY completed"@),
    ]
}

pub open spec fn logout_responses(tag: Seq<char>) -> Seq<ResponseV> {
    seq![
        ResponseV::Status { tag: None, kind: StatusKind::Closing, code: None, text: "Logging out!"@ },
        status_v(tag, StatusKind::Done, "LOGOUT completed"@),
    ]
}

pub open spec fn step_replies(s: Step, rs: Seq<ResponseV>) -> bool {
    match s {
        Step::Reply(v) => responses_view(v@) == rs,
        _ => false,
    }
}

/// The greeting: OK with the capability list.
pub open spec fn greeting_v() -> ResponseV {
    ResponseV::Status {
        tag: None,
        kind: StatusKind::Done,
        code: Some(CodeV::Capability(spec_capabilities())),
        text: "ecoledirecte-imap ready"@,
    }
}

impl Session {
    /// Directory entries are unique, and an authenticated session has an
    /// identity.
    pub open spec fn wf(&self) -> bool {
        &&& (self.folders matches Some(d) ==> d.wf())
        &&& (is_authenticated(self.state) ==> self.user is Some)
    }

    /// A new session, before the greeting.
    pub fn new() -> (r: Session)
        ensures
            r.wf(),
            r.state is Greeting,
            r.user is None,
            r.folders is None,
    {
        Session { state: State::Greeting, user: None, folders: None }
    }

    /// Sends the greeting and enters the not-authenticated state.
    pub fn greet(&mut self) -> (r: Response)
        requires
            old(self).wf(),
        ensures
            final(self).wf(),
            final(self).state is NotAuthenticated,
            final(self).user == old(self).user,
            r@ == greeting_v(),
    {
        self.state = State::NotAuthenticated;
        Response::Status {
            tag: None,
            kind: StatusKind::Done,
            code: Some(Code::Capability(capabilities())),
            text: String::from_str("ecoledirecte-imap ready"),
        }
    }

    /// Dispatches one command by the current state. Capability, no-op and
    /// logout are admitted in every state; authentication only before it;
    /// mailbox commands once authenticated; close and fetch once a mailbox
    /// is selected. Anything else gets a tagged NO and changes nothing.
    pub fn process(&mut self, tag: &String, body: CommandBody) -> (r: Step)
        requires
            old(self).wf(),
        ensures
            final(self).wf(),
            final(self).user == old(self).user,
            dir_view(final(self).folders) == dir_view(old(self).folders),
            body is Logout ==> final(self).state is Logout && step_replies(r, logout_responses(tag@)),
            !(body is Logout) && !(body is Close && old(self).state is Selected) ==> final(self).state
                == old(self).state,
            body is Close && old(self).state is Selected ==> final(self).state is Authenticated
                && step_replies(r, seq![status_v(tag@, StatusKind::Done, "Mailbox closed"@)]),
            body is Capability ==> step_replies(r, capability_responses(tag@)),
            body is Noop ==> step_replies(r, seq![status_v(tag@, StatusKind::Done, "NOOP completed"@)]),
            (body is Authenticate || body is Login) && !(old(self).state is NotAuthenticated)
                ==> step_replies(r, seq![status_v(tag@, StatusKind::Refused, "Not supported!"@)]),
            old(self).state is NotAuthenticated ==> match body {
                CommandBody::Authenticate { plain, initial_response } => if !plain {
                    step_replies(r, seq![status_v(tag@, StatusKind::Refused, "Unsupported mechanism"@)])
                } else if initial_response {
                    step_replies(
                        r,
                        seq![status_v(tag@, StatusKind::Refused, "Unexpected initial response"@)],
                    )
                } else {
                    r is Continue
                },
                CommandBody::Login { username, password } => match r {
                    Step::Login(c) => c.username@ == username@ && c.password@ == password@,
                    _ => false,
                },
                _ => true,
            },
            is_authenticated(old(self).state) ==> match body {
                CommandBody::Select { mailbox } => match r {
                    Step::Select(n) => n@ == mailbox@,
                    _ => false,
                },
                CommandBody::Status { mailbox } => match r {
                    Step::Status(n) => n@ == mailbox@,
                    _ => false,
                },
                CommandBody::List { pattern } => if pattern@.len() == 0 {
                    step_replies(
                        r,
                        seq![
                            ResponseV::List { noselect: true, name: Seq::empty() },
                            status_v(tag@, StatusKind::Done, "LIST completed"@),
                        ],
                    )
                } else {
                    r is ListFolders
                },
                CommandBody::Lsub => step_replies(
                    r,
                    seq![status_v(tag@, StatusKind::Done, "LSUB completed"@)],
                ),
                CommandBody::Store { set, kind, silent, flags, uid } => match r {
                    Step::Store(p) => store_plan(tag@, set@, kind, silent, flags@, uid, p),
                    _ => false,
                },
                _ => true,
            },
            match (old(self).state, body) {
                (State::Selected { id, .. }, CommandBody::Fetch { set, items, uid }) => match r {
                    Step::Fetch { id: i, set: s, items: it, uid: u } => i == id && s@ == set@ && it@
                        == items@ && u == uid,
                    _ => false,
                },
                (State::Selected { .. }, _) => true,
                (_, CommandBody::Fetch { .. }) | (_, CommandBody::Close) => step_replies(
                    r,
                    seq![status_v(tag@, StatusKind::Refused, "Not supported!"@)],
                ),
                _ => true,
            },
            !is_authenticated(old(self).state) ==> match body {
                CommandBody::Select { .. } | CommandBody::Status { .. } | CommandBody::List { .. }
                | CommandBody::Lsub | CommandBody::Store { .. } => step_replies(
                    r,
                    seq![status_v(tag@, StatusKind::Refused, "Not supported!"@)],
                ),
                _ => true,
            },
            body is Other ==> step_replies(r, seq![status_v(tag@, StatusKind::Refused, "Not supported!"@)]),
            r matches Step::Reply(v) ==> one_terminal(responses_view(v@), tag@),
            r matches Step::Store(p) ==> one_terminal(responses_view(p.responses@), tag@),
    {
        match body {
            CommandBody::Capability => {
                let r = vec![
                    Response::Capability(capabilities()),
                    tagged_line(tag, StatusKind::Done, "CAPABILITY completed"),
                ];
                assert(responses_view(r@) =~= capability_responses(tag@));
                return Step::Reply(r);
            },
            CommandBody::Noop => {
                return Step::Reply(reply(tag, StatusKind::Done, "NOOP completed"));
            },
            CommandBody::Logout => {
                self.state = State::Logout;
                let r = vec![
                    Response::Status {
                        tag: None,
                        kind: StatusKind::Closing,
                        code: None,
                        text: String::from_str("Logging out!"),
                    },
                    tagged_line(tag, StatusKind::Done, "LOGOUT completed"),
                ];
                assert(responses_view(r@) =~= logout_responses(tag@));
                return Step::Reply(r);
            },
            _ => {},
        }
        let authenticated = match self.state {
            State::Authenticated | State::Selected { .. } => true,
            _ => false,
        };
        let not_authenticated = match self.state {
            State::NotAuthenticated => true,
            _ => false,
        };
        if not_authenticated {
            match body {
                CommandBody::Authenticate { plain, initial_response } => {
                    if !plain {
                        return Step::Reply(reply(tag, StatusKind::Refused, "Unsupported mechanism"));
                    }
                    if initial_response {
                        return Step::Reply(
                            reply(tag, StatusKind::Refused, "Unexpected initial response"),
                        );
                    }
                    return Step::Continue;
                },
                CommandBody::Login { username, password } => {
                    return Step::Login(Credentials { username, password });
                },
                _ => {},
            }
        } else if authenticated {
            match body {
                CommandBody::Select { mailbox } => {
                    return Step::Select(mailbox);
                },
                CommandBody::Status { mailbox } => {
                    return Step::Status(mailbox);
                },
                CommandBody::List { pattern } => {
                    if pattern.as_str().unicode_len() == 0 {
                        let r = vec![
                            Response::List { noselect: true, name: String::new() },
                            tagged_line(tag, StatusKind::Done, "LIST completed"),
                        ];
                        assert(responses_view(r@) =~= seq![
                            ResponseV::List { noselect: true, name: Seq::empty() },
                            status_v(tag@, StatusKind::Done, "LIST completed"@),
                        ]);
                        return Step::Reply(r);
                    }
                    return Step::ListFolders;
                },
                CommandBody::Lsub => {
                    return Step::Reply(crate::lsub::handle(tag));
                },
                CommandBody::Store { set, kind, silent, flags, uid } => {
                    return Step::Store(crate::store::handle(tag, &set, kind, silent, &flags, uid));
                },
                _ => {},
            }
            let selected = match &self.state {
                State::Selected { id, .. } => Some(*id),
                _ => None,
            };
            if let Some(id) = selected {
                match body {
                    CommandBody::Close => {
                        self.state = State::Authenticated;
                        return Step::Reply(reply(tag, StatusKind::Done, "Mailbox closed"));
                    },
                    CommandBody::Fetch { set, items, uid } => {
                        return Step::Fetch { id, set, items, uid };
                    },
                    _ => {},
                }
            }
        }
        Step::Reply(reply(tag, StatusKind::Refused, "Not supported!"))
    }

    /// The line of authentication data that followed a continuation prompt:
    /// `None` when it was not valid base64. A valid PLAIN payload leads to a
    /// backend login; anything else gets a tagged BAD.
    pub fn authenticate_data(&self, tag: &String, payload: Option<Vec<u8>>) -> (r: Step)
        ensures
            match payload {
                None => step_replies(r, seq![status_v(tag@, StatusKind::Invalid, "Invalid BASE64 literal"@)]),
                Some(b) => if exists|i: int, j: int|
                    plain_delims(b@, i, j) && valid_utf8(b@.subrange(i + 1, j)) && valid_utf8(
                        b@.subrange(j + 1, b@.len() as int),
                    ) {
                    match r {
                        Step::Login(c) => exists|i: int, j: int|
                            plain_delims(b@, i, j) && c.username@ == decode_utf8(
                                b@.subrange(i + 1, j),
                            ) && c.password@ == decode_utf8(b@.subrange(j + 1, b@.len() as int)),
                        _ => false,
                    }
                } else {
                    step_replies(r, seq![status_v(tag@, StatusKind::Invalid, "Invalid PLAIN payload"@)])
                },
            },
            r matches Step::Reply(v) ==> one_terminal(responses_view(v@), tag@),
    {
        match payload {
            None => Step::Reply(reply(tag, StatusKind::Invalid, "Invalid BASE64 literal")),
            Some(b) => match parse_plain(&b) {
                Some(c) => Step::Login(c),
                None => Step::Reply(reply(tag, StatusKind::Invalid, "Invalid PLAIN payload")),
            },
        }
    }

    /// The backend's answer to a login: an identity enters the
    /// authenticated state; a refusal leaves the session as it was and is
    /// reported with the backend's message when there is one.
    pub fn login_done(&mut self, tag: &String, outcome: Result<User, Option<String>>) -> (r: Vec<
        Response,
    >)
        requires
            old(self).wf(),
        ensures
            final(self).wf(),
            dir_view(final(self).folders) == dir_view(old(self).folders),
            match outcome {
                Ok(u) => final(self).state is Authenticated && final(self).user == Some(u)
                    && responses_view(r@) == seq![status_v(tag@, StatusKind::Done, "LOGIN completed"@)],
                Err(m) => final(self).state == old(self).state && final(self).user == old(self).user
                    && responses_view(r@) == seq![
                    status_v(
                        tag@,
                        StatusKind::Refused,
                        match m {
                            Some(t) => t@,
                            None => "Login failed"@,
                        },
                    ),
                ],
            },
            one_terminal(responses_view(r@), tag@),
    {
        match outcome {
            Ok(u) => {
                self.state = State::Authenticated;
                self.user = Some(u);
                reply(tag, StatusKind::Done, "LOGIN completed")
            },
            Err(Some(m)) => {
                let r = vec![
                    Response::Status {
                        tag: Some(tag.clone()),
                        kind: StatusKind::Refused,
                        code: None,
                        text: m,
                    },
                ];
                assert(responses_view(r@) =~= seq![
                    status_v(tag@, StatusKind::Refused, r@[0]->Status_text@),
                ]);
                r
            },
            Err(None) => reply(tag, StatusKind::Refused, "Login failed"),
        }
    }

    /// Looks `name` up in the cached directory; asks for a rebuild when
    /// there is none or the name misses and no rebuild was made yet.
    pub fn resolve(&self, name: &String, refreshed: bool) -> (r: Resolution)
        requires
            self.wf(),
        ensures
            r == resolve_spec(dir_view(self.folders), name@, refreshed),
    {
        match &self.folders {
            Some(d) => match d.lookup(name) {
                Some(id) => Resolution::Found(id),
                None => if refreshed {
                    Resolution::Missing
                } else {
                    Resolution::Refresh
                },
            },
            None => if refreshed {
                Resolution::Missing
            } else {
                Resolution::Refresh
            },
        }
    }

    /// Replaces the cached directory with one rebuilt from the backend's
    /// folder list.
    pub fn install_folders(&mut self, folders: Vec<(String, u32)>)
        requires
            old(self).wf(),
        ensures
            final(self).wf(),
            final(self).state == old(self).state,
            final(self).user == old(self).user,
            dir_view(final(self).folders) == Some(
                crate::mailbox::with_fixed(crate::mailbox::folder_map(crate::mailbox::folders_view(folders@))),
            ),
    {
        self.folders = Some(make_folders(folders));
    }

    /// LIST with a non-empty pattern: rebuilds the directory from the
    /// backend's folder list and lists every entry, then the tagged OK.
    pub fn list_done(&mut self, tag: &String, folders: Vec<(String, u32)>) -> (r: Vec<Response>)
        requires
            old(self).wf(),
        ensures
            final(self).wf(),
            final(self).state == old(self).state,
            final(self).user == old(self).user,
            final(self).folders matches Some(d) && d@ == crate::mailbox::with_fixed(
                crate::mailbox::folder_map(crate::mailbox::folders_view(folders@)),
            ) && r@.len() == d@.dom().len() + 1 && responses_view(r@).drop_last().map_values(
                |v: ResponseV| v->List_name,
            ).to_set() == d@.dom() && (forall|i: int|
                0 <= i < r@.len() - 1 ==> (#[trigger] r@[i]@) is List && !r@[i]@->List_noselect),
            responses_view(r@).last() == status_v(tag@, StatusKind::Done, "LIST completed"@),
            one_terminal(responses_view(r@), tag@),
    {
        let d = make_folders(folders);
        let mut r = filter(&d);
        let ghost entries = r@;
        r.push(tagged_line(tag, StatusKind::Done, "LIST completed"));
        assert(responses_view(r@).drop_last() =~= responses_view(entries));
        self.folders = Some(d);
        r
    }

    /// SELECT of mailbox `name`, found as `id`, at a date of year `year` and
    /// month `month`: the mailbox data, the tagged OK [READ-WRITE], and the
    /// session enters the selected state. A date whose school year is not
    /// positive is refused and changes nothing.
    pub fn select_at(
        &mut self,
        tag: &String,
        name: String,
        id: MailboxId,
        counts: &FolderCounts,
        year: i32,
        month: u32,
    ) -> (r: Vec<Response>)
        requires
            old(self).wf(),
            is_authenticated(old(self).state),
            1 <= month <= 12,
        ensures
            final(self).wf(),
            final(self).user == old(self).user,
            dir_view(final(self).folders) == dir_view(old(self).folders),
            spec_school_year(year as int, month as int) >= 1 ==> {
                &&& final(self).state matches State::Selected { name: n, id: i } && n@ == name@ && i == id
                &&& responses_view(r@) == info_responses(
                    id,
                    *counts,
                    spec_school_year(year as int, month as int) as u32,
                ).push(
                    ResponseV::Status {
                        tag: Some(tag@),
                        kind: StatusKind::Done,
                        code: Some(CodeV::ReadWrite),
                        text: "SELECT completed"@,
                    },
                )
            },
            spec_school_year(year as int, month as int) < 1 ==> final(self).state == old(self).state
                && responses_view(r@) == seq![status_v(tag@, StatusKind::Refused, "Clock out of range"@)],
            one_terminal(responses_view(r@), tag@),
    {
        match school_year(year, month) {
            Some(y) => {
                let mut r = mailbox_info(id, counts, y);
                let ghost before = r@;
                r.push(
                    Response::Status {
                        tag: Some(tag.clone()),
                        kind: StatusKind::Done,
                        code: Some(Code::ReadWrite),
                        text: String::from_str("SELECT completed"),
                    },
                );
                assert(responses_view(r@) =~= responses_view(before).push(r@.last()@));
                self.state = State::Selected { name, id };
                r
            },
            None => reply(tag, StatusKind::Refused, "Clock out of range"),
        }
    }

    /// SELECT of mailbox `name`, found as `id`, today: as `select_at` with
    /// the local date, whose school year is always positive, so the
    /// mailbox is always selected.
    pub fn select_done(&mut self, tag: &String, name: String, id: MailboxId, counts: &FolderCounts) -> (r: Vec<
        Response,
    >)
        requires
            old(self).wf(),
            is_authenticated(old(self).state),
        ensures
            final(self).wf(),
            final(self).user == old(self).user,
            dir_view(final(self).folders) == dir_view(old(self).folders),
            final(self).state matches State::Selected { name: n, id: i } && n@ == name@ && i == id,
            exists|year: u32|
                year >= 1968 && responses_view(r@) == (#[trigger] info_responses(id, *counts, year)).push(
                    ResponseV::Status {
                        tag: Some(tag@),
                        kind: StatusKind::Done,
                        code: Some(CodeV::ReadWrite),
                        text: "SELECT completed"@,
                    },
                ),
            one_terminal(responses_view(r@), tag@),
    {
        let (year, month) = local_year_month();
        self.select_at(tag, name, id, counts, year, month)
    }
}

/// Relies on chrono: `Local::now().date_naive()`, its `year()` and its
/// `month()`, which is in 1..=12. `Local::now` converts `Utc::now`, which
/// is never before the Unix epoch, so the local year is at least 1969.
#[verifier::external_body]
fn local_year_month() -> (r: (i32, u32))
    ensures
        1 <= r.1 <= 12,
        r.0 >= 1969,
{
    let d = chrono::Local::now().date_naive();
    (chrono::Datelike::year(&d), chrono::Datelike::month(&d))
}

/// The answer to a SELECT whose mailbox the directory does not hold.
pub fn select_missing(tag: &String) -> (r: Vec<Response>)
    ensures
        responses_view(r@) == seq![status_v(tag@, StatusKind::Refused, "No such mailbox!"@)],
        one_terminal(responses_view(r@), tag@),
{
    reply(tag, StatusKind::Refused, "No such mailbox!")
}

/// The answer to a STATUS whose mailbox the directory does not hold.
pub fn status_missing(tag: &String) -> (r: Vec<Response>)
    ensures
        responses_view(r@) == seq![status_v(tag@, StatusKind::Refused, "STATUS No such mailbox!"@)],
        one_terminal(responses_view(r@), tag@),
{
    reply(tag, StatusKind::Refused, "STATUS No such mailbox!")
}

/// The answer to a command whose backend call failed: a tagged NO citing
/// the backend's message when there is one.
pub fn backend_failure(tag: &String, message: Option<String>) -> (r: Vec<Response>)
    ensures
        responses_view(r@) == seq![
            status_v(
                tag@,
                StatusKind::Refused,
                match message {
                    Some(m) => m@,
                    None => "Backend request failed"@,
                },
            ),
        ],
        one_terminal(responses_view(r@), tag@),
{
    match message {
        Some(m) => {
            let r = vec![Response::Status { tag: Some(tag.clone()), kind: StatusKind::Refused, code: None, text: m }];
            assert(responses_view(r@) =~= seq![status_v(tag@, StatusKind::Refused, r@[0]->Status_text@)]);
            r
        },
        None => reply(tag, StatusKind::Refused, "Backend request failed"),
    }
}

} // verus!
