use ecoledirecte_imap::auth::parse_plain;
use ecoledirecte_imap::fetch::{
    content_wanted, fetch, fetch_snapshot, handle as fetch_handle, render_date, render_dates, ItemName, MessageContent,
};
use ecoledirecte_imap::framing::{next_action, peek_action, Action, Decoded, InputBuffer, PeekAction, Peeked};
use ecoledirecte_imap::lsub::handle as lsub_handle;
use ecoledirecte_imap::mailbox::{filter, make_folders, mailbox_info, school_year, FolderCounts, MailboxId};
use ecoledirecte_imap::message::{flags_of, make_body, make_header, Attachment, AttachmentData, Message, Recipient, RecipientKind};
use ecoledirecte_imap::response::{capabilities, Capability, Code, FetchItem, Flag, Response, StatusKind};
use ecoledirecte_imap::sequence::{SeqOrUid, Sequence};
use ecoledirecte_imap::session::{backend_failure, CommandBody, Resolution, Role, Session, State, Step, User};
use ecoledirecte_imap::status::handle as status_handle;
use ecoledirecte_imap::store::{handle as store_handle, BackendCall, StoreFlag, StoreKind};
use ecoledirecte_imap::text::decimal;

fn admits(set: &Vec<Sequence>, p: u32) -> bool {
    ecoledirecte_imap::sequence::matches(set, p, 5000)
}

fn s(x: &str) -> String {
    x.to_string()
}

fn message(id: u32, read: bool, files: Vec<Attachment>) -> Message {
    Message {
        id,
        read,
        answered: false,
        draft: false,
        from: s("Alice"),
        recipients: vec![
            Recipient { name: s("Bob"), kind: RecipientKind::To },
            Recipient { name: s("Carol"), kind: RecipientKind::Cc },
        ],
        subject: s("Hello"),
        date: s("2024-03-05 10:20:30"),
        received: true,
        response_id: 0,
        forward_id: 0,
        files,
    }
}

fn is_tagged(r: &Response, tag: &str, kind: StatusKind, text: &str) -> bool {
    match r {
        Response::Status { tag: Some(t), kind: k, text: x, .. } => t == tag && *k == kind && x == text,
        _ => false,
    }
}

fn authenticated() -> Session {
    let mut session = Session::new();
    session.greet();
    let out = session.login_done(&s("a1"), Ok(User { role: Role::Individual, id: 7, token: s("tok") }));
    assert!(is_tagged(&out[0], "a1", StatusKind::Done, "LOGIN completed"));
    session
}

#[test]
fn sequence_single_and_wildcard() {
    let set = vec![Sequence::Single(SeqOrUid::Value(3))];
    assert!(admits(&set, 3));
    assert!(!admits(&set, 4));
    let star = vec![Sequence::Single(SeqOrUid::Asterisk)];
    assert!(ecoledirecte_imap::sequence::matches(&star, 99, 99));
    assert!(!ecoledirecte_imap::sequence::matches(&star, 98, 99));
    assert!(!admits(&vec![], 1));
}

#[test]
fn sequence_ranges_any_order_and_open_sides() {
    let fwd = vec![Sequence::Range(SeqOrUid::Value(2), SeqOrUid::Value(5))];
    let rev = vec![Sequence::Range(SeqOrUid::Value(5), SeqOrUid::Value(2))];
    for p in 0..8u32 {
        assert_eq!(admits(&fwd, p), (2..=5).contains(&p));
        assert_eq!(admits(&rev, p), (2..=5).contains(&p));
    }
    let low_open = vec![Sequence::Range(SeqOrUid::Asterisk, SeqOrUid::Value(4))];
    assert!(admits(&low_open, 1) && admits(&low_open, 4) && !admits(&low_open, 5));
    let high_open = vec![Sequence::Range(SeqOrUid::Value(4), SeqOrUid::Asterisk)];
    assert!(!admits(&high_open, 3) && admits(&high_open, 4) && admits(&high_open, 4000));
}

#[test]
fn sequence_matches_naive_enumeration() {
    let set = vec![
        Sequence::Single(SeqOrUid::Value(1)),
        Sequence::Range(SeqOrUid::Value(7), SeqOrUid::Value(5)),
        Sequence::Range(SeqOrUid::Value(20), SeqOrUid::Asterisk),
    ];
    let bound = 25u32;
    let star = vec![Sequence::Single(SeqOrUid::Asterisk)];
    for p in 1..=bound {
        assert_eq!(ecoledirecte_imap::sequence::matches(&star, p, 17), p == 17);
    }
    let mut listed = std::collections::BTreeSet::new();
    listed.insert(1u32);
    for x in 5..=7 {
        listed.insert(x);
    }
    for x in 20..=bound {
        listed.insert(x);
    }
    for p in 1..=bound {
        assert_eq!(admits(&set, p), listed.contains(&p), "position {}", p);
    }
}

#[test]
fn directory_has_fixed_entries_and_custom_folders() {
    let d = make_folders(vec![(s("Clubs"), 12), (s("INBOX"), 99)]);
    assert_eq!(d.lookup(&s("INBOX")), Some(MailboxId::Received(0)));
    assert_eq!(d.lookup(&s("Sent")), Some(MailboxId::Sent));
    assert_eq!(d.lookup(&s("Trash")), Some(MailboxId::Archived));
    assert_eq!(d.lookup(&s("Drafts")), Some(MailboxId::Draft));
    assert_eq!(d.lookup(&s("Clubs")), Some(MailboxId::Received(12)));
    assert_eq!(d.lookup(&s("clubs")), None);
    let mut names = d.names();
    names.sort();
    assert_eq!(names, vec![s("Clubs"), s("Drafts"), s("INBOX"), s("Sent"), s("Trash")]);
    assert_eq!(filter(&d).len(), 5);
}

#[test]
fn directory_miss_refreshes_once_then_fails() {
    let mut session = authenticated();
    let name = s("Nowhere");
    let mut refreshes = 0;
    let mut refreshed = false;
    let outcome = loop {
        match session.resolve(&name, refreshed) {
            Resolution::Refresh => {
                refreshes += 1;
                session.install_folders(vec![(s("Clubs"), 3)]);
                refreshed = true;
            }
            other => break other,
        }
    };
    assert_eq!(outcome, Resolution::Missing);
    assert_eq!(refreshes, 1);
}

#[test]
fn directory_hit_never_refreshes() {
    let mut session = authenticated();
    session.install_folders(vec![(s("Clubs"), 3)]);
    assert_eq!(session.resolve(&s("Clubs"), false), Resolution::Found(MailboxId::Received(3)));
    assert_eq!(session.resolve(&s("INBOX"), true), Resolution::Found(MailboxId::Received(0)));
}

#[test]
fn directory_miss_then_hit_after_refresh() {
    let mut session = authenticated();
    session.install_folders(vec![]);
    assert_eq!(session.resolve(&s("Clubs"), false), Resolution::Refresh);
    session.install_folders(vec![(s("Clubs"), 3)]);
    assert_eq!(session.resolve(&s("Clubs"), true), Resolution::Found(MailboxId::Received(3)));
}

#[test]
fn authentication_rejected_once_authenticated() {
    let mut session = authenticated();
    let step = session.process(&s("a2"), CommandBody::Login { username: s("u"), password: s("p") });
    match step {
        Step::Reply(r) => {
            assert_eq!(r.len(), 1);
            assert!(is_tagged(&r[0], "a2", StatusKind::Refused, "Not supported!"));
        }
        _ => panic!("expected a reply"),
    }
    assert!(matches!(session.state, State::Authenticated));
    let step = session.process(&s("a3"), CommandBody::Authenticate { plain: true, initial_response: false });
    assert!(matches!(step, Step::Reply(_)));
    assert!(matches!(session.state, State::Authenticated));
}

#[test]
fn logout_from_every_state() {
    let mut fresh = Session::new();
    let mut greeted = Session::new();
    greeted.greet();
    let authed = authenticated();
    for mut session in vec![fresh, greeted, authed] {
        match session.process(&s("z"), CommandBody::Logout) {
            Step::Reply(r) => {
                assert_eq!(r.len(), 2);
                assert!(matches!(&r[0], Response::Status { tag: None, kind: StatusKind::Closing, .. }));
                assert!(is_tagged(&r[1], "z", StatusKind::Done, "LOGOUT completed"));
            }
            _ => panic!("expected a reply"),
        }
        assert!(matches!(session.state, State::Logout));
    }
    fresh = Session::new();
    assert!(matches!(fresh.state, State::Greeting));
}

#[test]
fn authenticate_handshake_and_plain_payload() {
    let mut session = Session::new();
    session.greet();
    let step = session.process(&s("t"), CommandBody::Authenticate { plain: false, initial_response: false });
    assert!(matches!(step, Step::Reply(ref r) if is_tagged(&r[0], "t", StatusKind::Refused, "Unsupported mechanism")));
    let step = session.process(&s("t"), CommandBody::Authenticate { plain: true, initial_response: true });
    assert!(matches!(step, Step::Reply(ref r) if is_tagged(&r[0], "t", StatusKind::Refused, "Unexpected initial response")));
    let step = session.process(&s("t"), CommandBody::Authenticate { plain: true, initial_response: false });
    assert!(matches!(step, Step::Continue));
    match session.authenticate_data(&s("t"), Some(b"\0user\0secret".to_vec())) {
        Step::Login(c) => {
            assert_eq!(c.username, "user");
            assert_eq!(c.password, "secret");
        }
        _ => panic!("expected a login"),
    }
    let bad = session.authenticate_data(&s("t"), Some(b"\0user".to_vec()));
    assert!(matches!(bad, Step::Reply(ref r) if is_tagged(&r[0], "t", StatusKind::Invalid, "Invalid PLAIN payload")));
    let bad = session.authenticate_data(&s("t"), None);
    assert!(matches!(bad, Step::Reply(ref r) if is_tagged(&r[0], "t", StatusKind::Invalid, "Invalid BASE64 literal")));
    assert!(matches!(session.state, State::NotAuthenticated));
}

#[test]
fn plain_payload_parsing() {
    let c = parse_plain(&b"admin\0jo\xc3\xa9\0pw".to_vec()).unwrap();
    assert_eq!(c.username, "jo\u{e9}");
    assert_eq!(c.password, "pw");
    assert!(parse_plain(&b"a\0b\0c\0d".to_vec()).is_none());
    assert!(parse_plain(&b"ab".to_vec()).is_none());
    assert!(parse_plain(&b"\0\xff\0pw".to_vec()).is_none());
}

#[test]
fn login_failure_keeps_state() {
    let mut session = Session::new();
    session.greet();
    let r = session.login_done(&s("l"), Err(Some(s("Mot de passe invalide"))));
    assert!(is_tagged(&r[0], "l", StatusKind::Refused, "Mot de passe invalide"));
    let r = session.login_done(&s("l"), Err(None));
    assert!(is_tagged(&r[0], "l", StatusKind::Refused, "Login failed"));
    assert!(matches!(session.state, State::NotAuthenticated));
    assert!(session.user.is_none());
}

#[test]
fn commands_outside_their_state_are_refused() {
    let mut session = Session::new();
    session.greet();
    let step = session.process(&s("f"), CommandBody::Select { mailbox: s("INBOX") });
    assert!(matches!(step, Step::Reply(ref r) if is_tagged(&r[0], "f", StatusKind::Refused, "Not supported!")));
    let mut session = authenticated();
    let step = session.process(&s("f"), CommandBody::Fetch { set: vec![], items: vec![], uid: false });
    assert!(matches!(step, Step::Reply(ref r) if is_tagged(&r[0], "f", StatusKind::Refused, "Not supported!")));
    let step = session.process(&s("f"), CommandBody::Other);
    assert!(matches!(step, Step::Reply(ref r) if is_tagged(&r[0], "f", StatusKind::Refused, "Not supported!")));
}

#[test]
fn capability_and_noop() {
    let mut session = Session::new();
    match session.process(&s("c"), CommandBody::Capability) {
        Step::Reply(r) => {
            assert_eq!(r[0], Response::Capability(vec![Capability::Imap4Rev1, Capability::AuthPlain]));
            assert!(is_tagged(&r[1], "c", StatusKind::Done, "CAPABILITY completed"));
        }
        _ => panic!("expected a reply"),
    }
    assert_eq!(capabilities(), vec![Capability::Imap4Rev1, Capability::AuthPlain]);
    assert!(matches!(session.process(&s("n"), CommandBody::Noop), Step::Reply(ref r) if is_tagged(&r[0], "n", StatusKind::Done, "NOOP completed")));
}

#[test]
fn select_inbox_reports_counts() {
    let mut session = authenticated();
    let name = match session.process(&s("s"), CommandBody::Select { mailbox: s("INBOX") }) {
        Step::Select(n) => n,
        _ => panic!("expected a select"),
    };
    assert_eq!(session.resolve(&name, false), Resolution::Refresh);
    session.install_folders(vec![]);
    let id = match session.resolve(&name, true) {
        Resolution::Found(id) => id,
        _ => panic!("INBOX is always known"),
    };
    let counts = FolderCounts { received: 3, received_unread: Some(1), sent: 0, draft: 0, archived: 0 };
    let r = session.select_at(&s("s"), name, id, &counts, 2024, 10);
    assert_eq!(r[0], Response::Flags(vec![Flag::Seen, Flag::Answered]));
    assert_eq!(r[1], Response::Exists(3));
    assert_eq!(r[2], Response::Recent(0));
    assert!(matches!(&r[4], Response::Status { code: Some(Code::UidValidity(2024)), text, .. } if text == "Valide en 2024-2025"));
    assert!(matches!(&r[5], Response::Status { code: Some(Code::Unseen(1)), .. }));
    assert!(matches!(&r[6], Response::Status { tag: Some(t), kind: StatusKind::Done, code: Some(Code::ReadWrite), .. } if t == "s"));
    assert_eq!(r.len(), 7);
    assert!(matches!(&session.state, State::Selected { name, id: MailboxId::Received(0) } if name == "INBOX"));
    let r = session.select_done(&s("s2"), s("INBOX"), MailboxId::Received(0), &counts);
    assert!(matches!(r.last(), Some(Response::Status { code: Some(Code::ReadWrite), .. })));
}

#[test]
fn school_year_boundaries() {
    assert_eq!(school_year(2024, 8), Some(2023));
    assert_eq!(school_year(2024, 9), Some(2024));
    assert_eq!(school_year(2024, 12), Some(2024));
    assert_eq!(school_year(1, 1), None);
    assert_eq!(school_year(-5, 10), None);
}

#[test]
fn mailbox_info_without_unseen_for_other_kinds() {
    let counts = FolderCounts { received: 3, received_unread: Some(1), sent: 4, draft: 2, archived: 9 };
    let r = mailbox_info(MailboxId::Sent, &counts, 2023);
    assert_eq!(r.len(), 5);
    assert_eq!(r[1], Response::Exists(4));
    let r = mailbox_info(MailboxId::Received(0), &FolderCounts { received_unread: Some(0), ..counts }, 2023);
    assert_eq!(r.len(), 5);
}

#[test]
fn status_counts_by_kind() {
    let counts = FolderCounts { received: 3, received_unread: Some(1), sent: 4, draft: 2, archived: 9 };
    let r = status_handle(&s("st"), &s("INBOX"), MailboxId::Received(0), &counts);
    assert_eq!(r[0], Response::StatusData { mailbox: s("INBOX"), messages: 3, unseen: Some(1) });
    assert!(is_tagged(&r[1], "st", StatusKind::Done, "STATUS completed"));
    let r = status_handle(&s("st"), &s("Trash"), MailboxId::Archived, &counts);
    assert_eq!(r[0], Response::StatusData { mailbox: s("Trash"), messages: 9, unseen: None });
}

#[test]
fn list_and_lsub() {
    let mut session = authenticated();
    match session.process(&s("l"), CommandBody::List { pattern: s("") }) {
        Step::Reply(r) => {
            assert_eq!(r[0], Response::List { noselect: true, name: s("") });
            assert!(is_tagged(&r[1], "l", StatusKind::Done, "LIST completed"));
        }
        _ => panic!("expected a reply"),
    }
    assert!(matches!(session.process(&s("l"), CommandBody::List { pattern: s("*") }), Step::ListFolders));
    let r = session.list_done(&s("l"), vec![(s("Clubs"), 2)]);
    assert_eq!(r.len(), 6);
    assert!(is_tagged(&r[5], "l", StatusKind::Done, "LIST completed"));
    let r = lsub_handle(&s("u"));
    assert_eq!(r.len(), 1);
    assert!(is_tagged(&r[0], "u", StatusKind::Done, "LSUB completed"));
}

#[test]
fn store_remove_seen_is_one_bulk_call() {
    let set = vec![Sequence::Single(SeqOrUid::Value(10)), Sequence::Single(SeqOrUid::Value(11))];
    let plan = store_handle(&s("w"), &set, StoreKind::Remove, true, &vec![StoreFlag::Seen], true);
    assert_eq!(plan.calls, vec![BackendCall::MarkUnread(vec![10, 11])]);
    assert_eq!(plan.responses.len(), 1);
    assert!(is_tagged(&plan.responses[0], "w", StatusKind::Done, "STORE completed"));
}

#[test]
fn store_add_seen_retrieves_each_message() {
    let set = vec![Sequence::Single(SeqOrUid::Value(10)), Sequence::Single(SeqOrUid::Value(11))];
    let plan = store_handle(&s("w"), &set, StoreKind::Add, true, &vec![StoreFlag::Seen], true);
    assert_eq!(plan.calls, vec![BackendCall::Retrieve(10), BackendCall::Retrieve(11)]);
}

#[test]
fn store_refusals() {
    let set = vec![Sequence::Single(SeqOrUid::Value(10))];
    let seen = vec![StoreFlag::Seen];
    let cases = vec![
        (store_handle(&s("w"), &set, StoreKind::Add, true, &seen, false), "STORE Not supported (no UID)!"),
        (store_handle(&s("w"), &set, StoreKind::Replace, true, &seen, true), "STORE Not supported (bad store type)!"),
        (store_handle(&s("w"), &set, StoreKind::Add, true, &vec![StoreFlag::Other], true), "STORE Not supported (bad flags)!"),
        (store_handle(&s("w"), &set, StoreKind::Add, true, &vec![StoreFlag::Seen, StoreFlag::Seen], true), "STORE Not supported (bad flags)!"),
        (store_handle(&s("w"), &vec![Sequence::Range(SeqOrUid::Value(1), SeqOrUid::Value(3))], StoreKind::Add, true, &seen, true), "STORE Not supported (ranges)!"),
        (store_handle(&s("w"), &vec![Sequence::Single(SeqOrUid::Asterisk)], StoreKind::Add, true, &seen, true), "STORE Not supported (ranges)!"),
        (store_handle(&s("w"), &set, StoreKind::Add, false, &seen, true), "STORE Not supported (answer)!"),
    ];
    for (plan, text) in cases {
        assert!(plan.calls.is_empty());
        assert!(is_tagged(&plan.responses[0], "w", StatusKind::Refused, text), "{}", text);
    }
}

#[test]
fn flags_follow_message_fields() {
    let mut m = message(5, true, vec![]);
    m.draft = true;
    assert_eq!(flags_of(&m), vec![Flag::Seen, Flag::Draft]);
    m.read = false;
    m.answered = true;
    assert_eq!(flags_of(&m), vec![Flag::Answered, Flag::Draft]);
}

#[test]
fn header_lines_in_order() {
    let mut m = message(42, false, vec![]);
    m.recipients.push(Recipient { name: s("Dan"), kind: RecipientKind::To });
    m.recipients.push(Recipient { name: s("Eve"), kind: RecipientKind::Bcc });
    m.response_id = 40;
    m.forward_id = 0;
    let h = make_header(&m, "Tue, 5 Mar 2024 10:20:30 +0100");
    assert_eq!(
        h,
        "Subject: Hello\r\nDate: Tue, 5 Mar 2024 10:20:30 +0100\r\nMIME-Version: 1.0\r\nFrom: \"Alice\" <>\r\nMessage-ID: <42@>\r\nTo: \"Bob\" <>,\r\n \"Dan\" <>,\r\n Me\r\nCc: \"Carol\" <>\r\nBcc: \"Eve\" <>\r\nIn-Reply-To: <40@>"
    );
    m.received = false;
    m.recipients.clear();
    m.response_id = 0;
    m.forward_id = 9;
    let h = make_header(&m, "D");
    assert_eq!(h, "Subject: Hello\r\nDate: D\r\nMIME-Version: 1.0\r\nFrom: \"Alice\" <>\r\nMessage-ID: <42@>\r\nRecent-Message-ID: <9@>");
}

#[test]
fn body_without_attachments_is_one_part() {
    let b = make_body(&s("H"), &s("PGI+"), &vec![]);
    assert_eq!(b, "H\r\nContent-Type: text/html\r\nContent-Transfer-Encoding: base64\r\n\r\nPGI+");
    assert!(!b.contains("=PARTLIMIT"));
}

#[test]
fn body_with_attachments_is_multipart() {
    let png = vec![0x89, b'P', b'N', b'G', 0x0D, 0x0A, 0x1A, 0x0A, 0, 0, 0, 0];
    let atts = vec![
        AttachmentData { name: s("a.png"), bytes: png },
        AttachmentData { name: s("b.bin"), bytes: vec![0x01, 0x02, 0x03] },
    ];
    let b = make_body(&s("H"), &s("PGI+"), &atts);
    assert!(b.starts_with("H\r\nContent-Type: multipart/mixed; boundary=\"=PARTLIMIT\"\r\n\r\n--=PARTLIMIT\r\nContent-Disposition: inline\r\nContent-Type: text/html\r\nContent-Transfer-Encoding: base64\r\n\r\nPGI+"));
    assert_eq!(b.matches("--=PARTLIMIT\r\n").count(), 3);
    assert!(b.ends_with("\r\n--=PARTLIMIT--\r\n"));
    assert_eq!(b.matches("Content-Disposition: attachment").count(), 2);
    assert!(b.contains("Content-Type: image/png; name=\"a.png\""));
    assert!(b.contains("Content-Type: application/octet-stream; name=\"b.bin\""));
    assert!(b.contains("Content-Description: b.bin\r\n\r\nAQID"));
}

#[test]
fn decimal_digits() {
    assert_eq!(decimal(0), "0");
    assert_eq!(decimal(7), "7");
    assert_eq!(decimal(2025), "2025");
    assert_eq!(decimal(u64::MAX), u64::MAX.to_string());
}

#[test]
fn date_rendering() {
    let m = message(1, false, vec![]);
    let d = render_date(&m).expect("a plain local date renders");
    assert_ne!(d, m.date);
    assert!(d.contains(", 5 Mar 2024 10:20:30 "), "{}", d);
    let offset = &d[d.len() - 5..];
    assert!(offset.starts_with('+') || offset.starts_with('-'));
    assert_eq!(render_dates(&vec![m.clone()]), vec![Some(d.clone())]);
    let mut bad = message(1, false, vec![]);
    bad.date = s("yesterday");
    assert!(render_date(&bad).is_none());
    bad.date = s("9999-12-31 23:59:59");
    assert!(render_date(&bad).is_none());
}

#[test]
fn fetch_all_by_uid_on_two_messages() {
    let messages = vec![message(101, true, vec![]), message(102, false, vec![])];
    let set = vec![Sequence::Range(SeqOrUid::Value(1), SeqOrUid::Asterisk)];
    let items = vec![ItemName::Flags, ItemName::Unsupported, ItemName::Unsupported, ItemName::Unsupported];
    let r = fetch(&s("f"), &set, &items, true, &messages, &vec![None, None]);
    assert_eq!(r.len(), 3);
    assert_eq!(r[0], Response::Fetch { seq: 1, items: vec![FetchItem::Flags(vec![Flag::Seen]), FetchItem::Uid(101)] });
    assert_eq!(r[1], Response::Fetch { seq: 2, items: vec![FetchItem::Flags(vec![]), FetchItem::Uid(102)] });
    assert!(is_tagged(&r[2], "f", StatusKind::Done, "FETCH completed, some items omitted"));
}

#[test]
fn fetch_by_position_and_body() {
    let messages = vec![message(101, true, vec![]), message(102, false, vec![Attachment { id: 5, name: s("x.bin") }])];
    let set = vec![Sequence::Single(SeqOrUid::Value(2))];
    let contents = vec![None, Some(MessageContent { html: s("PGI+"), attachments: vec![AttachmentData { name: s("x.bin"), bytes: vec![1, 2, 3] }] })];
    let dates = vec![None, Some(s("D"))];
    let r = fetch_handle(&s("g"), &set, &vec![ItemName::Body, ItemName::Rfc822Header], false, &messages, &dates, &contents);
    assert_eq!(r.len(), 2);
    match &r[0] {
        Response::Fetch { seq: 2, items } => {
            assert_eq!(items.len(), 2);
            assert!(matches!(&items[0], FetchItem::Body(b) if b.contains("boundary=\"=PARTLIMIT\"") && b.contains("AQID")));
            assert!(matches!(&items[1], FetchItem::Rfc822Header(h) if h.starts_with("Subject: Hello\r\nDate: D\r\n")));
        }
        _ => panic!("expected fetch data"),
    }
    assert!(is_tagged(&r[1], "g", StatusKind::Done, "FETCH completed"));
}

#[test]
fn framing_decisions() {
    assert_eq!(next_action(Decoded::Complete { consumed: 9 }, 20, 1024), Action::Dispatch { consumed: 9 });
    assert_eq!(next_action(Decoded::Incomplete, 20, 1024), Action::Read);
    assert_eq!(next_action(Decoded::Incomplete, 1024, 1024), Action::Overflow);
    assert_eq!(next_action(Decoded::Failed, 3, 1024), Action::Malformed);
    assert_eq!(next_action(Decoded::Literal, 3, 1024), Action::LiteralUnsupported);
    assert_eq!(peek_action(Peeked::Line { len: 6 }, 10, 1024, false), PeekAction::Take { len: 6 });
    assert_eq!(peek_action(Peeked::Incomplete, 10, 1024, false), PeekAction::LookFurther { len: 11 });
    assert_eq!(peek_action(Peeked::Incomplete, 10, 1024, true), PeekAction::Abandon);
    assert_eq!(peek_action(Peeked::Failed, 10, 1024, false), PeekAction::Reject { len: 10 });
    assert_eq!(peek_action(Peeked::Incomplete, 1024, 1024, false), PeekAction::Overflow);
    assert_eq!(peek_action(Peeked::Incomplete, 1024, 1024, true), PeekAction::Abandon);
}

#[test]
fn input_buffer_keeps_pipelined_bytes() {
    let mut b = InputBuffer::new(16);
    b.append(b"a1 NOOP\r\na2 ");
    assert_eq!(b.room(), 4);
    b.consume(9);
    assert_eq!(b.bytes(), &b"a2 ".to_vec());
    b.append(b"X");
    assert_eq!(b.bytes(), &b"a2 X".to_vec());
    b.clear();
    assert_eq!(b.len(), 0);
    assert_eq!(b.capacity(), 16);
}

#[test]
fn close_returns_to_authenticated() {
    let mut session = authenticated();
    session.install_folders(vec![]);
    let counts = FolderCounts { received: 0, received_unread: None, sent: 0, draft: 0, archived: 0 };
    session.select_at(&s("s"), s("Sent"), MailboxId::Sent, &counts, 2024, 1);
    match session.process(&s("f"), CommandBody::Fetch { set: vec![], items: vec![ItemName::Flags], uid: true }) {
        Step::Fetch { id, uid, .. } => {
            assert_eq!(id, MailboxId::Sent);
            assert!(uid);
        }
        _ => panic!("expected a fetch"),
    }
    assert!(matches!(session.process(&s("c"), CommandBody::Close), Step::Reply(ref r) if is_tagged(&r[0], "c", StatusKind::Done, "Mailbox closed")));
    assert!(matches!(session.state, State::Authenticated));
}

#[test]
fn fetch_lone_wildcard_is_the_highest_key() {
    let messages = vec![message(101, true, vec![]), message(107, false, vec![]), message(103, false, vec![])];
    let star = vec![Sequence::Single(SeqOrUid::Asterisk)];
    let r = fetch(&s("h"), &star, &vec![ItemName::Flags], true, &messages, &vec![None, None, None]);
    assert_eq!(r.len(), 2);
    assert_eq!(r[0], Response::Fetch { seq: 2, items: vec![FetchItem::Flags(vec![]), FetchItem::Uid(107)] });
    let r = fetch(&s("h"), &star, &vec![ItemName::Flags], false, &messages, &vec![None, None, None]);
    assert_eq!(r.len(), 2);
    assert_eq!(r[0], Response::Fetch { seq: 3, items: vec![FetchItem::Flags(vec![])] });
    assert!(is_tagged(&r[1], "h", StatusKind::Done, "FETCH completed"));
}

#[test]
fn content_is_wanted_only_for_the_body() {
    let messages = vec![message(101, true, vec![]), message(102, false, vec![])];
    let set = vec![Sequence::Single(SeqOrUid::Value(2))];
    assert_eq!(content_wanted(&set, &vec![ItemName::Flags, ItemName::Body], false, &messages), vec![1]);
    assert!(content_wanted(&set, &vec![ItemName::Flags], false, &messages).is_empty());
    let r = fetch_snapshot(&s("k"), &set, &vec![ItemName::Flags], false, &messages, &vec![None, None]);
    assert_eq!(r[0], Response::Fetch { seq: 2, items: vec![FetchItem::Flags(vec![])] });
}

#[test]
fn backend_failures_cite_the_message() {
    let r = backend_failure(&s("b"), Some(s("Session expired")));
    assert_eq!(r.len(), 1);
    assert!(is_tagged(&r[0], "b", StatusKind::Refused, "Session expired"));
    let r = backend_failure(&s("b"), None);
    assert!(is_tagged(&r[0], "b", StatusKind::Refused, "Backend request failed"));
}
