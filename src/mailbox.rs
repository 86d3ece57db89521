//! Mailbox identifiers and the directory that maps folder names to them.
use vstd::prelude::*;
use crate::response::{responses_view, Code, CodeV, Flag, Response, ResponseV, StatusKind};
use crate::text::{dec_of, decimal};

verus! {

/// Which backend mailbox a folder name stands for. `Received(0)` is the
/// primary inbox; a nonzero id is a custom label folder.
#[derive(Clone, Copy, Debug, PartialEq, Eq, Structural)]
pub enum MailboxId {
    Received(u32),
    Sent,
    Draft,
    Archived,
}

/// The directory's fixed entries, added over the backend's folders.
pub open spec fn with_fixed(m: Map<Seq<char>, MailboxId>) -> Map<Seq<char>, MailboxId> {
    m.insert("INBOX"@, MailboxId::Received(0)).insert("Sent"@, MailboxId::Sent).insert(
        "Trash"@,
        MailboxId::Archived,
    ).insert("Drafts"@, MailboxId::Draft)
}

/// The backend's folder list as a map: a later entry of a name wins.
pub open spec fn folder_map(folders: Seq<(Seq<char>, u32)>) -> Map<Seq<char>, MailboxId>
    decreases folders.len(),
{
    if folders.len() == 0 {
        Map::empty()
    } else {
        folder_map(folders.drop_last()).insert(
            folders.last().0,
            MailboxId::Received(folders.last().1),
        )
    }
}

pub open spec fn folders_view(folders: Seq<(String, u32)>) -> Seq<(Seq<char>, u32)> {
    folders.map_values(|f: (String, u32)| (f.0@, f.1))
}

/// Folder names, each once, with the mailbox each stands for.
pub struct Directory {
    entries: Vec<(String, MailboxId)>,
}

impl View for Directory {
    type V = Map<Seq<char>, MailboxId>;

    closed spec fn view(&self) -> Map<Seq<char>, MailboxId> {
        Map::new(
            |k: Seq<char>| exists|i: int| 0 <= i < self.entries.len() && self.entries@[i].0@ == k,
            |k: Seq<char>|
                self.entries@[choose|i: int|
                    0 <= i < self.entries.len() && self.entries@[i].0@ == k].1,
        )
    }
}

impl Directory {
    /// No name occurs twice.
    pub closed spec fn wf(&self) -> bool {
        forall|i: int, j: int|
            0 <= i < self.entries.len() && 0 <= j < self.entries.len() && i != j
                ==> #[trigger] self.entries@[i].0@ != #[trigger] self.entries@[j].0@
    }

    proof fn lemma_view_at(&self, i: int)
        requires
            self.wf(),
            0 <= i < self.entries.len(),
        ensures
            self@.contains_key(self.entries@[i].0@),
            self@[self.entries@[i].0@] == self.entries@[i].1,
    {
        let k = self.entries@[i].0@;
        assert(self@.contains_key(k));
        let j = choose|j: int| 0 <= j < self.entries.len() && self.entries@[j].0@ == k;
        assert(j == i);
    }

    proof fn lemma_view_all(&self)
        requires
            self.wf(),
        ensures
            forall|i: int|
                0 <= i < self.entries.len() ==> self@.contains_key(#[trigger] self.entries@[i].0@)
                    && self@[self.entries@[i].0@] == self.entries@[i].1,
    {
        assert forall|i: int| 0 <= i < self.entries.len() implies self@.contains_key(
            #[trigger] self.entries@[i].0@,
        ) && self@[self.entries@[i].0@] == self.entries@[i].1 by {
            self.lemma_view_at(i);
        }
    }

    fn new() -> (r: Directory)
        ensures
            r.wf(),
            r@ == Map::<Seq<char>, MailboxId>::empty(),
    {
        let r = Directory { entries: Vec::new() };
        assert(r@ =~= Map::<Seq<char>, MailboxId>::empty());
        r
    }

    fn insert(&mut self, name: String, id: MailboxId)
        requires
            old(self).wf(),
        ensures
            final(self).wf(),
            final(self)@ == old(self)@.insert(name@, id),
    {
        let ghost before = self@;
        let ghost nm = name@;
        let mut i: usize = 0;
        while i < self.entries.len()
            invariant
                self.wf(),
                before == old(self)@,
                self@ == before,
                i <= self.entries.len(),
                nm == name@,
                forall|j: int| 0 <= j < i ==> #[trigger] self.entries@[j].0@ != nm,
            decreases self.entries.len() - i,
        {
            if self.entries[i].0 == name {
                let ghost old_entries = self.entries@;
                proof {
                    self.lemma_view_all();
                }
                self.entries.set(i, (name, id));
                proof {
                    assert forall|a: int, b: int|
                        0 <= a < self.entries.len() && 0 <= b < self.entries.len() && a != b
                            implies #[trigger] self.entries@[a].0@
                        != #[trigger] self.entries@[b].0@ by {
                        assert(old_entries[a].0@ != old_entries[b].0@);
                    }
                    assert forall|k: Seq<char>| #[trigger]
                        self@.contains_key(k) == before.insert(nm, id).contains_key(k) by {
                        if before.contains_key(k) {
                            let j = choose|j: int|
                                0 <= j < old_entries.len() && old_entries[j].0@ == k;
                            assert(self.entries@[j].0@ == k);
                        }
                        if k == nm {
                            assert(self.entries@[i as int].0@ == k);
                        }
                        if self@.contains_key(k) {
                            let j = choose|j: int|
                                0 <= j < self.entries.len() && self.entries@[j].0@ == k;
                            if j != i {
                                assert(old_entries[j].0@ == k);
                            }
                        }
                    }
                    assert forall|k: Seq<char>| #[trigger] self@.contains_key(k) implies self@[k]
                        == before.insert(nm, id)[k] by {
                        let j = choose|j: int|
                            0 <= j < self.entries.len() && self.entries@[j].0@ == k;
                        self.lemma_view_at(j);
                        if j != i {
                            assert(old_entries[j] == self.entries@[j]);
                            let jj = choose|jj: int|
                                0 <= jj < old_entries.len() && old_entries[jj].0@ == k;
                            assert(jj != i);
                            assert(self.entries@[jj] == old_entries[jj]);
                            self.lemma_view_at(jj);
                        }
                    }
                    assert(self@ =~= before.insert(nm, id));
                }
                return;
            }
            i = i + 1;
        }
        let ghost old_entries = self.entries@;
        proof {
            self.lemma_view_all();
        }
        self.entries.push((name, id));
        proof {
            let n = old_entries.len() as int;
            assert forall|a: int, b: int|
                0 <= a < self.entries.len() && 0 <= b < self.entries.len() && a != b
                    implies #[trigger] self.entries@[a].0@ != #[trigger] self.entries@[b].0@ by {
                if a < n && b < n {
                    assert(old_entries[a].0@ != old_entries[b].0@);
                } else if a == n {
                    assert(old_entries[b].0@ != nm);
                } else {
                    assert(old_entries[a].0@ != nm);
                }
            }
            assert forall|k: Seq<char>| #[trigger]
                self@.contains_key(k) == before.insert(nm, id).contains_key(k) by {
                if before.contains_key(k) {
                    let j = choose|j: int| 0 <= j < old_entries.len() && old_entries[j].0@ == k;
                    assert(self.entries@[j].0@ == k);
                }
                if k == nm {
                    assert(self.entries@[n].0@ == k);
                }
                if self@.contains_key(k) {
                    let j = choose|j: int| 0 <= j < self.entries.len() && self.entries@[j].0@ == k;
                    if j != n {
                        assert(old_entries[j].0@ == k);
                    }
                }
            }
            assert forall|k: Seq<char>| #[trigger] self@.contains_key(k) implies self@[k]
                == before.insert(nm, id)[k] by {
                let j = choose|j: int| 0 <= j < self.entries.len() && self.entries@[j].0@ == k;
                self.lemma_view_at(j);
                if j != n {
                    assert(old_entries[j] == self.entries@[j]);
                    let jj = choose|jj: int|
                        0 <= jj < old_entries.len() && old_entries[jj].0@ == k;
                    assert(self.entries@[jj] == old_entries[jj]);
                    self.lemma_view_at(jj);
                }
            }
            assert(self@ =~= before.insert(nm, id));
        }
    }

    /// The mailbox that `name` stands for, by exact, case-sensitive match.
    pub fn lookup(&self, name: &String) -> (r: Option<MailboxId>)
        requires
            self.wf(),
        ensures
            r == (if self@.contains_key(name@) {
                Some(self@[name@])
            } else {
                None::<MailboxId>
            }),
    {
        let mut i: usize = 0;
        while i < self.entries.len()
            invariant
                self.wf(),
                i <= self.entries.len(),
                forall|j: int| 0 <= j < i ==> #[trigger] self.entries@[j].0@ != name@,
            decreases self.entries.len() - i,
        {
            if self.entries[i].0 == *name {
                proof {
                    self.lemma_view_at(i as int);
                }
                return Some(self.entries[i].1);
            }
            i = i + 1;
        }
        proof {
            if self@.contains_key(name@) {
                let j = choose|j: int|
                    0 <= j < self.entries.len() && self.entries@[j].0@ == name@;
                assert(self.entries@[j].0@ != name@);
            }
        }
        None
    }

    /// Every known folder name, unfiltered, each once.
    pub fn names(&self) -> (r: Vec<String>)
        requires
            self.wf(),
        ensures
            r@.len() == self@.dom().len(),
            r@.map_values(|s: String| s@).to_set() == self@.dom(),
            r@.map_values(|s: String| s@).no_duplicates(),
    {
        let mut r: Vec<String> = Vec::new();
        let mut i: usize = 0;
        while i < self.entries.len()
            invariant
                i <= self.entries.len(),
                r@.len() == i,
                forall|j: int| 0 <= j < i ==> #[trigger] r@[j]@ == self.entries@[j].0@,
            decreases self.entries.len() - i,
        {
            r.push(self.entries[i].0.clone());
            i = i + 1;
        }
        proof {
            let names = r@.map_values(|s: String| s@);
            assert forall|k: Seq<char>| #[trigger] names.to_set().contains(k) == self@.dom().contains(k) by {
                if names.to_set().contains(k) {
                    let j = choose|j: int| 0 <= j < names.len() && names[j] == k;
                    assert(self.entries@[j].0@ == k);
                }
                if self@.dom().contains(k) {
                    let j = choose|j: int| 0 <= j < self.entries.len() && self.entries@[j].0@ == k;
                    assert(names[j] == k);
                }
            }
            assert(names.to_set() =~= self@.dom());
            assert(names.no_duplicates());
            names.unique_seq_to_set();
        }
        r
    }
}

/// Builds the directory from the backend's `(label, folder id)` list: each
/// label names the custom folder `Received(id)`, and the four fixed entries
/// "INBOX", "Sent", "Trash" and "Drafts" are always present.
pub fn make_folders(folders: Vec<(String, u32)>) -> (r: Directory)
    ensures
        r.wf(),
        r@ == with_fixed(folder_map(folders_view(folders@))),
{
    let mut d = Directory::new();
    let mut i: usize = 0;
    let ghost fv = folders_view(folders@);
    while i < folders.len()
        invariant
            i <= folders.len(),
            fv == folders_view(folders@),
            d.wf(),
            d@ == folder_map(fv.subrange(0, i as int)),
        decreases folders.len() - i,
    {
        let name = folders[i].0.clone();
        let id = folders[i].1;
        proof {
            assert(fv.subrange(0, i + 1).drop_last() =~= fv.subrange(0, i as int));
        }
        d.insert(name, MailboxId::Received(id));
        i = i + 1;
    }
    assert(fv.subrange(0, folders.len() as int) =~= fv);
    d.insert(String::from_str("INBOX"), MailboxId::Received(0));
    d.insert(String::from_str("Sent"), MailboxId::Sent);
    d.insert(String::from_str("Trash"), MailboxId::Archived);
    d.insert(String::from_str("Drafts"), MailboxId::Draft);
    d
}

/// The message counts that the backend reports for its mailbox kinds.
#[derive(Clone, Copy, Debug, PartialEq, Eq, Structural)]
pub struct FolderCounts {
    pub received: u32,
    /// Unread received messages, when reported.
    pub received_unread: Option<u32>,
    pub sent: u32,
    pub draft: u32,
    pub archived: u32,
}

/// The message count of the mailbox kind of `id`.
pub open spec fn message_count(id: MailboxId, c: FolderCounts) -> u32 {
    match id {
        MailboxId::Received(_) => c.received,
        MailboxId::Sent => c.sent,
        MailboxId::Draft => c.draft,
        MailboxId::Archived => c.archived,
    }
}

/// The unseen count: reported for the inbox kind only.
pub open spec fn unseen_count(id: MailboxId, c: FolderCounts) -> Option<u32> {
    match id {
        MailboxId::Received(_) => c.received_unread,
        _ => None,
    }
}

/// The school year that a date falls in: the current year from September
/// on, the previous one before.
pub open spec fn spec_school_year(year: int, month: int) -> int {
    if month >= 9 {
        year
    } else {
        year - 1
    }
}

/// The school year of a date, when it is a positive number.
pub fn school_year(year: i32, month: u32) -> (r: Option<u32>)
    requires
        1 <= month <= 12,
    ensures
        r == (if spec_school_year(year as int, month as int) >= 1 {
            Some(spec_school_year(year as int, month as int) as u32)
        } else {
            None::<u32>
        }),
{
    let y: i64 = if month >= 9 {
        year as i64
    } else {
        year as i64 - 1
    };
    if y >= 1 {
        Some(y as u32)
    } else {
        None
    }
}

/// The data sent when a mailbox is selected.
pub open spec fn info_responses(id: MailboxId, c: FolderCounts, school_year: u32) -> Seq<ResponseV> {
    seq![
        ResponseV::Flags(seq![Flag::Seen, Flag::Answered]),
        ResponseV::Exists(message_count(id, c)),
        ResponseV::Recent(0),
        ResponseV::Status {
            tag: None,
            kind: StatusKind::Done,
            code: Some(CodeV::PermanentFlags(seq![Flag::Seen])),
            text: "Flags"@,
        },
        ResponseV::Status {
            tag: None,
            kind: StatusKind::Done,
            code: Some(CodeV::UidValidity(school_year)),
            text: "Valide en "@ + dec_of(school_year as nat) + "-"@ + dec_of(school_year as nat + 1),
        },
    ] + match unseen_count(id, c) {
        Some(n) => if n > 0 {
            seq![
                ResponseV::Status {
                    tag: None,
                    kind: StatusKind::Done,
                    code: Some(CodeV::Unseen(n)),
                    text: "Unseen"@,
                },
            ]
        } else {
            Seq::empty()
        },
        None => Seq::empty(),
    }
}

/// The mailbox data: permitted flags {Seen, Answered}, the message count,
/// no recent message, the permanent flags, the school year as UID validity
/// and, for the inbox kind with unread messages, the unseen count.
pub fn mailbox_info(id: MailboxId, counts: &FolderCounts, school_year: u32) -> (r: Vec<Response>)
    requires
        school_year >= 1,
    ensures
        responses_view(r@) == info_responses(id, *counts, school_year),
{
    let (exists, unseen) = match id {
        MailboxId::Received(_) => (counts.received, counts.received_unread),
        MailboxId::Sent => (counts.sent, None),
        MailboxId::Draft => (counts.draft, None),
        MailboxId::Archived => (counts.archived, None),
    };
    let mut text = String::from_str("Valide en ");
    text.append(decimal(school_year as u64).as_str());
    text.append("-");
    text.append(decimal(school_year as u64 + 1).as_str());
    let mut r = vec![
        Response::Flags(vec![Flag::Seen, Flag::Answered]),
        Response::Exists(exists),
        Response::Recent(0),
        Response::Status {
            tag: None,
            kind: StatusKind::Done,
            code: Some(Code::PermanentFlags(vec![Flag::Seen])),
            text: String::from_str("Flags"),
        },
        Response::Status {
            tag: None,
            kind: StatusKind::Done,
            code: Some(Code::UidValidity(school_year)),
            text,
        },
    ];
    let ghost first = r@;
    if let Some(n) = unseen {
        if n > 0 {
            r.push(
                Response::Status {
                    tag: None,
                    kind: StatusKind::Done,
                    code: Some(Code::Unseen(n)),
                    text: String::from_str("Unseen"),
                },
            );
        }
    }
    proof {
        let fl = seq![Flag::Seen, Flag::Answered];
        assert(first[0]@ == ResponseV::Flags(fl)) by {
            match first[0] {
                Response::Flags(f) => assert(f@ =~= fl),
                _ => {},
            }
        }
        assert(first[3]@ == info_responses(id, *counts, school_year)[3]) by {
            match first[3] {
                Response::Status { code: Some(Code::PermanentFlags(f)), .. } => assert(f@ =~= seq![Flag::Seen]),
                _ => {},
            }
        }
        assert(responses_view(r@) =~= info_responses(id, *counts, school_year));
    }
    r
}

/// The LIST entries of every known folder, unfiltered.
pub fn filter(folders: &Directory) -> (r: Vec<Response>)
    requires
        folders.wf(),
    ensures
        r@.len() == folders@.dom().len(),
        forall|i: int| 0 <= i < r@.len() ==> (#[trigger] r@[i]@) is List && !r@[i]@->List_noselect,
        responses_view(r@).map_values(|v: ResponseV| v->List_name).to_set() == folders@.dom(),
        responses_view(r@).map_values(|v: ResponseV| v->List_name).no_duplicates(),
{
    let names = folders.names();
    let mut r: Vec<Response> = Vec::new();
    let mut i: usize = 0;
    while i < names.len()
        invariant
            i <= names.len(),
            r@.len() == i,
            forall|j: int| 0 <= j < i ==> (#[trigger] r@[j]@) == (ResponseV::List { noselect: false, name: names@[j]@ }),
        decreases names.len() - i,
    {
        r.push(Response::List { noselect: false, name: names[i].clone() });
        i = i + 1;
    }
    proof {
        let a = responses_view(r@).map_values(|v: ResponseV| v->List_name);
        let b = names@.map_values(|s: String| s@);
        assert(a =~= b);
    }
    r
}

} // verus!
