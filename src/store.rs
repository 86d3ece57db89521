//! STORE: changing the Seen flag of messages addressed by UID.
use vstd::prelude::*;
use crate::response::{reply, responses_view, status_v, Response, StatusKind};
use crate::sequence::{SeqOrUid, Sequence};

verus! {

/// How a STORE changes the flags.
#[derive(Clone, Copy, Debug, PartialEq, Eq, Structural)]
pub enum StoreKind {
    Replace,
    Add,
    Remove,
}

/// A flag named in a STORE.
#[derive(Clone, Copy, Debug, PartialEq, Eq, Structural)]
pub enum StoreFlag {
    Seen,
    /// Any flag other than Seen.
    Other,
}

/// A call to make on the backend.
#[derive(Clone, Debug, PartialEq, Eq)]
pub enum BackendCall {
    /// One bulk call marking these messages unread.
    MarkUnread(Vec<u32>),
    /// Retrieve one full message, which marks it read.
    Retrieve(u32),
}

/// The value of a backend call.
pub enum BackendCallV {
    MarkUnread(Seq<u32>),
    Retrieve(u32),
}

impl View for BackendCall {
    type V = BackendCallV;

    open spec fn view(&self) -> BackendCallV {
        match self {
            BackendCall::MarkUnread(ids) => BackendCallV::MarkUnread(ids@),
            BackendCall::Retrieve(id) => BackendCallV::Retrieve(*id),
        }
    }
}

pub open spec fn calls_view(v: Seq<BackendCall>) -> Seq<BackendCallV> {
    v.map_values(|c: BackendCall| c@)
}

/// What a STORE does: the backend calls to make, in order, then the
/// responses to send.
pub struct StorePlan {
    pub calls: Vec<BackendCall>,
    pub responses: Vec<Response>,
}

/// Every clause is a single concrete value.
pub open spec fn all_single(set: Seq<Sequence>) -> bool {
    forall|i: int| 0 <= i < set.len() ==> (#[trigger] set[i] matches Sequence::Single(SeqOrUid::Value(_)))
}

pub open spec fn single_value(s: Sequence) -> u32 {
    match s {
        Sequence::Single(SeqOrUid::Value(v)) => v,
        _ => 0,
    }
}

/// The ids that a set of single values lists, in order.
pub open spec fn ids_of(set: Seq<Sequence>) -> Seq<u32> {
    set.map_values(|s: Sequence| single_value(s))
}

/// The backend calls for a Seen change: retrieving each message marks it
/// read; one bulk call marks all of them unread.
pub open spec fn seen_calls(ids: Seq<u32>, add: bool) -> Seq<BackendCallV> {
    if add {
        ids.map_values(|id: u32| BackendCallV::Retrieve(id))
    } else {
        seq![BackendCallV::MarkUnread(ids)]
    }
}

/// Why a STORE is refused, if it is; checked in this order.
pub open spec fn store_refusal(
    set: Seq<Sequence>,
    kind: StoreKind,
    silent: bool,
    flags: Seq<StoreFlag>,
    uid: bool,
) -> Option<Seq<char>> {
    if !uid {
        Some("STORE Not supported (no UID)!"@)
    } else if kind == StoreKind::Replace {
        Some("STORE Not supported (bad store type)!"@)
    } else if flags != seq![StoreFlag::Seen] {
        Some("STORE Not supported (bad flags)!"@)
    } else if !all_single(set) {
        Some("STORE Not supported (ranges)!"@)
    } else if !silent {
        Some("STORE Not supported (answer)!"@)
    } else {
        None
    }
}

/// The plan of a STORE: a refusal makes no backend call and answers NO
/// with its reason; otherwise the Seen change is made and answered OK.
pub open spec fn store_plan(
    tag: Seq<char>,
    set: Seq<Sequence>,
    kind: StoreKind,
    silent: bool,
    flags: Seq<StoreFlag>,
    uid: bool,
    r: StorePlan,
) -> bool {
    match store_refusal(set, kind, silent, flags, uid) {
        Some(text) => r.calls@.len() == 0 && responses_view(r.responses@) == seq![
            status_v(tag, StatusKind::Refused, text),
        ],
        None => calls_view(r.calls@) == seen_calls(ids_of(set), kind == StoreKind::Add)
            && responses_view(r.responses@) == seq![
            status_v(tag, StatusKind::Done, "STORE completed"@),
        ],
    }
}

/// STORE: only UID STORE of +FLAGS.SILENT or -FLAGS.SILENT with the single
/// flag Seen over single UIDs is carried out; anything else is refused with
/// a tagged NO and no backend call.
pub fn handle(
    tag: &String,
    set: &Vec<Sequence>,
    kind: StoreKind,
    silent: bool,
    flags: &Vec<StoreFlag>,
    uid: bool,
) -> (r: StorePlan)
    ensures
        store_plan(tag@, set@, kind, silent, flags@, uid, r),
{
    if !uid {
        return StorePlan {
            calls: Vec::new(),
            responses: reply(tag, StatusKind::Refused, "STORE Not supported (no UID)!"),
        };
    }
    if kind != StoreKind::Add && kind != StoreKind::Remove {
        return StorePlan {
            calls: Vec::new(),
            responses: reply(tag, StatusKind::Refused, "STORE Not supported (bad store type)!"),
        };
    }
    if !(flags.len() == 1 && flags[0] == StoreFlag::Seen) {
        proof {
            if flags@.len() == 1 {
                assert(flags@[0] != StoreFlag::Seen);
            }
            assert(flags@ != seq![StoreFlag::Seen]);
        }
        return StorePlan {
            calls: Vec::new(),
            responses: reply(tag, StatusKind::Refused, "STORE Not supported (bad flags)!"),
        };
    }
    assert(flags@ =~= seq![StoreFlag::Seen]);
    let mut ids: Vec<u32> = Vec::new();
    let mut i: usize = 0;
    while i < set.len()
        invariant
            i <= set.len(),
            ids@ == ids_of(set@.subrange(0, i as int)),
            uid,
            kind != StoreKind::Replace,
            flags@ == seq![StoreFlag::Seen],
            all_single(set@.subrange(0, i as int)),
        decreases set.len() - i,
    {
        match set[i] {
            Sequence::Single(SeqOrUid::Value(v)) => {
                ids.push(v);
                assert(ids@ =~= ids_of(set@.subrange(0, i + 1)));
                assert forall|j: int| 0 <= j < i + 1 implies (#[trigger] set@.subrange(0, i + 1)[j] matches Sequence::Single(SeqOrUid::Value(_))) by {
                    if j < i {
                        assert(set@.subrange(0, i + 1)[j] == set@.subrange(0, i as int)[j]);
                    }
                }
            },
            _ => {
                assert(!all_single(set@));
                return StorePlan {
                    calls: Vec::new(),
                    responses: reply(tag, StatusKind::Refused, "STORE Not supported (ranges)!"),
                };
            },
        }
        i = i + 1;
    }
    assert(set@.subrange(0, set.len() as int) =~= set@);
    assert(ids@ == ids_of(set@));
    if !silent {
        return StorePlan {
            calls: Vec::new(),
            responses: reply(tag, StatusKind::Refused, "STORE Not supported (answer)!"),
        };
    }
    let mut calls: Vec<BackendCall> = Vec::new();
    if kind == StoreKind::Add {
        let mut j: usize = 0;
        while j < ids.len()
            invariant
                j <= ids.len(),
                calls_view(calls@) == ids@.subrange(0, j as int).map_values(
                    |id: u32| BackendCallV::Retrieve(id),
                ),
            decreases ids.len() - j,
        {
            let ghost before = calls@;
            calls.push(BackendCall::Retrieve(ids[j]));
            assert(ids@.subrange(0, j + 1) =~= ids@.subrange(0, j as int).push(ids@[j as int]));
            assert(calls_view(calls@) =~= calls_view(before).push(BackendCallV::Retrieve(ids@[j as int])));
            assert(calls_view(calls@) =~= ids@.subrange(0, j + 1).map_values(
                |id: u32| BackendCallV::Retrieve(id),
            ));
            j = j + 1;
        }
        assert(ids@.subrange(0, ids.len() as int) =~= ids@);
    } else {
        calls.push(BackendCall::MarkUnread(ids));
        assert(calls_view(calls@) =~= seq![BackendCallV::MarkUnread(ids_of(set@))]);
    }
    StorePlan { calls, responses: reply(tag, StatusKind::Done, "STORE completed") }
}

} // verus!
