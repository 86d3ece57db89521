//! FETCH: selecting messages by sequence set and building their data items.
use vstd::prelude::*;
use crate::message::{
    flags_of, header_text, make_body, make_header, message_text, spec_flags, AttachmentData,
    Message,
};
use crate::response::{
    one_terminal,
    items_view, responses_view, status_v, tagged_line, FetchItem, FetchItemV, Response, ResponseV,
    StatusKind,
};
use crate::sequence::{set_matches, Sequence};

verus! {

/// A requested FETCH data item.
#[derive(Clone, Copy, Debug, PartialEq, Eq, Structural)]
pub enum ItemName {
    Flags,
    Uid,
    Rfc822Header,
    /// The full message text (BODY[] and its variants).
    Body,
    /// Any item that this server does not synthesize (size, body
    /// structure, envelope, internal date, ...).
    Unsupported,
}

/// The downloaded content of one message: its HTML body, already base64,
/// and its attachments.
#[derive(Clone, Debug)]
pub struct MessageContent {
    pub html: String,
    pub attachments: Vec<AttachmentData>,
}

pub open spec fn is_digit(c: char) -> bool {
    '0' <= c <= '9'
}

/// "YYYY-MM-DD HH:MM:SS" with four-digit year other than 0000 and 9999.
pub open spec fn date_shape(s: Seq<char>) -> bool {
    &&& s.len() == 19
    &&& forall|i: int|
        0 <= i < 19 && i != 4 && i != 7 && i != 10 && i != 13 && i != 16 ==> is_digit(
            #[trigger] s[i],
        )
    &&& s[4] == '-' && s[7] == '-' && s[10] == ' ' && s[13] == ':' && s[16] == ':'
    &&& !(s[0] == '0' && s[1] == '0' && s[2] == '0' && s[3] == '0')
    &&& !(s[0] == '9' && s[1] == '9' && s[2] == '9' && s[3] == '9')
}

/// The three-letter English name of a two-digit month.
pub open spec fn month_abbrev(m: Seq<char>) -> Seq<char> {
    if m == "01"@ {
        "Jan"@
    } else if m == "02"@ {
        "Feb"@
    } else if m == "03"@ {
        "Mar"@
    } else if m == "04"@ {
        "Apr"@
    } else if m == "05"@ {
        "May"@
    } else if m == "06"@ {
        "Jun"@
    } else if m == "07"@ {
        "Jul"@
    } else if m == "08"@ {
        "Aug"@
    } else if m == "09"@ {
        "Sep"@
    } else if m == "10"@ {
        "Oct"@
    } else if m == "11"@ {
        "Nov"@
    } else {
        "Dec"@
    }
}

/// The day of the month without a leading zero.
pub open spec fn day_text(d: Seq<char>) -> Seq<char> {
    if d[0] == '0' {
        seq![d[1]]
    } else {
        d
    }
}

/// `s` is the internet date "Www, D Mon YYYY HH:MM:SS +HHMM" of the local
/// date-time `date` ("YYYY-MM-DD HH:MM:SS"): the date and time fields are
/// those of `date`; the weekday and the offset are three letters and a
/// sign with four digits.
pub open spec fn rfc2822_local(date: Seq<char>, s: Seq<char>) -> bool {
    exists|w: Seq<char>, off: Seq<char>|
        {
            &&& w.len() == 3
            &&& off.len() == 5
            &&& (off[0] == '+' || off[0] == '-')
            &&& forall|k: int| 1 <= k < 5 ==> is_digit(#[trigger] off[k])
            &&& s == w + ", "@ + day_text(date.subrange(8, 10)) + " "@ + month_abbrev(
                date.subrange(5, 7),
            ) + " "@ + date.subrange(0, 4) + " "@ + date.subrange(11, 19) + " "@ + off
        }
}

/// Relies on chrono: `NaiveDateTime::parse_from_str` with
/// "%Y-%m-%d %H:%M:%S", `and_local_timezone(Local).single()` and
/// `to_rfc2822`. The time zone decides the offset, and whether the local
/// time exists at all; `to_rfc2822` writes the parsed local date and time
/// field by field (day without leading zero, two-digit time fields,
/// four-digit year). A year in 1..=9998 keeps it within the years 0..=9999
/// on which `to_rfc2822` does not panic.
#[verifier::external_body]
fn local_rfc2822(date: &String) -> (r: Option<String>)
    requires
        date_shape(date@),
    ensures
        r matches Some(s) ==> rfc2822_local(date@, s@),
{
    chrono::NaiveDateTime::parse_from_str(date, "%Y-%m-%d %H:%M:%S").ok().and_then(
        |d| d.and_local_timezone(chrono::Local).single(),
    ).map(|d| d.to_rfc2822())
}

fn has_date_shape(s: &String) -> (r: bool)
    ensures
        r == date_shape(s@),
{
    let n = s.as_str().unicode_len();
    if n != 19 {
        return false;
    }
    let mut i: usize = 0;
    while i < 19
        invariant
            s@.len() == 19,
            i <= 19,
            forall|j: int|
                0 <= j < i && j != 4 && j != 7 && j != 10 && j != 13 && j != 16 ==> is_digit(
                    #[trigger] s@[j],
                ),
        decreases 19 - i,
    {
        if i != 4 && i != 7 && i != 10 && i != 13 && i != 16 {
            let c = s.as_str().get_char(i);
            if !('0' <= c && c <= '9') {
                return false;
            }
        }
        i = i + 1;
    }
    let st = s.as_str();
    let y0 = st.get_char(0);
    let y1 = st.get_char(1);
    let y2 = st.get_char(2);
    let y3 = st.get_char(3);
    st.get_char(4) == '-' && st.get_char(7) == '-' && st.get_char(10) == ' ' && st.get_char(13)
        == ':' && st.get_char(16) == ':' && !(y0 == '0' && y1 == '0' && y2 == '0' && y3 == '0')
        && !(y0 == '9' && y1 == '9' && y2 == '9' && y3 == '9')
}

/// The message's date as an internet date string, when it can be read.
pub fn render_date(m: &Message) -> (r: Option<String>)
    ensures
        !date_shape(m.date@) ==> r is None,
        r matches Some(s) ==> date_shape(m.date@) && rfc2822_local(m.date@, s@),
{
    if has_date_shape(&m.date) {
        local_rfc2822(&m.date)
    } else {
        None
    }
}

/// The value of item `item` for message `m` whose date reads `date` and
/// whose downloaded content is `content`; `None` when the item is not
/// synthesized or what it needs is missing.
pub open spec fn item_value(
    item: ItemName,
    m: Message,
    date: Option<Seq<char>>,
    content: Option<MessageContent>,
) -> Option<FetchItemV> {
    match item {
        ItemName::Flags => Some(FetchItemV::Flags(spec_flags(m))),
        ItemName::Uid => Some(FetchItemV::Uid(m.id)),
        ItemName::Rfc822Header => match date {
            Some(d) => Some(FetchItemV::Rfc822Header(header_text(m, d))),
            None => None,
        },
        ItemName::Body => match (date, content) {
            (Some(d), Some(c)) => Some(
                FetchItemV::Body(message_text(header_text(m, d), c.html@, c.attachments@)),
            ),
            _ => None,
        },
        ItemName::Unsupported => None,
    }
}

/// The items that a FETCH asks for: the given ones, and UID as well when
/// fetching by UID.
pub open spec fn wanted(items: Seq<ItemName>, uid: bool) -> Seq<ItemName> {
    if uid {
        items.push(ItemName::Uid)
    } else {
        items
    }
}

/// The values of the items that can be synthesized, in the order asked.
pub open spec fn item_values(
    items: Seq<ItemName>,
    m: Message,
    date: Option<Seq<char>>,
    content: Option<MessageContent>,
) -> Seq<FetchItemV>
    decreases items.len(),
{
    if items.len() == 0 {
        Seq::empty()
    } else {
        let rest = item_values(items.drop_last(), m, date, content);
        match item_value(items.last(), m, date, content) {
            Some(v) => rest.push(v),
            None => rest,
        }
    }
}

/// Some asked item was left out of the values.
pub open spec fn omits(
    items: Seq<ItemName>,
    m: Message,
    date: Option<Seq<char>>,
    content: Option<MessageContent>,
) -> bool {
    exists|i: int| 0 <= i < items.len() && item_value(#[trigger] items[i], m, date, content) is None
}

fn item(
    name: ItemName,
    m: &Message,
    date: &Option<String>,
    content: &Option<MessageContent>,
) -> (r: Option<FetchItem>)
    ensures
        match r {
            Some(v) => item_value(name, *m, opt_view(*date), *content) == Some(v@),
            None => item_value(name, *m, opt_view(*date), *content) is None,
        },
{
    match name {
        ItemName::Flags => Some(FetchItem::Flags(flags_of(m))),
        ItemName::Uid => Some(FetchItem::Uid(m.id)),
        ItemName::Rfc822Header => match date {
            Some(d) => Some(FetchItem::Rfc822Header(make_header(m, d.as_str()))),
            None => None,
        },
        ItemName::Body => match (date, content) {
            (Some(d), Some(c)) => {
                let h = make_header(m, d.as_str());
                Some(FetchItem::Body(make_body(&h, &c.html, &c.attachments)))
            },
            _ => None,
        },
        ItemName::Unsupported => None,
    }
}

pub open spec fn opt_view(s: Option<String>) -> Option<Seq<char>> {
    match s {
        Some(x) => Some(x@),
        None => None,
    }
}

/// The 1-based identifier matched against the sequence set: the UID when
/// fetching by UID, else the position.
pub open spec fn fetch_key(messages: Seq<Message>, i: int, uid: bool) -> int {
    if uid {
        messages[i].id as int
    } else {
        i + 1
    }
}

/// The highest UID among the messages; 0 when there is none.
pub open spec fn max_id(messages: Seq<Message>) -> u32
    decreases messages.len(),
{
    if messages.len() == 0 {
        0
    } else if max_id(messages.drop_last()) >= messages.last().id {
        max_id(messages.drop_last())
    } else {
        messages.last().id
    }
}

/// The highest identifier present, which a lone `*` stands for: the
/// highest UID when fetching by UID, else the last position.
pub open spec fn max_key(messages: Seq<Message>, uid: bool) -> int {
    if uid {
        max_id(messages) as int
    } else {
        messages.len() as int
    }
}

/// The indices of the messages that the set selects, in position order.
pub open spec fn selected(set: Seq<Sequence>, uid: bool, messages: Seq<Message>, n: int) -> Seq<int>
    decreases n,
{
    if n <= 0 {
        Seq::empty()
    } else if set_matches(set, fetch_key(messages, n - 1, uid), max_key(messages, uid)) {
        selected(set, uid, messages, n - 1).push(n - 1)
    } else {
        selected(set, uid, messages, n - 1)
    }
}

pub open spec fn fetch_data(
    items: Seq<ItemName>,
    uid: bool,
    messages: Seq<Message>,
    dates: Seq<Option<String>>,
    contents: Seq<Option<MessageContent>>,
    i: int,
) -> ResponseV {
    ResponseV::Fetch {
        seq: (i + 1) as u32,
        items: item_values(wanted(items, uid), messages[i], opt_view(dates[i]), contents[i]),
    }
}

pub open spec fn fetch_list(
    items: Seq<ItemName>,
    uid: bool,
    messages: Seq<Message>,
    dates: Seq<Option<String>>,
    contents: Seq<Option<MessageContent>>,
    sel: Seq<int>,
) -> Seq<ResponseV> {
    sel.map_values(|i: int| fetch_data(items, uid, messages, dates, contents, i))
}

/// The responses of a FETCH: one data response per selected message, then
/// the tagged OK, whose text says whether some asked item was omitted.
pub open spec fn fetch_responses(
    tag: Seq<char>,
    set: Seq<Sequence>,
    items: Seq<ItemName>,
    uid: bool,
    messages: Seq<Message>,
    dates: Seq<Option<String>>,
    contents: Seq<Option<MessageContent>>,
) -> Seq<ResponseV> {
    let sel = selected(set, uid, messages, messages.len() as int);
    fetch_list(items, uid, messages, dates, contents, sel).push(
        status_v(
            tag,
            StatusKind::Done,
            if any_omits(sel, items, uid, messages, dates, contents) {
                "FETCH completed, some items omitted"@
            } else {
                "FETCH completed"@
            },
        ),
    )
}

fn items_of(
    names: &Vec<ItemName>,
    m: &Message,
    date: &Option<String>,
    content: &Option<MessageContent>,
) -> (r: (Vec<FetchItem>, bool))
    ensures
        items_view(r.0@) == item_values(names@, *m, opt_view(*date), *content),
        r.1 == omits(names@, *m, opt_view(*date), *content),
{
    let mut out: Vec<FetchItem> = Vec::new();
    let mut omitted = false;
    let mut i: usize = 0;
    while i < names.len()
        invariant
            i <= names.len(),
            items_view(out@) == item_values(names@.subrange(0, i as int), *m, opt_view(*date), *content),
            omitted == omits(names@.subrange(0, i as int), *m, opt_view(*date), *content),
        decreases names.len() - i,
    {
        let ghost pre = names@.subrange(0, i as int);
        let ghost next = names@.subrange(0, i + 1);
        proof {
            assert(next.drop_last() =~= pre);
        }
        match item(names[i], m, date, content) {
            Some(v) => {
                let ghost before = out@;
                out.push(v);
                assert(items_view(out@) =~= items_view(before).push(v@));
            },
            None => {
                omitted = true;
                assert(next[i as int] == names@[i as int]);
            },
        }
        proof {
            if omits(next, *m, opt_view(*date), *content) && !omits(pre, *m, opt_view(*date), *content) {
                let j = choose|j: int| 0 <= j < next.len() && item_value(#[trigger] next[j], *m, opt_view(*date), *content) is None;
                assert(j == i);
            }
            if omits(pre, *m, opt_view(*date), *content) {
                let j = choose|j: int| 0 <= j < pre.len() && item_value(#[trigger] pre[j], *m, opt_view(*date), *content) is None;
                assert(next[j] == pre[j]);
            }
        }
        i = i + 1;
    }
    assert(names@.subrange(0, names.len() as int) =~= names@);
    (out, omitted)
}

pub open spec fn any_omits(
    sel: Seq<int>,
    items: Seq<ItemName>,
    uid: bool,
    messages: Seq<Message>,
    dates: Seq<Option<String>>,
    contents: Seq<Option<MessageContent>>,
) -> bool {
    exists|k: int|
        0 <= k < sel.len() && omits(
            wanted(items, uid),
            messages[#[trigger] sel[k]],
            opt_view(dates[sel[k]]),
            contents[sel[k]],
        )
}

fn highest_key(messages: &Vec<Message>, uid: bool) -> (r: u32)
    requires
        messages.len() < u32::MAX,
    ensures
        r as int == max_key(messages@, uid),
{
    if !uid {
        return messages.len() as u32;
    }
    let mut m: u32 = 0;
    let mut i: usize = 0;
    while i < messages.len()
        invariant
            i <= messages.len(),
            m == max_id(messages@.subrange(0, i as int)),
        decreases messages.len() - i,
    {
        proof {
            assert(messages@.subrange(0, i + 1).drop_last() =~= messages@.subrange(0, i as int));
        }
        if messages[i].id > m {
            m = messages[i].id;
        }
        i = i + 1;
    }
    assert(messages@.subrange(0, messages.len() as int) =~= messages@);
    m
}

/// The indices of the messages that `set` selects, in position order.
pub fn selection(set: &Vec<Sequence>, uid: bool, messages: &Vec<Message>) -> (r: Vec<usize>)
    requires
        messages.len() < u32::MAX,
    ensures
        r@.map_values(|i: usize| i as int) == selected(set@, uid, messages@, messages.len() as int),
{
    let max = highest_key(messages, uid);
    let mut r: Vec<usize> = Vec::new();
    let mut i: usize = 0;
    while i < messages.len()
        invariant
            i <= messages.len() < u32::MAX,
            max as int == max_key(messages@, uid),
            r@.map_values(|i: usize| i as int) == selected(set@, uid, messages@, i as int),
        decreases messages.len() - i,
    {
        let key: u32 = if uid {
            messages[i].id
        } else {
            (i + 1) as u32
        };
        if crate::sequence::matches(set, key, max) {
            let ghost before = r@;
            r.push(i);
            assert(r@.map_values(|i: usize| i as int) =~= before.map_values(|i: usize| i as int).push(
                i as int,
            ));
        }
        i = i + 1;
    }
    r
}

/// The FETCH responses for `messages`, the mailbox's snapshot in position
/// order, given each message's rendered date and downloaded content.
pub fn handle(
    tag: &String,
    set: &Vec<Sequence>,
    items: &Vec<ItemName>,
    uid: bool,
    messages: &Vec<Message>,
    dates: &Vec<Option<String>>,
    contents: &Vec<Option<MessageContent>>,
) -> (r: Vec<Response>)
    requires
        messages.len() < u32::MAX,
        dates.len() == messages.len(),
        contents.len() == messages.len(),
    ensures
        responses_view(r@) == fetch_responses(
            tag@,
            set@,
            items@,
            uid,
            messages@,
            dates@,
            contents@,
        ),
        one_terminal(responses_view(r@), tag@),
{
    let mut names = items.clone();
    if uid {
        names.push(ItemName::Uid);
    }
    assert(names@ == wanted(items@, uid));
    let sel = selection(set, uid, messages);
    proof {
        lemma_selected_bounds(set@, uid, messages@, messages.len() as int);
    }
    let ghost ssel = selected(set@, uid, messages@, messages.len() as int);
    let mut out: Vec<Response> = Vec::new();
    let mut omitted = false;
    let mut k: usize = 0;
    while k < sel.len()
        invariant
            k <= sel.len(),
            messages.len() < u32::MAX,
            dates.len() == messages.len(),
            contents.len() == messages.len(),
            names@ == wanted(items@, uid),
            ssel == selected(set@, uid, messages@, messages.len() as int),
            sel@.map_values(|i: usize| i as int) == ssel,
            responses_view(out@) == fetch_list(items@, uid, messages@, dates@, contents@, ssel.subrange(0, k as int)),
            omitted == any_omits(ssel.subrange(0, k as int), items@, uid, messages@, dates@, contents@),
        decreases sel.len() - k,
    {
        let i = sel[k];
        proof {
            lemma_selected_bounds(set@, uid, messages@, messages.len() as int);
            assert(ssel[k as int] == i as int);
        }
        let (data, o) = items_of(&names, &messages[i], &dates[i], &contents[i]);
        let ghost before = out@;
        out.push(Response::Fetch { seq: (i + 1) as u32, items: data });
        proof {
            let pre = ssel.subrange(0, k as int);
            let next = ssel.subrange(0, k + 1);
            assert(next =~= pre.push(i as int));
            assert(fetch_list(items@, uid, messages@, dates@, contents@, next) =~= fetch_list(items@, uid, messages@, dates@, contents@, pre).push(fetch_data(items@, uid, messages@, dates@, contents@, i as int)));
            assert(responses_view(out@) =~= responses_view(before).push(out@[k as int]@));
            if any_omits(next, items@, uid, messages@, dates@, contents@) && !any_omits(pre, items@, uid, messages@, dates@, contents@) {
                let j = choose|j: int| 0 <= j < next.len() && omits(wanted(items@, uid), messages@[#[trigger] next[j]], opt_view(dates@[next[j]]), contents@[next[j]]);
                assert(j == k);
            }
            if any_omits(pre, items@, uid, messages@, dates@, contents@) {
                let j = choose|j: int| 0 <= j < pre.len() && omits(wanted(items@, uid), messages@[#[trigger] pre[j]], opt_view(dates@[pre[j]]), contents@[pre[j]]);
                assert(next[j] == pre[j]);
                assert(any_omits(next, items@, uid, messages@, dates@, contents@));
            }
            if o {
                assert(next[k as int] == i as int);
                assert(any_omits(next, items@, uid, messages@, dates@, contents@));
            }
        }
        omitted = omitted || o;
        k = k + 1;
    }
    assert(ssel.subrange(0, sel.len() as int) =~= ssel);
    let done = if omitted {
        tagged_line(tag, StatusKind::Done, "FETCH completed, some items omitted")
    } else {
        tagged_line(tag, StatusKind::Done, "FETCH completed")
    };
    let ghost before = out@;
    out.push(done);
    assert(responses_view(out@) =~= responses_view(before).push(done@));
    out
}

proof fn lemma_selected_bounds(set: Seq<Sequence>, uid: bool, messages: Seq<Message>, n: int)
    ensures
        forall|k: int|
            0 <= k < selected(set, uid, messages, n).len() ==> 0 <= #[trigger] selected(
                set,
                uid,
                messages,
                n,
            )[k] < n,
    decreases n,
{
    if n > 0 {
        lemma_selected_bounds(set, uid, messages, n - 1);
        let s = selected(set, uid, messages, n);
        let p = selected(set, uid, messages, n - 1);
        assert forall|k: int| 0 <= k < s.len() implies 0 <= #[trigger] s[k] < n by {
            if k < p.len() {
                assert(s[k] == p[k]);
            }
        }
    }
}

/// `d` is what rendering `m`'s date may give: nothing for a badly shaped
/// date, else nothing or its internet date.
pub open spec fn rendered(m: Message, d: Option<String>) -> bool {
    &&& (!date_shape(m.date@) ==> d is None)
    &&& (d matches Some(s) ==> date_shape(m.date@) && rfc2822_local(m.date@, s@))
}

/// The dates of `messages` as internet date strings, where they can be read.
pub fn render_dates(messages: &Vec<Message>) -> (r: Vec<Option<String>>)
    ensures
        r.len() == messages.len(),
        forall|i: int| 0 <= i < r.len() ==> rendered(messages@[i], #[trigger] r@[i]),
{
    let mut r: Vec<Option<String>> = Vec::new();
    let mut i: usize = 0;
    while i < messages.len()
        invariant
            i <= messages.len(),
            r.len() == i,
            forall|j: int| 0 <= j < i ==> rendered(messages@[j], #[trigger] r@[j]),
        decreases messages.len() - i,
    {
        r.push(render_date(&messages[i]));
        i = i + 1;
    }
    r
}

/// FETCH over a mailbox snapshot: renders each message's date in local
/// time, then answers as `handle` does for those dates.
pub fn fetch(
    tag: &String,
    set: &Vec<Sequence>,
    items: &Vec<ItemName>,
    uid: bool,
    messages: &Vec<Message>,
    contents: &Vec<Option<MessageContent>>,
) -> (r: Vec<Response>)
    requires
        messages.len() < u32::MAX,
        contents.len() == messages.len(),
    ensures
        exists|dates: Seq<Option<String>>|
            {
                &&& dates.len() == messages.len()
                &&& forall|i: int| 0 <= i < dates.len() ==> rendered(messages@[i], #[trigger] dates[i])
                &&& responses_view(r@) == fetch_responses(
                    tag@,
                    set@,
                    items@,
                    uid,
                    messages@,
                    dates,
                    contents@,
                )
            },
        one_terminal(responses_view(r@), tag@),
{
    let dates = render_dates(messages);
    let r = handle(tag, set, items, uid, messages, &dates, contents);
    assert(responses_view(r@) == fetch_responses(tag@, set@, items@, uid, messages@, dates@, contents@));
    r
}

/// The indices of the messages whose content must be downloaded: the
/// selected ones when the full message text is asked for, else none.
pub fn content_wanted(set: &Vec<Sequence>, items: &Vec<ItemName>, uid: bool, messages: &Vec<Message>) -> (r: Vec<usize>)
    requires
        messages.len() < u32::MAX,
    ensures
        items@.contains(ItemName::Body) ==> r@.map_values(|i: usize| i as int) == selected(
            set@,
            uid,
            messages@,
            messages.len() as int,
        ),
        !items@.contains(ItemName::Body) ==> r@.len() == 0,
{
    let mut i: usize = 0;
    while i < items.len()
        invariant
            i <= items.len(),
            messages.len() < u32::MAX,
            forall|j: int| 0 <= j < i ==> items@[j] != ItemName::Body,
        decreases items.len() - i,
    {
        if items[i] == ItemName::Body {
            assert(items@[i as int] == ItemName::Body);
            return selection(set, uid, messages);
        }
        i = i + 1;
    }
    Vec::new()
}

/// FETCH over a mailbox snapshot of any size: a snapshot too large to
/// number gets a tagged NO; any other is answered as by `fetch`.
pub fn fetch_snapshot(
    tag: &String,
    set: &Vec<Sequence>,
    items: &Vec<ItemName>,
    uid: bool,
    messages: &Vec<Message>,
    contents: &Vec<Option<MessageContent>>,
) -> (r: Vec<Response>)
    requires
        contents.len() == messages.len(),
    ensures
        messages.len() >= u32::MAX ==> responses_view(r@) == seq![
            status_v(tag@, StatusKind::Refused, "FETCH mailbox too large"@),
        ],
        messages.len() < u32::MAX ==> exists|dates: Seq<Option<String>>|
            {
                &&& dates.len() == messages.len()
                &&& forall|i: int| 0 <= i < dates.len() ==> rendered(messages@[i], #[trigger] dates[i])
                &&& responses_view(r@) == fetch_responses(
                    tag@,
                    set@,
                    items@,
                    uid,
                    messages@,
                    dates,
                    contents@,
                )
            },
        one_terminal(responses_view(r@), tag@),
{
    if messages.len() >= u32::MAX as usize {
        return crate::response::reply(tag, StatusKind::Refused, "FETCH mailbox too large");
    }
    fetch(tag, set, items, uid, messages, contents)
}

} // verus!
