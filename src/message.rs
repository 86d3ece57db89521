//! Message synthesis: flags, the header block and the MIME body of a
//! backend message.
use vstd::prelude::*;
use crate::response::Flag;
use crate::text::{dec_of, decimal, join, join_strings, strings_view};

verus! {

/// The role of a recipient.
#[derive(Clone, Copy, Debug, PartialEq, Eq, Structural)]
pub enum RecipientKind {
    To,
    Cc,
    Bcc,
}

#[derive(Clone, Debug)]
pub struct Recipient {
    pub name: String,
    pub kind: RecipientKind,
}

/// An attachment as the message summary lists it.
#[derive(Clone, Debug)]
pub struct Attachment {
    pub id: u32,
    pub name: String,
}

/// The fields of a backend message that synthesis reads.
#[derive(Clone, Debug)]
pub struct Message {
    /// Stable id, used as UID.
    pub id: u32,
    pub read: bool,
    pub answered: bool,
    pub draft: bool,
    /// Display name of the sender.
    pub from: String,
    pub recipients: Vec<Recipient>,
    pub subject: String,
    /// "YYYY-MM-DD HH:MM:SS", local time.
    pub date: String,
    /// The message is of the received category.
    pub received: bool,
    /// Id of the message this one answers; 0 for none.
    pub response_id: u64,
    /// Id of the message this one forwards; 0 for none.
    pub forward_id: u64,
    pub files: Vec<Attachment>,
}

/// A downloaded attachment: its display name and raw bytes.
#[derive(Clone, Debug)]
pub struct AttachmentData {
    pub name: String,
    pub bytes: Vec<u8>,
}

/// What base64 (standard alphabet, padded) makes of a byte string.
pub uninterp spec fn base64_of(b: Seq<u8>) -> Seq<char>;

/// The media type that content sniffing finds in a byte string, if any.
pub uninterp spec fn sniffed_type(b: Seq<u8>) -> Option<Seq<char>>;

/// Relies on base64::encode: the standard padded encoding of the bytes,
/// which is empty for empty input.
#[verifier::external_body]
fn encode_base64(b: &Vec<u8>) -> (r: String)
    ensures
        r@ == base64_of(b@),
        b@.len() == 0 ==> r@.len() == 0,
{
    #[allow(deprecated)]
    base64::encode(b)
}

/// Relies on mime_sniffer's `MimeTypeSniffer::sniff_mime_type` on a byte
/// slice, which reads the bytes alone.
#[verifier::external_body]
fn sniff_media_type(b: &Vec<u8>) -> (r: Option<String>)
    ensures
        match r {
            Some(s) => sniffed_type(b@) == Some(s@),
            None => sniffed_type(b@) is None,
        },
{
    mime_sniffer::MimeTypeSniffer::sniff_mime_type(b).map(|s| s.to_string())
}

pub open spec fn spec_flags(m: Message) -> Seq<Flag> {
    (if m.read {
        seq![Flag::Seen]
    } else {
        Seq::empty()
    }) + (if m.answered {
        seq![Flag::Answered]
    } else {
        Seq::empty()
    }) + (if m.draft {
        seq![Flag::Draft]
    } else {
        Seq::empty()
    })
}

/// The message's flags: Seen iff read, Answered iff answered, Draft iff draft.
pub fn flags_of(m: &Message) -> (r: Vec<Flag>)
    ensures
        r@ == spec_flags(*m),
{
    let mut r: Vec<Flag> = Vec::new();
    if m.read {
        r.push(Flag::Seen);
    }
    if m.answered {
        r.push(Flag::Answered);
    }
    if m.draft {
        r.push(Flag::Draft);
    }
    assert(r@ =~= spec_flags(*m));
    r
}

pub open spec fn person(name: Seq<char>) -> Seq<char> {
    "\""@ + name + "\" <>"@
}

/// The display names of the recipients of role `kind`, in order, as persons.
pub open spec fn people(rs: Seq<Recipient>, kind: RecipientKind) -> Seq<Seq<char>>
    decreases rs.len(),
{
    if rs.len() == 0 {
        Seq::empty()
    } else if rs.last().kind == kind {
        people(rs.drop_last(), kind).push(person(rs.last().name@))
    } else {
        people(rs.drop_last(), kind)
    }
}

/// The To list: the To recipients, then "Me" for a received message.
pub open spec fn to_list(m: Message) -> Seq<Seq<char>> {
    if m.received {
        people(m.recipients@, RecipientKind::To).push("Me"@)
    } else {
        people(m.recipients@, RecipientKind::To)
    }
}

pub open spec fn list_line(name: Seq<char>, list: Seq<Seq<char>>) -> Seq<Seq<char>> {
    if list.len() > 0 {
        seq![name + join(list, ",\r\n "@)]
    } else {
        Seq::empty()
    }
}

pub open spec fn id_line(name: Seq<char>, id: u64) -> Seq<Seq<char>> {
    if id > 0 {
        seq![name + "<"@ + dec_of(id as nat) + "@>"@]
    } else {
        Seq::empty()
    }
}

/// The header lines, in order, for a message whose date is written `date`.
pub open spec fn header_lines(m: Message, date: Seq<char>) -> Seq<Seq<char>> {
    seq![
        "Subject: "@ + m.subject@,
        "Date: "@ + date,
        "MIME-Version: 1.0"@,
        "From: "@ + person(m.from@),
        "Message-ID: <"@ + dec_of(m.id as nat) + "@>"@,
    ] + list_line("To: "@, to_list(m)) + list_line("Cc: "@, people(m.recipients@, RecipientKind::Cc))
        + list_line("Bcc: "@, people(m.recipients@, RecipientKind::Bcc)) + id_line(
        "In-Reply-To: "@,
        m.response_id,
    ) + id_line("Recent-Message-ID: "@, m.forward_id)
}

/// The header block: the header lines joined by CRLF.
pub open spec fn header_text(m: Message, date: Seq<char>) -> Seq<char> {
    join(header_lines(m, date), "\r\n"@)
}

fn make_person(name: &String) -> (r: String)
    ensures
        r@ == person(name@),
{
    let mut r = String::from_str("\"");
    r.append(name.as_str());
    r.append("\" <>");
    r
}

fn people_of(rs: &Vec<Recipient>, kind: RecipientKind) -> (r: Vec<String>)
    ensures
        strings_view(r@) == people(rs@, kind),
{
    let mut r: Vec<String> = Vec::new();
    let mut i: usize = 0;
    while i < rs.len()
        invariant
            i <= rs.len(),
            strings_view(r@) == people(rs@.subrange(0, i as int), kind),
        decreases rs.len() - i,
    {
        proof {
            assert(rs@.subrange(0, i + 1).drop_last() =~= rs@.subrange(0, i as int));
        }
        if rs[i].kind == kind {
            let p = make_person(&rs[i].name);
            r.push(p);
            assert(strings_view(r@) =~= people(rs@.subrange(0, i as int), kind).push(p@));
        }
        i = i + 1;
    }
    assert(rs@.subrange(0, rs.len() as int) =~= rs@);
    r
}

fn push_list(lines: &mut Vec<String>, name: &str, list: &Vec<String>)
    ensures
        strings_view(final(lines)@) == strings_view(old(lines)@) + list_line(name@, strings_view(list@)),
{
    if list.len() > 0 {
        let mut line = String::from_str(name);
        line.append(join_strings(list, ",\r\n ").as_str());
        lines.push(line);
        assert(strings_view(lines@) =~= strings_view(old(lines)@) + list_line(
            name@,
            strings_view(list@),
        ));
    } else {
        assert(strings_view(lines@) =~= strings_view(old(lines)@) + list_line(
            name@,
            strings_view(list@),
        ));
    }
}

fn push_id(lines: &mut Vec<String>, name: &str, id: u64)
    ensures
        strings_view(final(lines)@) == strings_view(old(lines)@) + id_line(name@, id),
{
    if id > 0 {
        let mut line = String::from_str(name);
        line.append("<");
        line.append(decimal(id).as_str());
        line.append("@>");
        lines.push(line);
    }
    assert(strings_view(lines@) =~= strings_view(old(lines)@) + id_line(name@, id));
}

/// The header block of `m`, with its date already written as `date`.
pub fn make_header(m: &Message, date: &str) -> (r: String)
    ensures
        r@ == header_text(*m, date@),
{
    let mut to = people_of(&m.recipients, RecipientKind::To);
    if m.received {
        to.push(String::from_str("Me"));
    }
    assert(strings_view(to@) =~= to_list(*m));
    let cc = people_of(&m.recipients, RecipientKind::Cc);
    let bcc = people_of(&m.recipients, RecipientKind::Bcc);
    let mut lines: Vec<String> = Vec::new();
    let mut l = String::from_str("Subject: ");
    l.append(m.subject.as_str());
    lines.push(l);
    let mut l = String::from_str("Date: ");
    l.append(date);
    lines.push(l);
    lines.push(String::from_str("MIME-Version: 1.0"));
    let mut l = String::from_str("From: ");
    l.append(make_person(&m.from).as_str());
    lines.push(l);
    let mut l = String::from_str("Message-ID: <");
    l.append(decimal(m.id as u64).as_str());
    l.append("@>");
    lines.push(l);
    assert(strings_view(lines@) =~= seq![
        "Subject: "@ + m.subject@,
        "Date: "@ + date@,
        "MIME-Version: 1.0"@,
        "From: "@ + person(m.from@),
        "Message-ID: <"@ + dec_of(m.id as nat) + "@>"@,
    ]);
    push_list(&mut lines, "To: ", &to);
    push_list(&mut lines, "Cc: ", &cc);
    push_list(&mut lines, "Bcc: ", &bcc);
    push_id(&mut lines, "In-Reply-To: ", m.response_id);
    push_id(&mut lines, "Recent-Message-ID: ", m.forward_id);
    assert(strings_view(lines@) =~= header_lines(*m, date@));
    join_strings(&lines, "\r\n")
}

/// The generic media type for attachments whose type sniffing cannot tell.
pub open spec fn media_type(sniffed: Option<Seq<char>>) -> Seq<char> {
    match sniffed {
        Some(t) => t,
        None => "application/octet-stream"@,
    }
}

/// The one boundary token of every multipart message.
pub open spec fn boundary() -> Seq<char> {
    "=PARTLIMIT"@
}

/// One part of a multipart body.
pub struct PartModel {
    pub inline: bool,
    pub content_type: Seq<char>,
    pub name: Seq<char>,
    pub data: Seq<char>,
}

/// The parts of a message with attachments: the inline HTML content, then
/// one part per attachment.
pub open spec fn parts_of(content: Seq<char>, atts: Seq<AttachmentData>) -> Seq<PartModel> {
    seq![PartModel { inline: true, content_type: "text/html"@, name: Seq::empty(), data: content }]
        + atts.map_values(
        |a: AttachmentData|
            PartModel {
                inline: false,
                content_type: media_type(sniffed_type(a.bytes@)),
                name: a.name@,
                data: base64_of(a.bytes@),
            },
    )
}

/// The text of one part, from its opening delimiter line on.
pub open spec fn part_text(p: PartModel) -> Seq<char> {
    if p.inline {
        "--"@ + boundary()
            + "\r\nContent-Disposition: inline\r\nContent-Type: text/html\r\nContent-Transfer-Encoding: base64\r\n\r\n"@
            + p.data
    } else {
        "--"@ + boundary() + "\r\nContent-Disposition: attachment; filename=\""@ + p.name
            + "\"\r\nContent-Type: "@ + p.content_type + "; name=\""@ + p.name
            + "\"\r\nContent-Transfer-Encoding: base64\r\nContent-Description: "@ + p.name
            + "\r\n\r\n"@ + p.data
    }
}

/// The parts' texts, each two separated by a blank line.
pub open spec fn parts_text(ps: Seq<PartModel>) -> Seq<char>
    decreases ps.len(),
{
    if ps.len() == 0 {
        Seq::empty()
    } else if ps.len() == 1 {
        part_text(ps[0])
    } else {
        parts_text(ps.drop_last()) + "\r\n\r\n"@ + part_text(ps.last())
    }
}

pub open spec fn single_part_head() -> Seq<char> {
    "\r\nContent-Type: text/html\r\nContent-Transfer-Encoding: base64\r\n\r\n"@
}

pub open spec fn multipart_head() -> Seq<char> {
    "\r\nContent-Type: multipart/mixed; boundary=\""@ + boundary() + "\"\r\n\r\n"@
}

pub open spec fn multipart_close() -> Seq<char> {
    "\r\n--"@ + boundary() + "--\r\n"@
}

/// The full message: the header block, then a single HTML part when there
/// is no attachment, or a multipart/mixed body of `parts_of`.
pub open spec fn message_text(header: Seq<char>, content: Seq<char>, atts: Seq<AttachmentData>) -> Seq<
    char,
> {
    if atts.len() == 0 {
        header + single_part_head() + content
    } else {
        header + multipart_head() + parts_text(parts_of(content, atts)) + multipart_close()
    }
}

fn attachment_part(a: &AttachmentData) -> (r: String)
    ensures
        r@ == part_text(
            PartModel {
                inline: false,
                content_type: media_type(sniffed_type(a.bytes@)),
                name: a.name@,
                data: base64_of(a.bytes@),
            },
        ),
{
    let sniffed = sniff_media_type(&a.bytes);
    let data = encode_base64(&a.bytes);
    let mut r = String::from_str("--");
    r.append("=PARTLIMIT");
    r.append("\r\nContent-Disposition: attachment; filename=\"");
    r.append(a.name.as_str());
    r.append("\"\r\nContent-Type: ");
    match &sniffed {
        Some(t) => r.append(t.as_str()),
        None => r.append("application/octet-stream"),
    }
    r.append("; name=\"");
    r.append(a.name.as_str());
    r.append("\"\r\nContent-Transfer-Encoding: base64\r\nContent-Description: ");
    r.append(a.name.as_str());
    r.append("\r\n\r\n");
    r.append(data.as_str());
    let ghost p = PartModel {
        inline: false,
        content_type: media_type(sniffed_type(a.bytes@)),
        name: a.name@,
        data: base64_of(a.bytes@),
    };
    assert(r@ =~= part_text(p));
    r
}

/// The full message text of a message with header block `header`, HTML
/// content `content` (already base64) and downloaded attachments `atts`.
pub fn make_body(header: &String, content: &String, atts: &Vec<AttachmentData>) -> (r: String)
    ensures
        r@ == message_text(header@, content@, atts@),
{
    let mut r = header.clone();
    if atts.len() == 0 {
        r.append("\r\nContent-Type: text/html\r\nContent-Transfer-Encoding: base64\r\n\r\n");
        r.append(content.as_str());
        return r;
    }
    proof {
        reveal_strlit("=PARTLIMIT");
        reveal_strlit("--");
        reveal_strlit("\r\nContent-Type: multipart/mixed; boundary=\"");
        reveal_strlit("\r\nContent-Type: multipart/mixed; boundary=\"=PARTLIMIT\"\r\n\r\n");
        reveal_strlit("\"\r\n\r\n");
        reveal_strlit("--=PARTLIMIT\r\nContent-Disposition: inline\r\nContent-Type: text/html\r\nContent-Transfer-Encoding: base64\r\n\r\n");
        reveal_strlit("\r\nContent-Disposition: inline\r\nContent-Type: text/html\r\nContent-Transfer-Encoding: base64\r\n\r\n");
    }
    r.append("\r\nContent-Type: multipart/mixed; boundary=\"=PARTLIMIT\"\r\n\r\n");
    assert(r@ =~= header@ + multipart_head());
    let ghost ps = parts_of(content@, atts@);
    r.append(
        "--=PARTLIMIT\r\nContent-Disposition: inline\r\nContent-Type: text/html\r\nContent-Transfer-Encoding: base64\r\n\r\n",
    );
    r.append(content.as_str());
    assert(ps.subrange(0, 1) =~= seq![ps[0]]);
    assert(r@ =~= header@ + multipart_head() + parts_text(ps.subrange(0, 1)));
    let mut i: usize = 0;
    while i < atts.len()
        invariant
            i <= atts.len(),
            ps == parts_of(content@, atts@),
            r@ == header@ + multipart_head() + parts_text(ps.subrange(0, i + 1)),
        decreases atts.len() - i,
    {
        let part = attachment_part(&atts[i]);
        r.append("\r\n\r\n");
        r.append(part.as_str());
        proof {
            assert(ps.subrange(0, i + 2).drop_last() =~= ps.subrange(0, i + 1));
            assert(ps.subrange(0, i + 2).last() == ps[i + 1]);
        }
        i = i + 1;
    }
    assert(ps.subrange(0, atts.len() + 1) =~= ps);
    proof {
        reveal_strlit("\r\n--=PARTLIMIT--\r\n");
        reveal_strlit("\r\n--");
        reveal_strlit("--\r\n");
    }
    r.append("\r\n--=PARTLIMIT--\r\n");
    r
}

/// The MIME structure of a synthesized message: without attachments the
/// body is one HTML part; with N attachments it is one inline HTML part
/// followed by N attachment parts, each delimited by the same boundary
/// token, and an attachment whose type sniffing fails is typed
/// application/octet-stream.
pub proof fn lemma_mime_structure(header: Seq<char>, content: Seq<char>, atts: Seq<AttachmentData>)
    ensures
        atts.len() == 0 ==> message_text(header, content, atts) == header + single_part_head()
            + content,
        atts.len() > 0 ==> message_text(header, content, atts) == header + multipart_head()
            + parts_text(parts_of(content, atts)) + multipart_close(),
        parts_of(content, atts).len() == atts.len() + 1,
        parts_of(content, atts)[0].inline,
        parts_of(content, atts)[0].content_type == "text/html"@,
        forall|i: int|
            0 <= i < atts.len() ==> {
                let p = #[trigger] parts_of(content, atts)[i + 1];
                &&& !p.inline
                &&& p.name == atts[i].name@
                &&& p.data == base64_of(atts[i].bytes@)
                &&& p.content_type == media_type(sniffed_type(atts[i].bytes@))
                &&& sniffed_type(atts[i].bytes@) is None ==> p.content_type
                    == "application/octet-stream"@
            },
        forall|i: int|
            0 <= i < parts_of(content, atts).len() ==> (#[trigger] part_text(
                parts_of(content, atts)[i],
            )).subrange(0, 12) == "--"@ + boundary(),
{
    let ps = parts_of(content, atts);
    assert forall|i: int| 0 <= i < atts.len() implies {
        let p = #[trigger] ps[i + 1];
        &&& !p.inline
        &&& p.name == atts[i].name@
        &&& p.data == base64_of(atts[i].bytes@)
        &&& p.content_type == media_type(sniffed_type(atts[i].bytes@))
        &&& sniffed_type(atts[i].bytes@) is None ==> p.content_type
            == "application/octet-stream"@
    } by {
        assert(ps[i + 1] == atts.map_values(
            |a: AttachmentData|
                PartModel {
                    inline: false,
                    content_type: media_type(sniffed_type(a.bytes@)),
                    name: a.name@,
                    data: base64_of(a.bytes@),
                },
        )[i]);
    }
    assert forall|i: int| 0 <= i < ps.len() implies (#[trigger] part_text(ps[i])).subrange(0, 12)
        == "--"@ + boundary() by {
        reveal_strlit("--");
        reveal_strlit("=PARTLIMIT");
        assert((part_text(ps[i])).subrange(0, 12) =~= "--"@ + boundary());
    }
}

} // verus!
