//! STATUS: message and unseen counts of a mailbox.
use vstd::prelude::*;
use crate::mailbox::{FolderCounts, MailboxId, message_count, unseen_count};
use crate::response::{one_terminal, responses_view, status_v, tagged_line, Response, ResponseV, StatusKind};

verus! {

/// STATUS of mailbox `mailbox`, which stands for `id`: its message count
/// and, for the inbox kind only, its unseen count, then the tagged OK.
pub fn handle(tag: &String, mailbox: &String, id: MailboxId, counts: &FolderCounts) -> (r: Vec<
    Response,
>)
    ensures
        responses_view(r@) == seq![
            ResponseV::StatusData {
                mailbox: mailbox@,
                messages: message_count(id, *counts),
                unseen: unseen_count(id, *counts),
            },
            status_v(tag@, StatusKind::Done, "STATUS completed"@),
        ],
        one_terminal(responses_view(r@), tag@),
{
    let (messages, unseen) = match id {
        MailboxId::Received(_) => (counts.received, counts.received_unread),
        MailboxId::Sent => (counts.sent, None),
        MailboxId::Draft => (counts.draft, None),
        MailboxId::Archived => (counts.archived, None),
    };
    let r = vec![
        Response::StatusData { mailbox: mailbox.clone(), messages, unseen },
        tagged_line(tag, StatusKind::Done, "STATUS completed"),
    ];
    assert(responses_view(r@) =~= seq![
        ResponseV::StatusData {
            mailbox: mailbox@,
            messages: message_count(id, *counts),
            unseen: unseen_count(id, *counts),
        },
        status_v(tag@, StatusKind::Done, "STATUS completed"@),
    ]);
    r
}

} // verus!
