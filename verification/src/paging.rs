//! Paged downloads: how a reply to a page request is taken, and what the
//! replies received so far hold together.

use vstd::prelude::*;
use crate::http::{is_success, status_is_success};

verus! {

/// What to do with the reply to a page request, decided by its status.
#[derive(Clone, Copy, Debug, PartialEq, Eq)]
pub enum ReplyAction {
    /// The reply succeeded: read the page it carries.
    ReadPage,
    /// The reply was refused: the download ends as a failure and nothing is
    /// saved.
    GiveUp,
}

/// A successful (2xx) reply is read; any other ends the download.
pub open spec fn reply_action(status: u16) -> ReplyAction {
    if is_success(status) {
        ReplyAction::ReadPage
    } else {
        ReplyAction::GiveUp
    }
}

/// What to do with a reply of status `status`.
pub fn decide_reply(status: u16) -> (action: ReplyAction)
    ensures
        action == reply_action(status),
        action == ReplyAction::ReadPage <==> 200 <= status < 300,
{
    if status_is_success(status) {
        ReplyAction::ReadPage
    } else {
        ReplyAction::GiveUp
    }
}

/// The entries of the first `k` replies, in order; each reply is a status,
/// a page of entries, and a number that the site sends along.
pub open spec fn received<T>(replies: Seq<(u16, Seq<T>, u64)>, k: int) -> Seq<T>
    decreases k,
{
    if k <= 0 || k > replies.len() {
        Seq::empty()
    } else {
        received(replies, k - 1) + replies[k - 1].1
    }
}

/// Dropping the last reply leaves what the replies before it hold.
pub proof fn lemma_received_prefix<T>(replies: Seq<(u16, Seq<T>, u64)>, k: int)
    requires
        0 <= k < replies.len(),
    ensures
        received(replies.drop_last(), k) == received(replies, k),
    decreases k,
{
    if k > 0 {
        lemma_received_prefix(replies, k - 1);
    }
}

} // verus!
