use vstd::prelude::*;

verus! {

/// `post` is the queue `pre` after one event was taken from its front, and `r` is what was
/// taken: the front event, or nothing when the queue was empty.
pub open spec fn popped_front<T>(pre: Seq<T>, post: Seq<T>, r: Option<T>) -> bool {
    if pre.len() == 0 {
        post == pre && r is None
    } else {
        post == pre.drop_first() && r == Some(pre[0])
    }
}

/// Polling is fair: each poll hands out the event at the front of the queue and moves every
/// other queued event one place forward, so an event at place `k` is handed out by the
/// `k + 1`-th poll, whatever is queued behind it meanwhile.
pub proof fn lemma_poll_moves_forward<T>(pre: Seq<T>, post: Seq<T>, r: Option<T>, k: int)
    requires
        popped_front(pre, post, r),
        0 <= k < pre.len(),
    ensures
        k == 0 ==> r == Some(pre[0]),
        k > 0 ==> post[k - 1] == pre[k] && post.len() == pre.len() - 1,
{
}

} // verus!
