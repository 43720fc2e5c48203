//! Properties of the governance rules that hold across operations.

use crate::error::ErrorKind;
use crate::records::CommentView;
use crate::store::comments::{like_refusal, liked, on_proposal};
use crate::store::organizations::organization_deleted;
use crate::store::proposals::{end_vote_refusal, proposal_deleted, vote_refusal};
use crate::store::StoreView;
use crate::table::lemma_key_position;
use candid::Principal;
use vstd::prelude::*;

verus! {

/// In a well-formed store (every operation keeps the store well-formed, so
/// this holds after any sequence of them) no identity has voted on a
/// proposal both for and against it, and the owner has voted neither way.
pub proof fn votes_are_exclusive(s: StoreView, id: u64, who: Principal)
    requires
        s.wf(),
        s.has_proposal(id),
    ensures
        !(s.proposal(id).upvotes.contains(who) && s.proposal(id).downvotes.contains(who)),
        !s.proposal(id).upvotes.contains(s.proposal(id).owner),
        !s.proposal(id).downvotes.contains(s.proposal(id).owner),
{
}

/// For a member who does not own the proposal and has not voted on it, a
/// vote fails with `DeadlineExceeded` exactly when `now` is past the
/// deadline; at the deadline itself the vote is still taken.
pub proof fn vote_closes_after_deadline(s: StoreView, id: u64, who: Principal, now: u64)
    requires
        s.has_proposal(id),
        s.is_member(s.proposal(id).organization_id, who),
        s.proposal(id).owner != who,
        !s.proposal(id).has_voted(who),
    ensures
        now > s.proposal(id).deadline ==> vote_refusal(s, id, who, now) == Some(
            ErrorKind::DeadlineExceeded,
        ),
        now <= s.proposal(id).deadline ==> vote_refusal(s, id, who, now) == None::<ErrorKind>,
{
}

/// Ending a vote before the deadline fails with `DeadlineNotExceeded`;
/// after it, anyone but the owner fails with `PermissionError`.
pub proof fn end_vote_gates(s: StoreView, id: u64, who: Principal, now: u64)
    requires
        s.has_proposal(id),
    ensures
        now <= s.proposal(id).deadline ==> end_vote_refusal(s, id, who, now) == Some(
            ErrorKind::DeadlineNotExceeded,
        ),
        now > s.proposal(id).deadline && s.proposal(id).owner != who ==> end_vote_refusal(
            s,
            id,
            who,
            now,
        ) == Some(ErrorKind::PermissionError),
{
}

/// After an organization is deleted, none of the proposals it listed is in
/// the store any more, so looking one up finds nothing; indeed no proposal
/// of that organization is left at all.
pub proof fn deleted_organization_loses_its_proposals(
    pre: StoreView,
    post: StoreView,
    id: u64,
    pid: u64,
)
    requires
        pre.wf(),
        pre.has_organization(id),
        organization_deleted(pre, post, id),
        pre.organization(id).proposals.contains(pid),
    ensures
        !post.has_proposal(pid),
        forall|k: u64| #[trigger]
            post.proposals.map().contains_key(k) ==> post.proposals.map()[k].organization_id != id,
{
    assert(pre.organization(id).proposals.to_set().contains(pid));
    assert forall|k: u64| #[trigger]
        post.proposals.map().contains_key(k) implies post.proposals.map()[k].organization_id
        != id by {
        assert(pre.proposals.map().contains_key(k));
        if pre.proposals.map()[k].organization_id == id {
            assert(pre.organization(id).proposals.contains(k));
            assert(pre.organization(id).proposals.to_set().contains(k));
        }
    }
}

/// After a proposal is deleted, none of the comments it listed is in the
/// store any more, and none of them is among the comments on that proposal.
pub proof fn deleted_proposal_loses_its_comments(
    pre: StoreView,
    post: StoreView,
    id: u64,
    cid: u64,
)
    requires
        post.wf(),
        proposal_deleted(pre, post, id),
        pre.proposal(id).comments.contains(cid),
    ensures
        !post.has_comment(cid),
        forall|c: CommentView| #[trigger]
            post.comments.rows.filter(on_proposal(id)).contains(c) ==> c.id != cid,
{
    assert(pre.proposal(id).comments.to_set().contains(cid));
    assert forall|c: CommentView| #[trigger]
        post.comments.rows.filter(on_proposal(id)).contains(c) implies c.id != cid by {
        post.comments.rows.lemma_filter_contains_rev(on_proposal(id), c);
        let i = choose|i: int| 0 <= i < post.comments.rows.len() && post.comments.rows[i] == c;
        lemma_key_position(post.comments, i);
    }
}

/// Once `who` has liked a comment, liking it again fails with `HasVoted`.
pub proof fn second_like_is_refused(
    pre: StoreView,
    post: StoreView,
    id: u64,
    org_id: u64,
    who: Principal,
)
    requires
        like_refusal(pre, id, org_id, who) == None::<ErrorKind>,
        liked(pre, post, id, who),
    ensures
        like_refusal(post, id, org_id, who) == Some(ErrorKind::HasVoted),
{
    assert(post.comment(id).likes[pre.comment(id).likes.len() as int] == who);
}

/// A member who likes a comment of their own fails with `CantLikeYours`.
pub proof fn own_like_is_refused(s: StoreView, id: u64, org_id: u64, who: Principal)
    requires
        s.has_comment(id),
        s.is_member(org_id, who),
        s.comment(id).author == who,
    ensures
        like_refusal(s, id, org_id, who) == Some(ErrorKind::CantLikeYours),
{
}

} // verus!
