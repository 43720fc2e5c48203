//! Discussion under proposals: comments that members write and like.

use crate::error::{fails_with, Error, ErrorKind};
use crate::identity::{contains_principal, same_principal};
use crate::records::{
    comment_views, other_than, without_id, Comment, CommentPayload, CommentView, ProposalView,
};
use crate::store::{Store, StoreView};
use candid::Principal;
use vstd::prelude::*;

verus! {

/// Selects the comments on proposal `proposal_id`.
pub open spec fn on_proposal(proposal_id: u64) -> spec_fn(CommentView) -> bool {
    |c: CommentView| c.proposal_id == proposal_id
}

/// Why `who` may not like comment `id` as a member of organization
/// `org_id`, if anything; the first failing check decides.
pub open spec fn like_refusal(s: StoreView, id: u64, org_id: u64, who: Principal) -> Option<
    ErrorKind,
> {
    let c = s.comment(id);
    if !s.has_comment(id) {
        Some(ErrorKind::NotFound)
    } else if !s.is_member(org_id, who) {
        Some(ErrorKind::NotAMember)
    } else if c.author == who {
        Some(ErrorKind::CantLikeYours)
    } else if c.likes.contains(who) {
        Some(ErrorKind::HasVoted)
    } else {
        None
    }
}

/// `post` is `pre` after `who` liked comment `id`.
pub open spec fn liked(pre: StoreView, post: StoreView, id: u64, who: Principal) -> bool {
    &&& post.comments.map() == pre.comments.map().insert(
        id,
        CommentView { likes: pre.comment(id).likes.push(who), ..pre.comment(id) },
    )
    &&& post.same_but_comments(pre)
}

impl Store {
    /// Writes a comment by `caller` under proposal `payload.proposal_id`;
    /// `caller` must be a member of the proposal's organization. The
    /// proposal lists the new comment and is stamped as updated at `now`.
    pub fn create_comment(&mut self, payload: CommentPayload, caller: Principal, now: u64) -> (r:
        Result<Comment, Error>)
        requires
            old(self).wf(),
            old(self)@.next_id < u64::MAX,
        ensures
            final(self).wf(),
            !old(self)@.has_proposal(payload.proposal_id) ==> fails_with(r, ErrorKind::NotFound)
                && final(self)@ == old(self)@,
            old(self)@.has_proposal(payload.proposal_id) && !old(self)@.is_member(
                old(self)@.proposal(payload.proposal_id).organization_id,
                caller,
            ) ==> fails_with(r, ErrorKind::NotAMember) && final(self)@ == old(self)@,
            old(self)@.has_proposal(payload.proposal_id) && old(self)@.is_member(
                old(self)@.proposal(payload.proposal_id).organization_id,
                caller,
            ) ==> {
                let p = old(self)@.proposal(payload.proposal_id);
                &&& r matches Ok(c)
                &&& c@ == (CommentView {
                    id: old(self)@.next_id,
                    proposal_id: payload.proposal_id,
                    content: payload.content@,
                    author: caller,
                    likes: Seq::empty(),
                    created_at: now,
                    updated_at: None,
                })
                &&& final(self)@.next_id == old(self)@.next_id + 1
                &&& final(self)@.comments.map() == old(self)@.comments.map().insert(c.id, c@)
                &&& final(self)@.proposals.map() == old(self)@.proposals.map().insert(
                    payload.proposal_id,
                    ProposalView { comments: p.comments.push(c.id), updated_at: Some(now), ..p },
                )
                &&& final(self)@.organizations == old(self)@.organizations
            },
    {
        let pid = payload.proposal_id;
        let mut p = match self.proposals.get(pid) {
            Some(p) => p.clone(),
            None => {
                return Err(Error::new(ErrorKind::NotFound, "proposal not found", pid));
            },
        };
        if !self.is_member(p.organization_id, caller) {
            return Err(
                Error::new(ErrorKind::NotAMember, "not a member of the organization", p.organization_id),
            );
        }
        let id = self.fresh_id();
        p.comments.push(id);
        p.updated_at = Some(now);
        self.proposals.replace(pid, p);
        let comment = Comment {
            id,
            proposal_id: pid,
            content: payload.content,
            author: caller,
            likes: Vec::new(),
            created_at: now,
            updated_at: None,
        };
        assert(comment@.likes =~= Seq::<Principal>::empty());
        self.comments.push(id, comment.clone());
        Ok(comment)
    }

    /// The comments on proposal `proposal_id`, in id order, for the members
    /// of organization `org_id`. Fails with `NotFound` when the store holds
    /// no comment at all.
    pub fn list_comments(&self, proposal_id: u64, org_id: u64, caller: Principal) -> (r: Result<
        Vec<Comment>,
        Error,
    >)
        requires
            self.wf(),
        ensures
            !self@.is_member(org_id, caller) ==> fails_with(r, ErrorKind::NotAMember),
            self@.is_member(org_id, caller) && self@.comments.keys.len() == 0 ==> fails_with(
                r,
                ErrorKind::NotFound,
            ),
            self@.is_member(org_id, caller) && self@.comments.keys.len() > 0 ==> (r matches Ok(v)
                && comment_views(v@) == self@.comments.rows.filter(on_proposal(proposal_id))),
    {
        if !self.is_member(org_id, caller) {
            return Err(Error::new(ErrorKind::NotAMember, "not a member of the organization", org_id));
        }
        let n = self.comments.len();
        if n == 0 {
            return Err(Error::new(ErrorKind::NotFound, "no comment exists yet", proposal_id));
        }
        let ghost rows = self@.comments.rows;
        let mut out: Vec<Comment> = Vec::new();
        let mut i: usize = 0;
        while i < n
            invariant
                self.wf(),
                rows == self@.comments.rows,
                n == rows.len(),
                i <= n,
                comment_views(out@) == rows.subrange(0, i as int).filter(on_proposal(proposal_id)),
            decreases n - i,
        {
            let c = self.comments.at(i);
            proof {
                assert(rows.subrange(0, i + 1) =~= rows.subrange(0, i as int).push(rows[i as int]));
                rows.subrange(0, i as int).lemma_filter_push(rows[i as int], on_proposal(proposal_id));
            }
            if c.proposal_id == proposal_id {
                let copy = c.clone();
                out.push(copy);
                assert(comment_views(out@) =~= rows.subrange(0, i + 1).filter(on_proposal(proposal_id)));
            }
            i = i + 1;
        }
        assert(rows.subrange(0, n as int) =~= rows);
        Ok(out)
    }

    /// Replaces the content of comment `id` and stamps it as updated at
    /// `now`. Only its author may.
    pub fn update_comment(
        &mut self,
        id: u64,
        payload: CommentPayload,
        caller: Principal,
        now: u64,
    ) -> (r: Result<Comment, Error>)
        requires
            old(self).wf(),
        ensures
            final(self).wf(),
            !old(self)@.has_comment(id) ==> fails_with(r, ErrorKind::NotFound) && final(self)@
                == old(self)@,
            old(self)@.has_comment(id) && old(self)@.comment(id).author != caller ==> fails_with(
                r,
                ErrorKind::PermissionError,
            ) && final(self)@ == old(self)@,
            old(self)@.has_comment(id) && old(self)@.comment(id).author == caller ==> {
                &&& r matches Ok(c)
                &&& c@ == (CommentView {
                    content: payload.content@,
                    updated_at: Some(now),
                    ..old(self)@.comment(id)
                })
                &&& final(self)@.comments.map() == old(self)@.comments.map().insert(id, c@)
                &&& final(self)@.same_but_comments(old(self)@)
            },
    {
        let mut c = match self.comments.get(id) {
            Some(c) => c.clone(),
            None => {
                return Err(Error::new(ErrorKind::NotFound, "comment not found", id));
            },
        };
        if !same_principal(&c.author, &caller) {
            return Err(Error::new(ErrorKind::PermissionError, "only the author may update the comment", id));
        }
        c.content = payload.content;
        c.updated_at = Some(now);
        self.comments.replace(id, c.clone());
        Ok(c)
    }

    /// Records that `caller`, a member of organization `org_id`, likes
    /// comment `id`. Checks, in order: membership, not the author, not
    /// liked before.
    pub fn like_comment(&mut self, id: u64, org_id: u64, caller: Principal) -> (r: Result<
        Comment,
        Error,
    >)
        requires
            old(self).wf(),
        ensures
            final(self).wf(),
            match like_refusal(old(self)@, id, org_id, caller) {
                Some(k) => fails_with(r, k) && final(self)@ == old(self)@,
                None => {
                    &&& r matches Ok(c)
                    &&& c@ == final(self)@.comment(id)
                    &&& liked(old(self)@, final(self)@, id, caller)
                },
            },
    {
        let mut c = match self.comments.get(id) {
            Some(c) => c.clone(),
            None => {
                return Err(Error::new(ErrorKind::NotFound, "comment not found", id));
            },
        };
        if !self.is_member(org_id, caller) {
            return Err(Error::new(ErrorKind::NotAMember, "not a member of the organization", org_id));
        }
        if same_principal(&c.author, &caller) {
            return Err(Error::new(ErrorKind::CantLikeYours, "cannot like one's own comment", id));
        }
        if contains_principal(&c.likes, &caller) {
            return Err(Error::new(ErrorKind::HasVoted, "already liked the comment", id));
        }
        let ghost before = c@;
        c.likes.push(caller);
        proof {
            assert(c@.likes =~= before.likes.push(caller));
            if c@.likes.contains(c@.author) {
                let j = c@.likes.index_of(c@.author);
                assert(before.likes[j] == c@.author);
            }
        }
        self.comments.replace(id, c.clone());
        Ok(c)
    }

    /// Deletes comment `id`. Only its author may. The parent proposal, if it
    /// still exists, stops listing it.
    pub fn delete_comment(&mut self, id: u64, caller: Principal) -> (r: Result<Comment, Error>)
        requires
            old(self).wf(),
        ensures
            final(self).wf(),
            !old(self)@.has_comment(id) ==> fails_with(r, ErrorKind::NotFound) && final(self)@
                == old(self)@,
            old(self)@.has_comment(id) && old(self)@.comment(id).author != caller ==> fails_with(
                r,
                ErrorKind::PermissionError,
            ) && final(self)@ == old(self)@,
            old(self)@.has_comment(id) && old(self)@.comment(id).author == caller ==> {
                let before = old(self)@.comment(id);
                let pid = before.proposal_id;
                &&& r matches Ok(c)
                &&& c@ == before
                &&& final(self)@.comments.map() == old(self)@.comments.map().remove(id)
                &&& final(self)@.proposals.map() == if old(self)@.has_proposal(pid) {
                    old(self)@.proposals.map().insert(
                        pid,
                        ProposalView {
                            comments: old(self)@.proposal(pid).comments.filter(other_than(id)),
                            ..old(self)@.proposal(pid)
                        },
                    )
                } else {
                    old(self)@.proposals.map()
                }
                &&& final(self)@.organizations == old(self)@.organizations
                &&& final(self)@.next_id == old(self)@.next_id
            },
    {
        let is_author = match self.comments.get(id) {
            Some(c) => same_principal(&c.author, &caller),
            None => {
                return Err(Error::new(ErrorKind::NotFound, "comment not found", id));
            },
        };
        if !is_author {
            return Err(Error::new(ErrorKind::PermissionError, "only the author may delete the comment", id));
        }
        let c = self.comments.remove(id).unwrap();
        let pid = c.proposal_id;
        let found = match self.proposals.get(pid) {
            Some(p) => {
                let mut p = p.clone();
                p.comments = without_id(&p.comments, id);
                Some(p)
            },
            None => None,
        };
        match found {
            Some(p) => {
                self.proposals.replace(pid, p);
            },
            None => {},
        }
        Ok(c)
    }
}

} // verus!
