//! The proposal lifecycle: a proposal is open for votes until its deadline,
//! closed after it, and finalised when its owner ends the vote.

use crate::error::{fails_with, Error, ErrorKind};
use crate::identity::{contains_principal, same_principal};
use crate::records::{
    other_than, proposal_views, without_id, OrganizationView, Proposal, ProposalPayload,
    ProposalView, VOTING_WINDOW,
};
use crate::store::{Store, StoreView};
use candid::Principal;
use vstd::prelude::*;

verus! {

/// Selects the proposals of organization `org_id`.
pub open spec fn of_organization(org_id: u64) -> spec_fn(ProposalView) -> bool {
    |p: ProposalView| p.organization_id == org_id
}

/// Selects the approved proposals of organization `org_id` whose deadline
/// has not passed at time `now`.
pub open spec fn approved_open(org_id: u64, now: u64) -> spec_fn(ProposalView) -> bool {
    |p: ProposalView| p.organization_id == org_id && p.is_approved && !p.is_closed(now)
}

/// The outcome of finalising a vote: approved when more identities voted
/// down than up.
pub open spec fn approval(p: ProposalView) -> bool {
    p.downvotes.len() > p.upvotes.len()
}

/// Why `who` may not vote on proposal `id` at time `now`, if anything; the
/// first failing check decides.
pub open spec fn vote_refusal(s: StoreView, id: u64, who: Principal, now: u64) -> Option<ErrorKind> {
    let p = s.proposal(id);
    if !s.has_proposal(id) {
        Some(ErrorKind::NotFound)
    } else if !s.is_member(p.organization_id, who) {
        Some(ErrorKind::NotAMember)
    } else if p.owner == who {
        Some(ErrorKind::CantVoteYours)
    } else if p.has_voted(who) {
        Some(ErrorKind::HasVoted)
    } else if p.is_closed(now) {
        Some(ErrorKind::DeadlineExceeded)
    } else {
        None
    }
}

/// Why `who` may not finalise the vote on proposal `id` at time `now`, if
/// anything: the window must have closed, and only the owner may finalise.
pub open spec fn end_vote_refusal(s: StoreView, id: u64, who: Principal, now: u64) -> Option<
    ErrorKind,
> {
    let p = s.proposal(id);
    if !s.has_proposal(id) {
        Some(ErrorKind::NotFound)
    } else if !p.is_closed(now) {
        Some(ErrorKind::DeadlineNotExceeded)
    } else if p.owner != who {
        Some(ErrorKind::PermissionError)
    } else {
        None
    }
}

/// `post` is `pre` after proposal `id` was deleted: the proposal and every
/// comment it lists are gone, and its organization, if it still exists, no
/// longer lists it.
pub open spec fn proposal_deleted(pre: StoreView, post: StoreView, id: u64) -> bool {
    let before = pre.proposal(id);
    let org_id = before.organization_id;
    &&& post.proposals.map() == pre.proposals.map().remove(id)
    &&& post.comments.map() == pre.comments.map().remove_keys(before.comments.to_set())
    &&& post.organizations.map() == if pre.has_organization(org_id) {
        pre.organizations.map().insert(
            org_id,
            OrganizationView {
                proposals: pre.organization(org_id).proposals.filter(other_than(id)),
                ..pre.organization(org_id)
            },
        )
    } else {
        pre.organizations.map()
    }
    &&& post.next_id == pre.next_id
}

impl Store {
    /// Files a proposal in organization `payload.organization_id` on behalf
    /// of `caller`, who must be a member of it. Voting stays open until one
    /// window after `now`; the organization lists the new proposal.
    pub fn create_proposal(&mut self, payload: ProposalPayload, caller: Principal, now: u64) -> (r:
        Result<Proposal, Error>)
        requires
            old(self).wf(),
            old(self)@.next_id < u64::MAX,
            now <= u64::MAX - VOTING_WINDOW,
        ensures
            final(self).wf(),
            !old(self)@.is_member(payload.organization_id, caller) ==> fails_with(
                r,
                ErrorKind::NotAMember,
            ) && final(self)@ == old(self)@,
            old(self)@.is_member(payload.organization_id, caller) ==> {
                let org = old(self)@.organization(payload.organization_id);
                &&& r matches Ok(p)
                &&& p@ == (ProposalView {
                    id: old(self)@.next_id,
                    organization_id: payload.organization_id,
                    title: payload.title@,
                    details: payload.details@,
                    amount_requested: payload.amount_requested,
                    owner: caller,
                    upvotes: Seq::empty(),
                    downvotes: Seq::empty(),
                    is_approved: false,
                    created_at: now,
                    deadline: (now + VOTING_WINDOW) as u64,
                    updated_at: None,
                    comments: Seq::empty(),
                })
                &&& final(self)@.next_id == old(self)@.next_id + 1
                &&& final(self)@.proposals.map() == old(self)@.proposals.map().insert(p.id, p@)
                &&& final(self)@.organizations.map() == old(self)@.organizations.map().insert(
                    payload.organization_id,
                    OrganizationView {
                        proposals: org.proposals.push(p.id),
                        updated_at: Some(now),
                        ..org
                    },
                )
                &&& final(self)@.comments == old(self)@.comments
            },
    {
        let ghost pre = self@;
        let org_id = payload.organization_id;
        let mut org = match self.organizations.get(org_id) {
            Some(o) => o.clone(),
            None => {
                return Err(Error::new(ErrorKind::NotAMember, "not a member of the organization", org_id));
            },
        };
        if !(same_principal(&org.owner, &caller) || contains_principal(&org.members, &caller)) {
            return Err(Error::new(ErrorKind::NotAMember, "not a member of the organization", org_id));
        }
        let id = self.fresh_id();
        org.proposals.push(id);
        org.updated_at = Some(now);
        self.organizations.replace(org_id, org);
        let proposal = Proposal {
            id,
            organization_id: org_id,
            title: payload.title,
            details: payload.details,
            amount_requested: payload.amount_requested,
            owner: caller,
            upvotes: Vec::new(),
            downvotes: Vec::new(),
            is_approved: false,
            created_at: now,
            deadline: now + VOTING_WINDOW,
            updated_at: None,
            comments: Vec::new(),
        };
        assert(proposal@.upvotes =~= Seq::<Principal>::empty());
        assert(proposal@.downvotes =~= Seq::<Principal>::empty());
        assert(proposal@.comments =~= Seq::<u64>::empty());
        self.proposals.push(id, proposal.clone());
        proof {
            let post = self@;
            let listed = pre.organization(org_id).proposals;
            assert(post.organization(org_id).proposals =~= listed.push(id));
            assert forall|o: u64, j: int|
                post.organizations.map().contains_key(o) && 0 <= j
                    < post.organizations.map()[o].proposals.len() implies {
                let k = #[trigger] post.organizations.map()[o].proposals[j];
                &&& post.proposals.map().contains_key(k)
                &&& post.proposals.map()[k].organization_id == o
            } by {
                if o != org_id || j < listed.len() {
                    let k = pre.organizations.map()[o].proposals[j];
                    assert(pre.proposals.map().contains_key(k));
                    let i = pre.proposals.keys.index_of(k);
                    assert(pre.proposals.keys[i] < id);
                }
            }
            assert forall|k: u64| #[trigger] post.proposals.map().contains_key(k) implies {
                let o = post.proposals.map()[k].organization_id;
                &&& post.organizations.map().contains_key(o)
                &&& post.organizations.map()[o].proposals.contains(k)
            } by {
                if k == id {
                    assert(post.organization(org_id).proposals[listed.len() as int] == id);
                } else if pre.proposals.map()[k].organization_id == org_id {
                    let i = listed.index_of(k);
                    assert(post.organization(org_id).proposals[i] == k);
                }
            }
        }
        Ok(proposal)
    }

    /// Proposal `id`, for the members of its organization.
    pub fn get_proposal(&self, id: u64, caller: Principal) -> (r: Result<Proposal, Error>)
        requires
            self.wf(),
        ensures
            !self@.has_proposal(id) ==> fails_with(r, ErrorKind::NotFound),
            self@.has_proposal(id) && !self@.has_organization(self@.proposal(id).organization_id)
                ==> fails_with(r, ErrorKind::NotFound),
            self@.has_proposal(id) && self@.has_organization(self@.proposal(id).organization_id)
                && !self@.is_member(self@.proposal(id).organization_id, caller) ==> fails_with(
                r,
                ErrorKind::NotAMember,
            ),
            self@.has_proposal(id) && self@.is_member(self@.proposal(id).organization_id, caller)
                ==> (r matches Ok(p) && p@ == self@.proposal(id)),
    {
        match self.proposals.get(id) {
            Some(p) => {
                let org_id = p.organization_id;
                match self.organizations.get(org_id) {
                    Some(org) => {
                        if same_principal(&org.owner, &caller) || contains_principal(
                            &org.members,
                            &caller,
                        ) {
                            Ok(p.clone())
                        } else {
                            Err(Error::new(ErrorKind::NotAMember, "not a member of the organization", org_id))
                        }
                    },
                    None => Err(Error::new(ErrorKind::NotFound, "organization not found", org_id)),
                }
            },
            None => Err(Error::new(ErrorKind::NotFound, "proposal not found", id)),
        }
    }

    /// The proposals of organization `org_id`, in id order; with
    /// `approved_only`, just those approved whose deadline has not passed at `now`.
    fn collect_proposals(&self, org_id: u64, approved_only: bool, now: u64) -> (r: Vec<Proposal>)
        requires
            self.wf(),
        ensures
            !approved_only ==> proposal_views(r@) == self@.proposals.rows.filter(
                of_organization(org_id),
            ),
            approved_only ==> proposal_views(r@) == self@.proposals.rows.filter(
                approved_open(org_id, now),
            ),
    {
        let ghost rows = self@.proposals.rows;
        let ghost pick = if approved_only {
            approved_open(org_id, now)
        } else {
            of_organization(org_id)
        };
        let n = self.proposals.len();
        let mut out: Vec<Proposal> = Vec::new();
        let mut i: usize = 0;
        while i < n
            invariant
                self.wf(),
                rows == self@.proposals.rows,
                n == rows.len(),
                i <= n,
                pick == (if approved_only {
                    approved_open(org_id, now)
                } else {
                    of_organization(org_id)
                }),
                proposal_views(out@) == rows.subrange(0, i as int).filter(pick),
            decreases n - i,
        {
            let p = self.proposals.at(i);
            proof {
                assert(rows.subrange(0, i + 1) =~= rows.subrange(0, i as int).push(rows[i as int]));
                rows.subrange(0, i as int).lemma_filter_push(rows[i as int], pick);
            }
            let keep = p.organization_id == org_id && (!approved_only || (p.is_approved && !(now
                > p.deadline)));
            if keep {
                let copy = p.clone();
                out.push(copy);
                assert(proposal_views(out@) =~= rows.subrange(0, i + 1).filter(pick));
            }
            i = i + 1;
        }
        assert(rows.subrange(0, n as int) =~= rows);
        out
    }

    /// The proposals of organization `org_id`, in id order, for its members.
    /// Fails with `NotFound` when the store holds no proposal at all.
    pub fn list_proposals(&self, org_id: u64, caller: Principal) -> (r: Result<Vec<Proposal>, Error>)
        requires
            self.wf(),
        ensures
            !self@.is_member(org_id, caller) ==> fails_with(r, ErrorKind::NotAMember),
            self@.is_member(org_id, caller) && self@.proposals.keys.len() == 0 ==> fails_with(
                r,
                ErrorKind::NotFound,
            ),
            self@.is_member(org_id, caller) && self@.proposals.keys.len() > 0 ==> (r matches Ok(v)
                && proposal_views(v@) == self@.proposals.rows.filter(of_organization(org_id))),
    {
        if !self.is_member(org_id, caller) {
            return Err(Error::new(ErrorKind::NotAMember, "not a member of the organization", org_id));
        }
        if self.proposals.len() == 0 {
            return Err(Error::new(ErrorKind::NotFound, "no proposal exists yet", org_id));
        }
        Ok(self.collect_proposals(org_id, false, 0))
    }

    /// The approved proposals of organization `org_id` whose deadline has not
    /// passed at `now`, in id order, for its members. Fails with `NotFound`
    /// when the store holds no proposal at all.
    pub fn list_finalized_approved_proposals(&self, org_id: u64, caller: Principal, now: u64) -> (r:
        Result<Vec<Proposal>, Error>)
        requires
            self.wf(),
        ensures
            !self@.is_member(org_id, caller) ==> fails_with(r, ErrorKind::NotAMember),
            self@.is_member(org_id, caller) && self@.proposals.keys.len() == 0 ==> fails_with(
                r,
                ErrorKind::NotFound,
            ),
            self@.is_member(org_id, caller) && self@.proposals.keys.len() > 0 ==> (r matches Ok(v)
                && proposal_views(v@) == self@.proposals.rows.filter(approved_open(org_id, now))),
    {
        if !self.is_member(org_id, caller) {
            return Err(Error::new(ErrorKind::NotAMember, "not a member of the organization", org_id));
        }
        if self.proposals.len() == 0 {
            return Err(Error::new(ErrorKind::NotFound, "no proposal exists yet", org_id));
        }
        Ok(self.collect_proposals(org_id, true, now))
    }

    /// Replaces the title, details and amount of proposal `id` and stamps it
    /// as updated at `now`. Only its owner may, and only while voting is open.
    pub fn update_proposal(
        &mut self,
        id: u64,
        payload: ProposalPayload,
        caller: Principal,
        now: u64,
    ) -> (r: Result<Proposal, Error>)
        requires
            old(self).wf(),
        ensures
            final(self).wf(),
            !old(self)@.has_proposal(id) ==> fails_with(r, ErrorKind::NotFound) && final(self)@
                == old(self)@,
            old(self)@.has_proposal(id) && old(self)@.proposal(id).owner != caller ==> fails_with(
                r,
                ErrorKind::PermissionError,
            ) && final(self)@ == old(self)@,
            old(self)@.has_proposal(id) && old(self)@.proposal(id).owner == caller
                && old(self)@.proposal(id).is_closed(now) ==> fails_with(
                r,
                ErrorKind::DeadlineExceeded,
            ) && final(self)@ == old(self)@,
            old(self)@.has_proposal(id) && old(self)@.proposal(id).owner == caller
                && !old(self)@.proposal(id).is_closed(now) ==> {
                &&& r matches Ok(p)
                &&& p@ == (ProposalView {
                    title: payload.title@,
                    details: payload.details@,
                    amount_requested: payload.amount_requested,
                    updated_at: Some(now),
                    ..old(self)@.proposal(id)
                })
                &&& final(self)@.proposals.map() == old(self)@.proposals.map().insert(id, p@)
                &&& final(self)@.same_but_proposals(old(self)@)
            },
    {
        let mut p = match self.proposals.get(id) {
            Some(p) => p.clone(),
            None => {
                return Err(Error::new(ErrorKind::NotFound, "proposal not found", id));
            },
        };
        if !same_principal(&p.owner, &caller) {
            return Err(Error::new(ErrorKind::PermissionError, "only the owner may update the proposal", id));
        }
        if now > p.deadline {
            return Err(Error::new(ErrorKind::DeadlineExceeded, "the voting window has closed", id));
        }
        p.title = payload.title;
        p.details = payload.details;
        p.amount_requested = payload.amount_requested;
        p.updated_at = Some(now);
        self.proposals.replace(id, p.clone());
        Ok(p)
    }

    /// Records a vote of `caller` on proposal `id`: for it when `up`, against
    /// it otherwise.
    fn cast_vote(&mut self, id: u64, caller: Principal, now: u64, up: bool) -> (r: Result<
        Proposal,
        Error,
    >)
        requires
            old(self).wf(),
        ensures
            final(self).wf(),
            match vote_refusal(old(self)@, id, caller, now) {
                Some(k) => fails_with(r, k) && final(self)@ == old(self)@,
                None => {
                    let before = old(self)@.proposal(id);
                    &&& r matches Ok(p)
                    &&& up ==> p@ == (ProposalView { upvotes: before.upvotes.push(caller), ..before })
                    &&& !up ==> p@ == (ProposalView {
                        downvotes: before.downvotes.push(caller),
                        ..before
                    })
                    &&& final(self)@.proposals.map() == old(self)@.proposals.map().insert(id, p@)
                    &&& final(self)@.same_but_proposals(old(self)@)
                },
            },
    {
        let mut p = match self.proposals.get(id) {
            Some(p) => p.clone(),
            None => {
                return Err(Error::new(ErrorKind::NotFound, "proposal not found", id));
            },
        };
        if !self.is_member(p.organization_id, caller) {
            return Err(
                Error::new(ErrorKind::NotAMember, "not a member of the organization", p.organization_id),
            );
        }
        if same_principal(&p.owner, &caller) {
            return Err(Error::new(ErrorKind::CantVoteYours, "cannot vote on one's own proposal", id));
        }
        if contains_principal(&p.upvotes, &caller) || contains_principal(&p.downvotes, &caller) {
            return Err(Error::new(ErrorKind::HasVoted, "already voted on the proposal", id));
        }
        if now > p.deadline {
            return Err(Error::new(ErrorKind::DeadlineExceeded, "the voting window has closed", id));
        }
        let ghost before = p@;
        if up {
            p.upvotes.push(caller);
        } else {
            p.downvotes.push(caller);
        }
        proof {
            assert(p@.upvotes.no_duplicates()) by {
                if up {
                    assert(p@.upvotes =~= before.upvotes.push(caller));
                }
            }
            assert(p@.downvotes.no_duplicates()) by {
                if !up {
                    assert(p@.downvotes =~= before.downvotes.push(caller));
                }
            }
            assert(before.votes_wf());
            assert forall|who: Principal| #[trigger] p@.upvotes.contains(who) implies !p@.downvotes.contains(who) by {
                if up {
                    assert(p@.upvotes =~= before.upvotes.push(caller));
                    if who != caller {
                        let j = p@.upvotes.index_of(who);
                        assert(before.upvotes[j] == who);
                        assert(before.upvotes.contains(who));
                    }
                } else {
                    assert(p@.downvotes =~= before.downvotes.push(caller));
                    assert(before.upvotes.contains(who));
                    if p@.downvotes.contains(who) && who != caller {
                        let j = p@.downvotes.index_of(who);
                        assert(before.downvotes[j] == who);
                    }
                }
            }
            if p@.has_voted(p@.owner) {
                if p@.upvotes.contains(p@.owner) {
                    let j = p@.upvotes.index_of(p@.owner);
                    if j < before.upvotes.len() {
                        assert(before.upvotes[j] == p@.owner);
                    }
                } else {
                    let j = p@.downvotes.index_of(p@.owner);
                    if j < before.downvotes.len() {
                        assert(before.downvotes[j] == p@.owner);
                    }
                }
            }
        }
        self.proposals.replace(id, p.clone());
        Ok(p)
    }

    /// Votes for proposal `id` on behalf of `caller`. Checks, in order:
    /// membership, not the owner, not voted either way, window still open.
    pub fn upvote_proposal(&mut self, id: u64, caller: Principal, now: u64) -> (r: Result<
        Proposal,
        Error,
    >)
        requires
            old(self).wf(),
        ensures
            final(self).wf(),
            match vote_refusal(old(self)@, id, caller, now) {
                Some(k) => fails_with(r, k) && final(self)@ == old(self)@,
                None => {
                    let before = old(self)@.proposal(id);
                    &&& r matches Ok(p)
                    &&& p@ == (ProposalView { upvotes: before.upvotes.push(caller), ..before })
                    &&& final(self)@.proposals.map() == old(self)@.proposals.map().insert(id, p@)
                    &&& final(self)@.same_but_proposals(old(self)@)
                },
            },
    {
        self.cast_vote(id, caller, now, true)
    }

    /// Votes against proposal `id` on behalf of `caller`, under the same
    /// checks as an upvote.
    pub fn downvote_proposal(&mut self, id: u64, caller: Principal, now: u64) -> (r: Result<
        Proposal,
        Error,
    >)
        requires
            old(self).wf(),
        ensures
            final(self).wf(),
            match vote_refusal(old(self)@, id, caller, now) {
                Some(k) => fails_with(r, k) && final(self)@ == old(self)@,
                None => {
                    let before = old(self)@.proposal(id);
                    &&& r matches Ok(p)
                    &&& p@ == (ProposalView { downvotes: before.downvotes.push(caller), ..before })
                    &&& final(self)@.proposals.map() == old(self)@.proposals.map().insert(id, p@)
                    &&& final(self)@.same_but_proposals(old(self)@)
                },
            },
    {
        self.cast_vote(id, caller, now, false)
    }

    /// Finalises the vote on proposal `id`: once its window has closed, its
    /// owner sets it approved exactly when more identities voted down than up.
    /// Finalising again recomputes the flag.
    pub fn end_proposal_vote(&mut self, id: u64, caller: Principal, now: u64) -> (r: Result<
        Proposal,
        Error,
    >)
        requires
            old(self).wf(),
        ensures
            final(self).wf(),
            match end_vote_refusal(old(self)@, id, caller, now) {
                Some(k) => fails_with(r, k) && final(self)@ == old(self)@,
                None => {
                    let before = old(self)@.proposal(id);
                    &&& r matches Ok(p)
                    &&& p@ == (ProposalView { is_approved: approval(before), ..before })
                    &&& final(self)@.proposals.map() == old(self)@.proposals.map().insert(id, p@)
                    &&& final(self)@.same_but_proposals(old(self)@)
                },
            },
    {
        let mut p = match self.proposals.get(id) {
            Some(p) => p.clone(),
            None => {
                return Err(Error::new(ErrorKind::NotFound, "proposal not found", id));
            },
        };
        if !(now > p.deadline) {
            return Err(
                Error::new(ErrorKind::DeadlineNotExceeded, "the voting window is still open", id),
            );
        }
        if !same_principal(&p.owner, &caller) {
            return Err(Error::new(ErrorKind::PermissionError, "only the owner may end the vote", id));
        }
        p.is_approved = p.downvotes.len() > p.upvotes.len();
        self.proposals.replace(id, p.clone());
        Ok(p)
    }

    /// Deletes proposal `id` once its window has closed. Only its owner may.
    /// The organization stops listing it and its comments are deleted too.
    pub fn delete_proposal(&mut self, id: u64, caller: Principal, now: u64) -> (r: Result<
        Proposal,
        Error,
    >)
        requires
            old(self).wf(),
        ensures
            final(self).wf(),
            !old(self)@.has_proposal(id) ==> fails_with(r, ErrorKind::NotFound) && final(self)@
                == old(self)@,
            old(self)@.has_proposal(id) && old(self)@.proposal(id).owner != caller ==> fails_with(
                r,
                ErrorKind::PermissionError,
            ) && final(self)@ == old(self)@,
            old(self)@.has_proposal(id) && old(self)@.proposal(id).owner == caller
                && !old(self)@.proposal(id).is_closed(now) ==> fails_with(
                r,
                ErrorKind::DeadlineExceeded,
            ) && final(self)@ == old(self)@,
            old(self)@.has_proposal(id) && old(self)@.proposal(id).owner == caller
                && old(self)@.proposal(id).is_closed(now) ==> {
                &&& r matches Ok(p)
                &&& p@ == old(self)@.proposal(id)
                &&& proposal_deleted(old(self)@, final(self)@, id)
            },
    {
        let allowed = match self.proposals.get(id) {
            Some(p) => {
                if !same_principal(&p.owner, &caller) {
                    return Err(
                        Error::new(ErrorKind::PermissionError, "only the owner may delete the proposal", id),
                    );
                }
                now > p.deadline
            },
            None => {
                return Err(Error::new(ErrorKind::NotFound, "proposal not found", id));
            },
        };
        if !allowed {
            return Err(Error::new(ErrorKind::DeadlineExceeded, "the voting window is still open", id));
        }
        let ghost pre = self@;
        let p = self.proposals.remove(id).unwrap();
        let org_id = p.organization_id;
        let found = match self.organizations.get(org_id) {
            Some(o) => {
                let mut org = o.clone();
                org.proposals = without_id(&org.proposals, id);
                Some(org)
            },
            None => None,
        };
        match found {
            Some(org) => {
                self.organizations.replace(org_id, org);
            },
            None => {},
        }
        let ghost mid = self@;
        proof {
            let oid = pre.proposal(id).organization_id;
            assert forall|o: u64, j: int|
                mid.organizations.map().contains_key(o) && 0 <= j
                    < mid.organizations.map()[o].proposals.len() implies {
                let k = #[trigger] mid.organizations.map()[o].proposals[j];
                &&& mid.proposals.map().contains_key(k)
                &&& mid.proposals.map()[k].organization_id == o
            } by {
                let k = mid.organizations.map()[o].proposals[j];
                if o == oid {
                    let kept = pre.organization(o).proposals.filter(other_than(id));
                    assert(kept.contains(k));
                    pre.organization(o).proposals.lemma_filter_contains_rev(other_than(id), k);
                    let i = pre.organization(o).proposals.index_of(k);
                    assert(pre.organizations.map()[o].proposals[i] == k);
                } else {
                    assert(pre.organizations.map()[o].proposals[j] == k);
                }
            }
            assert forall|k: u64| #[trigger] mid.proposals.map().contains_key(k) implies {
                let o = mid.proposals.map()[k].organization_id;
                &&& mid.organizations.map().contains_key(o)
                &&& mid.organizations.map()[o].proposals.contains(k)
            } by {
                let o = pre.proposals.map()[k].organization_id;
                if o == oid {
                    let i = pre.organization(o).proposals.index_of(k);
                    pre.organization(o).proposals.lemma_filter_contains(other_than(id), i);
                }
            }
        }
        let ghost listed = p@.comments;
        let mut i: usize = 0;
        while i < p.comments.len()
            invariant
                self.wf(),
                listed == p@.comments,
                i <= listed.len(),
                self@.organizations == mid.organizations,
                self@.proposals == mid.proposals,
                self@.comments.map() == pre.comments.map().remove_keys(
                    listed.subrange(0, i as int).to_set(),
                ),
                self@.next_id == pre.next_id,
            decreases listed.len() - i,
        {
            let cid = p.comments[i];
            self.comments.remove(cid);
            proof {
                assert(listed.subrange(0, i + 1).to_set() =~= listed.subrange(
                    0,
                    i as int,
                ).to_set().insert(cid)) by {
                    assert(listed.subrange(0, i + 1) =~= listed.subrange(0, i as int).push(cid));
                    listed.subrange(0, i as int).lemma_push_to_set_commute(cid);
                }
                assert(self@.comments.map() =~= pre.comments.map().remove_keys(
                    listed.subrange(0, i + 1).to_set(),
                ));
            }
            i = i + 1;
        }
        assert(listed.subrange(0, listed.len() as int) =~= listed);
        Ok(p)
    }
}

} // verus!
