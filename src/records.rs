//! The three kinds of entity and the payloads that create or edit them.

use crate::identity::copy_all;
use candid::Principal;
use vstd::prelude::*;

verus! {

/// Length of a proposal's voting window: seven days, in nanoseconds.
pub const VOTING_WINDOW: u64 = 604_800_000_000_000;

pub struct Organization {
    pub id: u64,
    pub name: String,
    pub description: String,
    pub avatar: String,
    pub owner: Principal,
    pub members: Vec<Principal>,
    pub proposals: Vec<u64>,
    pub created_at: u64,
    pub updated_at: Option<u64>,
}

pub struct OrganizationView {
    pub id: u64,
    pub name: Seq<char>,
    pub description: Seq<char>,
    pub avatar: Seq<char>,
    pub owner: Principal,
    pub members: Seq<Principal>,
    pub proposals: Seq<u64>,
    pub created_at: u64,
    pub updated_at: Option<u64>,
}

impl OrganizationView {
    /// `who` owns the organization or is one of its listed members.
    pub open spec fn has_member(self, who: Principal) -> bool {
        self.owner == who || self.members.contains(who)
    }
}

impl View for Organization {
    type V = OrganizationView;

    open spec fn view(&self) -> OrganizationView {
        OrganizationView {
            id: self.id,
            name: self.name@,
            description: self.description@,
            avatar: self.avatar@,
            owner: self.owner,
            members: self.members@,
            proposals: self.proposals@,
            created_at: self.created_at,
            updated_at: self.updated_at,
        }
    }
}

impl Clone for Organization {
    fn clone(&self) -> (r: Self)
        ensures
            r@ == self@,
    {
        Organization {
            id: self.id,
            name: self.name.clone(),
            description: self.description.clone(),
            avatar: self.avatar.clone(),
            owner: self.owner,
            members: copy_all(&self.members),
            proposals: copy_all(&self.proposals),
            created_at: self.created_at,
            updated_at: self.updated_at,
        }
    }
}

pub struct Proposal {
    pub id: u64,
    pub organization_id: u64,
    pub title: String,
    pub details: String,
    pub amount_requested: u64,
    pub owner: Principal,
    pub upvotes: Vec<Principal>,
    pub downvotes: Vec<Principal>,
    pub is_approved: bool,
    pub created_at: u64,
    pub deadline: u64,
    pub updated_at: Option<u64>,
    pub comments: Vec<u64>,
}

pub struct ProposalView {
    pub id: u64,
    pub organization_id: u64,
    pub title: Seq<char>,
    pub details: Seq<char>,
    pub amount_requested: u64,
    pub owner: Principal,
    pub upvotes: Seq<Principal>,
    pub downvotes: Seq<Principal>,
    pub is_approved: bool,
    pub created_at: u64,
    pub deadline: u64,
    pub updated_at: Option<u64>,
    pub comments: Seq<u64>,
}

impl ProposalView {
    /// `who` has voted on the proposal, either way.
    pub open spec fn has_voted(self, who: Principal) -> bool {
        self.upvotes.contains(who) || self.downvotes.contains(who)
    }

    /// Each voter votes once and one way only, and the owner never votes.
    pub open spec fn votes_wf(self) -> bool {
        &&& self.upvotes.no_duplicates()
        &&& self.downvotes.no_duplicates()
        &&& forall|who: Principal| #[trigger]
            self.upvotes.contains(who) ==> !self.downvotes.contains(who)
        &&& !self.has_voted(self.owner)
    }

    /// The voting window has closed at time `now`.
    pub open spec fn is_closed(self, now: u64) -> bool {
        now > self.deadline
    }
}

impl View for Proposal {
    type V = ProposalView;

    open spec fn view(&self) -> ProposalView {
        ProposalView {
            id: self.id,
            organization_id: self.organization_id,
            title: self.title@,
            details: self.details@,
            amount_requested: self.amount_requested,
            owner: self.owner,
            upvotes: self.upvotes@,
            downvotes: self.downvotes@,
            is_approved: self.is_approved,
            created_at: self.created_at,
            deadline: self.deadline,
            updated_at: self.updated_at,
            comments: self.comments@,
        }
    }
}

impl Clone for Proposal {
    fn clone(&self) -> (r: Self)
        ensures
            r@ == self@,
    {
        Proposal {
            id: self.id,
            organization_id: self.organization_id,
            title: self.title.clone(),
            details: self.details.clone(),
            amount_requested: self.amount_requested,
            owner: self.owner,
            upvotes: copy_all(&self.upvotes),
            downvotes: copy_all(&self.downvotes),
            is_approved: self.is_approved,
            created_at: self.created_at,
            deadline: self.deadline,
            updated_at: self.updated_at,
            comments: copy_all(&self.comments),
        }
    }
}

pub struct Comment {
    pub id: u64,
    pub proposal_id: u64,
    pub content: String,
    pub author: Principal,
    pub likes: Vec<Principal>,
    pub created_at: u64,
    pub updated_at: Option<u64>,
}

pub struct CommentView {
    pub id: u64,
    pub proposal_id: u64,
    pub content: Seq<char>,
    pub author: Principal,
    pub likes: Seq<Principal>,
    pub created_at: u64,
    pub updated_at: Option<u64>,
}

impl CommentView {
    /// Each identity likes once, and the author never does.
    pub open spec fn likes_wf(self) -> bool {
        self.likes.no_duplicates() && !self.likes.contains(self.author)
    }
}

impl View for Comment {
    type V = CommentView;

    open spec fn view(&self) -> CommentView {
        CommentView {
            id: self.id,
            proposal_id: self.proposal_id,
            content: self.content@,
            author: self.author,
            likes: self.likes@,
            created_at: self.created_at,
            updated_at: self.updated_at,
        }
    }
}

impl Clone for Comment {
    fn clone(&self) -> (r: Self)
        ensures
            r@ == self@,
    {
        Comment {
            id: self.id,
            proposal_id: self.proposal_id,
            content: self.content.clone(),
            author: self.author,
            likes: copy_all(&self.likes),
            created_at: self.created_at,
            updated_at: self.updated_at,
        }
    }
}

pub open spec fn organization_views(v: Seq<Organization>) -> Seq<OrganizationView> {
    v.map_values(|o: Organization| o@)
}

pub open spec fn proposal_views(v: Seq<Proposal>) -> Seq<ProposalView> {
    v.map_values(|p: Proposal| p@)
}

pub open spec fn comment_views(v: Seq<Comment>) -> Seq<CommentView> {
    v.map_values(|c: Comment| c@)
}

/// Selects the ids other than `x`.
pub open spec fn other_than(x: u64) -> spec_fn(u64) -> bool {
    |y: u64| y != x
}

/// `ids` without any occurrence of `x`, in the same order.
pub fn without_id(ids: &Vec<u64>, x: u64) -> (r: Vec<u64>)
    ensures
        r@ == ids@.filter(other_than(x)),
{
    let mut r: Vec<u64> = Vec::new();
    let mut i: usize = 0;
    while i < ids.len()
        invariant
            i <= ids@.len(),
            r@ == ids@.subrange(0, i as int).filter(other_than(x)),
        decreases ids@.len() - i,
    {
        proof {
            assert(ids@.subrange(0, i + 1) =~= ids@.subrange(0, i as int).push(ids@[i as int]));
            ids@.subrange(0, i as int).lemma_filter_push(ids@[i as int], other_than(x));
        }
        if ids[i] != x {
            r.push(ids[i]);
        }
        i = i + 1;
    }
    assert(ids@.subrange(0, ids@.len() as int) =~= ids@);
    r
}

/// The editable fields of an organization.
pub struct OrganizationPayload {
    pub name: String,
    pub description: String,
    pub avatar: String,
}

/// A new proposal, or the new editable fields of one.
pub struct ProposalPayload {
    pub title: String,
    pub details: String,
    pub amount_requested: u64,
    pub organization_id: u64,
}

/// A new comment, or the new content of one.
pub struct CommentPayload {
    pub content: String,
    pub proposal_id: u64,
}

} // verus!
