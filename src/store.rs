//! The store: three tables and the identifier counter that they share.

use crate::identity::contains_principal;
use crate::records::{Comment, CommentView, Organization, OrganizationView, Proposal, ProposalView};
use crate::table::{Table, TableView};
use candid::Principal;
use vstd::prelude::*;

pub mod organizations;
pub mod proposals;
pub mod comments;

verus! {

/// The abstract state: the next identifier to hand out and the three tables,
/// each kept in increasing id order.
pub struct StoreView {
    pub next_id: u64,
    pub organizations: TableView<OrganizationView>,
    pub proposals: TableView<ProposalView>,
    pub comments: TableView<CommentView>,
}

impl StoreView {
    pub open spec fn wf(self) -> bool {
        self.tables_wf() && self.links_wf()
    }

    /// Each table is well-formed and keyed by its records' ids, every id lies
    /// below the counter, votes are exclusive and likes are unique.
    pub open spec fn tables_wf(self) -> bool {
        &&& self.organizations.wf()
        &&& self.proposals.wf()
        &&& self.comments.wf()
        &&& self.organizations.keys_below(self.next_id)
        &&& self.proposals.keys_below(self.next_id)
        &&& self.comments.keys_below(self.next_id)
        &&& forall|k: u64| #[trigger]
            self.organizations.map().contains_key(k) ==> self.organizations.map()[k].id == k
        &&& forall|k: u64| #[trigger]
            self.proposals.map().contains_key(k) ==> {
                &&& self.proposals.map()[k].id == k
                &&& self.proposals.map()[k].votes_wf()
            }
        &&& forall|k: u64| #[trigger]
            self.comments.map().contains_key(k) ==> {
                &&& self.comments.map()[k].id == k
                &&& self.comments.map()[k].likes_wf()
            }
    }

    /// Every proposal that an organization lists exists and belongs to it,
    /// and every proposal is listed by its organization.
    pub open spec fn links_wf(self) -> bool {
        &&& forall|o: u64, j: int|
            self.organizations.map().contains_key(o) && 0 <= j
                < self.organizations.map()[o].proposals.len() ==> {
                let k = #[trigger] self.organizations.map()[o].proposals[j];
                &&& self.proposals.map().contains_key(k)
                &&& self.proposals.map()[k].organization_id == o
            }
        &&& forall|k: u64| #[trigger]
            self.proposals.map().contains_key(k) ==> {
                let o = self.proposals.map()[k].organization_id;
                &&& self.organizations.map().contains_key(o)
                &&& self.organizations.map()[o].proposals.contains(k)
            }
    }

    pub open spec fn has_organization(self, id: u64) -> bool {
        self.organizations.map().contains_key(id)
    }

    pub open spec fn organization(self, id: u64) -> OrganizationView {
        self.organizations.map()[id]
    }

    pub open spec fn has_proposal(self, id: u64) -> bool {
        self.proposals.map().contains_key(id)
    }

    pub open spec fn proposal(self, id: u64) -> ProposalView {
        self.proposals.map()[id]
    }

    pub open spec fn has_comment(self, id: u64) -> bool {
        self.comments.map().contains_key(id)
    }

    pub open spec fn comment(self, id: u64) -> CommentView {
        self.comments.map()[id]
    }

    /// Only the organization table may differ between `self` and `other`.
    pub open spec fn same_but_organizations(self, other: StoreView) -> bool {
        self.next_id == other.next_id && self.proposals == other.proposals && self.comments
            == other.comments
    }

    /// Only the proposal table may differ between `self` and `other`.
    pub open spec fn same_but_proposals(self, other: StoreView) -> bool {
        self.next_id == other.next_id && self.organizations == other.organizations
            && self.comments == other.comments
    }

    /// Only the comment table may differ between `self` and `other`.
    pub open spec fn same_but_comments(self, other: StoreView) -> bool {
        self.next_id == other.next_id && self.organizations == other.organizations
            && self.proposals == other.proposals
    }

    /// The organization exists and `who` is its owner or a listed member.
    pub open spec fn is_member(self, org_id: u64, who: Principal) -> bool {
        self.has_organization(org_id) && self.organization(org_id).has_member(who)
    }
}

pub struct Store {
    next_id: u64,
    organizations: Table<Organization>,
    proposals: Table<Proposal>,
    comments: Table<Comment>,
}

impl View for Store {
    type V = StoreView;

    closed spec fn view(&self) -> StoreView {
        StoreView {
            next_id: self.next_id,
            organizations: self.organizations@,
            proposals: self.proposals@,
            comments: self.comments@,
        }
    }
}

impl Store {
    pub open spec fn wf(&self) -> bool {
        self@.wf()
    }

    /// An empty store whose first identifier is zero.
    pub fn new() -> (r: Store)
        ensures
            r.wf(),
            r@.next_id == 0,
            r@.organizations.map() == Map::<u64, OrganizationView>::empty(),
            r@.proposals.map() == Map::<u64, ProposalView>::empty(),
            r@.comments.map() == Map::<u64, CommentView>::empty(),
    {
        Store {
            next_id: 0,
            organizations: Table::new(),
            proposals: Table::new(),
            comments: Table::new(),
        }
    }

    /// The identifier that the next created entity will get.
    pub fn next_id(&self) -> (r: u64)
        ensures
            r == self@.next_id,
    {
        self.next_id
    }

    /// Hands out the next identifier, shared by all three kinds of entity.
    pub(crate) fn fresh_id(&mut self) -> (r: u64)
        requires
            old(self).wf(),
            old(self)@.next_id < u64::MAX,
        ensures
            final(self).wf(),
            r == old(self)@.next_id,
            final(self)@ == (StoreView { next_id: (r + 1) as u64, ..old(self)@ }),
    {
        let id = self.next_id;
        self.next_id = id + 1;
        id
    }

    /// Whether the organization exists and `who` is its owner or a listed member.
    pub fn is_member(&self, org_id: u64, who: Principal) -> (r: bool)
        requires
            self.wf(),
        ensures
            r == self@.is_member(org_id, who),
    {
        match self.organizations.get(org_id) {
            Some(org) => {
                crate::identity::same_principal(&org.owner, &who) || contains_principal(
                    &org.members,
                    &who,
                )
            },
            None => false,
        }
    }
}

} // verus!
