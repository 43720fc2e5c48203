//! The organization registry: creating, reading, editing and deleting
//! organizations, and admitting members.

use crate::error::{fails_with, Error, ErrorKind};
use crate::identity::{contains_principal, same_principal};
use crate::records::{organization_views, Organization, OrganizationPayload, OrganizationView};
use crate::store::{Store, StoreView};
use candid::Principal;
use vstd::prelude::*;

verus! {

/// Selects the organizations that `who` owns or belongs to.
pub open spec fn membership_of(who: Principal) -> spec_fn(OrganizationView) -> bool {
    |o: OrganizationView| o.has_member(who)
}

/// `post` is `pre` after organization `id` was deleted: the organization and
/// every proposal it lists are gone; comments are left as they were.
pub open spec fn organization_deleted(pre: StoreView, post: StoreView, id: u64) -> bool {
    &&& post.organizations.map() == pre.organizations.map().remove(id)
    &&& post.proposals.map() == pre.proposals.map().remove_keys(
        pre.organization(id).proposals.to_set(),
    )
    &&& post.comments == pre.comments
    &&& post.next_id == pre.next_id
}

impl Store {
    /// Creates an organization owned by `caller`, with no members and no
    /// proposals, under the next identifier.
    pub fn create_organization(
        &mut self,
        payload: OrganizationPayload,
        caller: Principal,
        now: u64,
    ) -> (r: Organization)
        requires
            old(self).wf(),
            old(self)@.next_id < u64::MAX,
        ensures
            final(self).wf(),
            r@ == (OrganizationView {
                id: old(self)@.next_id,
                name: payload.name@,
                description: payload.description@,
                avatar: payload.avatar@,
                owner: caller,
                members: Seq::empty(),
                proposals: Seq::empty(),
                created_at: now,
                updated_at: None,
            }),
            final(self)@.next_id == old(self)@.next_id + 1,
            final(self)@.organizations.map() == old(self)@.organizations.map().insert(r.id, r@),
            final(self)@.proposals == old(self)@.proposals,
            final(self)@.comments == old(self)@.comments,
    {
        let id = self.fresh_id();
        let org = Organization {
            id,
            name: payload.name,
            description: payload.description,
            avatar: payload.avatar,
            owner: caller,
            members: Vec::new(),
            proposals: Vec::new(),
            created_at: now,
            updated_at: None,
        };
        assert(org@.members =~= Seq::<Principal>::empty());
        assert(org@.proposals =~= Seq::<u64>::empty());
        self.organizations.push(id, org.clone());
        org
    }

    /// The organization `id`, for its owner and members.
    pub fn get_organization(&self, id: u64, caller: Principal) -> (r: Result<Organization, Error>)
        requires
            self.wf(),
        ensures
            !self@.has_organization(id) ==> fails_with(r, ErrorKind::NotFound),
            self@.has_organization(id) && !self@.is_member(id, caller) ==> fails_with(
                r,
                ErrorKind::NotAMember,
            ),
            self@.is_member(id, caller) ==> (r matches Ok(o) && o@ == self@.organization(id)),
    {
        match self.organizations.get(id) {
            Some(org) => {
                if same_principal(&org.owner, &caller) || contains_principal(&org.members, &caller) {
                    Ok(org.clone())
                } else {
                    Err(Error::new(ErrorKind::NotAMember, "not a member of the organization", id))
                }
            },
            None => Err(Error::new(ErrorKind::NotFound, "organization not found", id)),
        }
    }

    /// The organizations that `caller` owns or belongs to, in id order. Fails
    /// with `NotFound` when the registry holds no organization at all.
    pub fn list_my_organizations(&self, caller: Principal) -> (r: Result<Vec<Organization>, Error>)
        requires
            self.wf(),
        ensures
            self@.organizations.keys.len() == 0 ==> fails_with(r, ErrorKind::NotFound),
            self@.organizations.keys.len() > 0 ==> (r matches Ok(v) && organization_views(v@)
                == self@.organizations.rows.filter(membership_of(caller))),
    {
        let n = self.organizations.len();
        if n == 0 {
            return Err(Error::new(ErrorKind::NotFound, "no organization exists yet", 0));
        }
        let ghost rows = self@.organizations.rows;
        let mut out: Vec<Organization> = Vec::new();
        let mut i: usize = 0;
        while i < n
            invariant
                self.wf(),
                rows == self@.organizations.rows,
                n == rows.len(),
                i <= n,
                organization_views(out@) == rows.subrange(0, i as int).filter(membership_of(caller)),
            decreases n - i,
        {
            let org = self.organizations.at(i);
            proof {
                assert(rows.subrange(0, i + 1) =~= rows.subrange(0, i as int).push(rows[i as int]));
                rows.subrange(0, i as int).lemma_filter_push(rows[i as int], membership_of(caller));
            }
            if same_principal(&org.owner, &caller) || contains_principal(&org.members, &caller) {
                let copy = org.clone();
                out.push(copy);
                assert(organization_views(out@) =~= rows.subrange(0, i + 1).filter(membership_of(caller)));
            }
            i = i + 1;
        }
        assert(rows.subrange(0, n as int) =~= rows);
        Ok(out)
    }

    /// Replaces the name, description and avatar of organization `id` and
    /// stamps it as updated at `now`. Only its owner may do so.
    pub fn update_organization(
        &mut self,
        id: u64,
        payload: OrganizationPayload,
        caller: Principal,
        now: u64,
    ) -> (r: Result<Organization, Error>)
        requires
            old(self).wf(),
        ensures
            final(self).wf(),
            !old(self)@.has_organization(id) ==> fails_with(r, ErrorKind::NotFound) && final(self)@
                == old(self)@,
            old(self)@.has_organization(id) && old(self)@.organization(id).owner != caller
                ==> fails_with(r, ErrorKind::PermissionError) && final(self)@ == old(self)@,
            old(self)@.has_organization(id) && old(self)@.organization(id).owner == caller ==> {
                &&& r matches Ok(o)
                &&& o@ == (OrganizationView {
                    name: payload.name@,
                    description: payload.description@,
                    avatar: payload.avatar@,
                    updated_at: Some(now),
                    ..old(self)@.organization(id)
                })
                &&& final(self)@.organizations.map() == old(self)@.organizations.map().insert(id, o@)
                &&& final(self)@.same_but_organizations(old(self)@)
            },
    {
        let mut org = match self.organizations.get(id) {
            Some(o) => o.clone(),
            None => {
                return Err(Error::new(ErrorKind::NotFound, "organization not found", id));
            },
        };
        if !same_principal(&org.owner, &caller) {
            return Err(
                Error::new(ErrorKind::PermissionError, "only the owner may update the organization", id),
            );
        }
        org.name = payload.name;
        org.description = payload.description;
        org.avatar = payload.avatar;
        org.updated_at = Some(now);
        self.organizations.replace(id, org.clone());
        Ok(org)
    }

    /// Admits `member` to organization `id`, unless already listed, and
    /// stamps it as updated at `now`. Only its owner may do so.
    pub fn add_organization_member(
        &mut self,
        id: u64,
        member: Principal,
        caller: Principal,
        now: u64,
    ) -> (r: Result<Organization, Error>)
        requires
            old(self).wf(),
        ensures
            final(self).wf(),
            !old(self)@.has_organization(id) ==> fails_with(r, ErrorKind::NotFound) && final(self)@
                == old(self)@,
            old(self)@.has_organization(id) && old(self)@.organization(id).owner != caller
                ==> fails_with(r, ErrorKind::PermissionError) && final(self)@ == old(self)@,
            old(self)@.has_organization(id) && old(self)@.organization(id).owner == caller ==> {
                let before = old(self)@.organization(id);
                &&& r matches Ok(o)
                &&& o@ == (OrganizationView {
                    members: if before.members.contains(member) {
                        before.members
                    } else {
                        before.members.push(member)
                    },
                    updated_at: Some(now),
                    ..before
                })
                &&& final(self)@.organizations.map() == old(self)@.organizations.map().insert(id, o@)
                &&& final(self)@.same_but_organizations(old(self)@)
            },
    {
        let mut org = match self.organizations.get(id) {
            Some(o) => o.clone(),
            None => {
                return Err(Error::new(ErrorKind::NotFound, "organization not found", id));
            },
        };
        if !same_principal(&org.owner, &caller) {
            return Err(
                Error::new(ErrorKind::PermissionError, "only the owner may admit members", id),
            );
        }
        if !contains_principal(&org.members, &member) {
            org.members.push(member);
        }
        org.updated_at = Some(now);
        self.organizations.replace(id, org.clone());
        Ok(org)
    }

    /// Deletes organization `id` and every proposal that it lists. Only its
    /// owner may do so. Comments on those proposals stay in the store.
    pub fn delete_organization(&mut self, id: u64, caller: Principal) -> (r: Result<
        Organization,
        Error,
    >)
        requires
            old(self).wf(),
        ensures
            final(self).wf(),
            !old(self)@.has_organization(id) ==> fails_with(r, ErrorKind::NotFound) && final(self)@
                == old(self)@,
            old(self)@.has_organization(id) && old(self)@.organization(id).owner != caller
                ==> fails_with(r, ErrorKind::PermissionError) && final(self)@ == old(self)@,
            old(self)@.has_organization(id) && old(self)@.organization(id).owner == caller ==> {
                &&& r matches Ok(o)
                &&& o@ == old(self)@.organization(id)
                &&& organization_deleted(old(self)@, final(self)@, id)
            },
    {
        let is_owner = match self.organizations.get(id) {
            Some(o) => same_principal(&o.owner, &caller),
            None => {
                return Err(Error::new(ErrorKind::NotFound, "organization not found", id));
            },
        };
        if !is_owner {
            return Err(
                Error::new(ErrorKind::PermissionError, "only the owner may delete the organization", id),
            );
        }
        let ghost pre = self@;
        let org = self.organizations.remove(id).unwrap();
        let ghost listed = org@.proposals;
        let mut i: usize = 0;
        while i < org.proposals.len()
            invariant
                self@.tables_wf(),
                pre.wf(),
                pre.has_organization(id),
                listed == org@.proposals,
                listed == pre.organization(id).proposals,
                i <= listed.len(),
                self@.organizations.map() == pre.organizations.map().remove(id),
                self@.proposals.map() == pre.proposals.map().remove_keys(
                    listed.subrange(0, i as int).to_set(),
                ),
                self@.comments == pre.comments,
                self@.next_id == pre.next_id,
            decreases listed.len() - i,
        {
            let pid = org.proposals[i];
            let ghost before = self@.proposals.map();
            self.proposals.remove(pid);
            proof {
                assert(listed.subrange(0, i + 1).to_set() =~= listed.subrange(0, i as int).to_set().insert(pid)) by {
                    assert(listed.subrange(0, i + 1) =~= listed.subrange(0, i as int).push(pid));
                    listed.subrange(0, i as int).lemma_push_to_set_commute(pid);
                }
                assert(self@.proposals.map() =~= pre.proposals.map().remove_keys(
                    listed.subrange(0, i + 1).to_set(),
                ));
            }
            i = i + 1;
        }
        assert(listed.subrange(0, listed.len() as int) =~= listed);
        proof {
            let post = self@;
            assert forall|o: u64, j: int|
                post.organizations.map().contains_key(o) && 0 <= j
                    < post.organizations.map()[o].proposals.len() implies {
                let k = #[trigger] post.organizations.map()[o].proposals[j];
                &&& post.proposals.map().contains_key(k)
                &&& post.proposals.map()[k].organization_id == o
            } by {
                let k = post.organizations.map()[o].proposals[j];
                assert(pre.organizations.map()[o].proposals[j] == k);
                if listed.to_set().contains(k) {
                    let i = choose|i: int| 0 <= i < listed.len() && listed[i] == k;
                    assert(pre.organizations.map()[id].proposals[i] == k);
                }
            }
        }
        Ok(org)
    }
}

} // verus!
