use candid::Principal;
use dao_governance::error::ErrorKind;
use dao_governance::records::{
    CommentPayload, OrganizationPayload, ProposalPayload, VOTING_WINDOW,
};
use dao_governance::store::Store;

fn who(tag: u8) -> Principal {
    Principal::from_slice(&[tag, 7, 7])
}

fn org_payload(name: &str) -> OrganizationPayload {
    OrganizationPayload {
        name: name.to_string(),
        description: "a test organization".to_string(),
        avatar: "avatar.png".to_string(),
    }
}

fn proposal_payload(org_id: u64, amount: u64) -> ProposalPayload {
    ProposalPayload {
        title: "new roof".to_string(),
        details: "replace the roof".to_string(),
        amount_requested: amount,
        organization_id: org_id,
    }
}

fn comment_payload(proposal_id: u64, text: &str) -> CommentPayload {
    CommentPayload { content: text.to_string(), proposal_id }
}

const T0: u64 = 1_000;

/// An organization owned by A with member B, and a proposal by B in it.
fn setup() -> (Store, u64, u64) {
    let mut s = Store::new();
    let org = s.create_organization(org_payload("o"), who(1), T0);
    s.add_organization_member(org.id, who(2), who(1), T0).unwrap();
    let p = s.create_proposal(proposal_payload(org.id, 100), who(2), T0).unwrap();
    (s, org.id, p.id)
}

fn kind<T>(r: Result<T, dao_governance::error::Error>) -> ErrorKind {
    match r {
        Ok(_) => panic!("expected an error"),
        Err(e) => e.kind(),
    }
}

#[test]
fn scenario_owner_member_vote_and_finalise() {
    let (mut s, org_id, pid) = setup();
    let p = s.get_proposal(pid, who(1)).unwrap();
    assert_eq!(p.amount_requested, 100);
    assert_eq!(p.organization_id, org_id);
    let p = s.upvote_proposal(pid, who(1), T0 + 5).unwrap();
    assert_eq!(p.upvotes, vec![who(1)]);
    assert_eq!(kind(s.upvote_proposal(pid, who(2), T0 + 6)), ErrorKind::CantVoteYours);
    let after = T0 + VOTING_WINDOW + 1;
    assert_eq!(kind(s.end_proposal_vote(pid, who(1), after)), ErrorKind::PermissionError);
    let done = s.end_proposal_vote(pid, who(2), after).unwrap();
    // one upvote, no downvote: more downvotes than upvotes is false
    assert!(!done.is_approved);
}

#[test]
fn approval_follows_downvote_count() {
    let (mut s, org_id, pid) = setup();
    s.add_organization_member(org_id, who(3), who(1), T0).unwrap();
    s.downvote_proposal(pid, who(1), T0).unwrap();
    s.downvote_proposal(pid, who(3), T0).unwrap();
    let done = s.end_proposal_vote(pid, who(2), T0 + VOTING_WINDOW + 1).unwrap();
    assert!(done.is_approved);
    // finalising again recomputes the same flag
    let again = s.end_proposal_vote(pid, who(2), T0 + VOTING_WINDOW + 2).unwrap();
    assert!(again.is_approved);
}

#[test]
fn votes_stay_exclusive() {
    let (mut s, org_id, pid) = setup();
    s.add_organization_member(org_id, who(3), who(1), T0).unwrap();
    s.upvote_proposal(pid, who(1), T0).unwrap();
    assert_eq!(kind(s.downvote_proposal(pid, who(1), T0)), ErrorKind::HasVoted);
    assert_eq!(kind(s.upvote_proposal(pid, who(1), T0)), ErrorKind::HasVoted);
    s.downvote_proposal(pid, who(3), T0).unwrap();
    assert_eq!(kind(s.downvote_proposal(pid, who(2), T0)), ErrorKind::CantVoteYours);
    let p = s.get_proposal(pid, who(1)).unwrap();
    assert_eq!(p.upvotes, vec![who(1)]);
    assert_eq!(p.downvotes, vec![who(3)]);
    assert!(!p.upvotes.contains(&p.owner) && !p.downvotes.contains(&p.owner));
}

#[test]
fn vote_at_deadline_succeeds_and_after_fails() {
    let (mut s, org_id, pid) = setup();
    s.add_organization_member(org_id, who(3), who(1), T0).unwrap();
    let deadline = s.get_proposal(pid, who(1)).unwrap().deadline;
    assert_eq!(deadline, T0 + VOTING_WINDOW);
    assert_eq!(
        kind(s.upvote_proposal(pid, who(1), deadline + 1)),
        ErrorKind::DeadlineExceeded
    );
    assert!(s.upvote_proposal(pid, who(1), deadline).is_ok());
    assert_eq!(
        kind(s.downvote_proposal(pid, who(3), deadline + 1)),
        ErrorKind::DeadlineExceeded
    );
}

#[test]
fn vote_by_non_member_is_refused_first() {
    let (mut s, _org_id, pid) = setup();
    assert_eq!(kind(s.upvote_proposal(pid, who(9), T0)), ErrorKind::NotAMember);
    assert_eq!(kind(s.upvote_proposal(pid + 100, who(1), T0)), ErrorKind::NotFound);
}

#[test]
fn end_vote_before_deadline_is_refused() {
    let (mut s, _org_id, pid) = setup();
    assert_eq!(kind(s.end_proposal_vote(pid, who(2), T0)), ErrorKind::DeadlineNotExceeded);
    assert_eq!(
        kind(s.end_proposal_vote(pid, who(2), T0 + VOTING_WINDOW)),
        ErrorKind::DeadlineNotExceeded
    );
    assert_eq!(kind(s.end_proposal_vote(pid, who(1), T0)), ErrorKind::DeadlineNotExceeded);
}

#[test]
fn deleting_organization_deletes_its_proposals() {
    let (mut s, org_id, pid) = setup();
    let other = s.create_proposal(proposal_payload(org_id, 5), who(1), T0).unwrap();
    assert_eq!(kind(s.delete_organization(org_id, who(2))), ErrorKind::PermissionError);
    assert!(s.get_proposal(pid, who(1)).is_ok());
    let gone = s.delete_organization(org_id, who(1)).unwrap();
    assert_eq!(gone.proposals, vec![pid, other.id]);
    assert_eq!(kind(s.get_proposal(pid, who(1))), ErrorKind::NotFound);
    assert_eq!(kind(s.get_proposal(other.id, who(2))), ErrorKind::NotFound);
    assert_eq!(kind(s.get_organization(org_id, who(1))), ErrorKind::NotFound);
}

#[test]
fn deleting_proposal_deletes_its_comments() {
    let (mut s, org_id, pid) = setup();
    let keep = s.create_proposal(proposal_payload(org_id, 1), who(1), T0).unwrap();
    let c1 = s.create_comment(comment_payload(pid, "first"), who(1), T0).unwrap();
    let c2 = s.create_comment(comment_payload(pid, "second"), who(2), T0).unwrap();
    let c3 = s.create_comment(comment_payload(keep.id, "elsewhere"), who(2), T0).unwrap();
    assert_eq!(s.get_proposal(pid, who(1)).unwrap().comments, vec![c1.id, c2.id]);
    let listed = s.list_comments(pid, org_id, who(1)).unwrap();
    assert_eq!(listed.len(), 2);
    assert_eq!(
        kind(s.delete_proposal(pid, who(2), T0 + 1)),
        ErrorKind::DeadlineExceeded
    );
    assert_eq!(
        kind(s.delete_proposal(pid, who(1), T0 + VOTING_WINDOW + 1)),
        ErrorKind::PermissionError
    );
    let gone = s.delete_proposal(pid, who(2), T0 + VOTING_WINDOW + 1).unwrap();
    assert_eq!(gone.id, pid);
    let listed = s.list_comments(pid, org_id, who(1)).unwrap();
    assert!(listed.is_empty());
    let rest = s.list_comments(keep.id, org_id, who(1)).unwrap();
    assert_eq!(rest.len(), 1);
    assert_eq!(rest[0].id, c3.id);
    assert_eq!(s.get_organization(org_id, who(1)).unwrap().proposals, vec![keep.id]);
    assert_eq!(kind(s.get_proposal(pid, who(1))), ErrorKind::NotFound);
    assert_eq!(kind(s.like_comment(c1.id, org_id, who(2))), ErrorKind::NotFound);
    assert_eq!(kind(s.delete_comment(c2.id, who(2))), ErrorKind::NotFound);
}

#[test]
fn deleting_organization_keeps_comments() {
    let (mut s, org_id, pid) = setup();
    let c = s.create_comment(comment_payload(pid, "kept"), who(2), T0).unwrap();
    s.delete_organization(org_id, who(1)).unwrap();
    let other = s.create_organization(org_payload("p"), who(1), T0);
    let listed = s.list_comments(pid, other.id, who(1)).unwrap();
    assert_eq!(listed.len(), 1);
    assert_eq!(listed[0].id, c.id);
}

#[test]
fn like_twice_and_own_like_are_refused() {
    let (mut s, org_id, pid) = setup();
    let c = s.create_comment(comment_payload(pid, "hello"), who(2), T0).unwrap();
    let liked = s.like_comment(c.id, org_id, who(1)).unwrap();
    assert_eq!(liked.likes, vec![who(1)]);
    assert_eq!(kind(s.like_comment(c.id, org_id, who(1))), ErrorKind::HasVoted);
    assert_eq!(kind(s.like_comment(c.id, org_id, who(2))), ErrorKind::CantLikeYours);
    assert_eq!(kind(s.like_comment(c.id, org_id, who(9))), ErrorKind::NotAMember);
    assert_eq!(kind(s.like_comment(c.id + 50, org_id, who(1))), ErrorKind::NotFound);
}

#[test]
fn identifiers_are_shared_across_kinds() {
    let mut s = Store::new();
    assert_eq!(s.next_id(), 0);
    let org = s.create_organization(org_payload("o"), who(1), T0);
    let p = s.create_proposal(proposal_payload(org.id, 3), who(1), T0).unwrap();
    let c = s.create_comment(comment_payload(p.id, "x"), who(1), T0).unwrap();
    assert_eq!((org.id, p.id, c.id), (0, 1, 2));
    assert_eq!(s.next_id(), 3);
}

#[test]
fn organization_created_with_caller_as_owner() {
    let mut s = Store::new();
    let org = s.create_organization(org_payload("guild"), who(4), 77);
    assert_eq!(org.name, "guild");
    assert_eq!(org.owner, who(4));
    assert!(org.members.is_empty() && org.proposals.is_empty());
    assert_eq!(org.created_at, 77);
    assert_eq!(org.updated_at, None);
    assert!(s.is_member(org.id, who(4)));
    assert!(!s.is_member(org.id, who(5)));
    assert!(!s.is_member(org.id + 1, who(4)));
}

#[test]
fn get_organization_distinguishes_absent_and_non_member() {
    let (s, org_id, _pid) = setup();
    assert_eq!(kind(s.get_organization(org_id + 99, who(1))), ErrorKind::NotFound);
    assert_eq!(kind(s.get_organization(org_id, who(8))), ErrorKind::NotAMember);
    assert_eq!(s.get_organization(org_id, who(2)).unwrap().id, org_id);
}

#[test]
fn list_my_organizations_on_empty_and_filled_registry() {
    let mut s = Store::new();
    assert_eq!(kind(s.list_my_organizations(who(1))), ErrorKind::NotFound);
    let a = s.create_organization(org_payload("a"), who(1), T0);
    let b = s.create_organization(org_payload("b"), who(2), T0);
    let _c = s.create_organization(org_payload("c"), who(3), T0);
    s.add_organization_member(b.id, who(1), who(2), T0).unwrap();
    let mine: Vec<u64> = s.list_my_organizations(who(1)).unwrap().iter().map(|o| o.id).collect();
    assert_eq!(mine, vec![a.id, b.id]);
    assert!(s.list_my_organizations(who(9)).unwrap().is_empty());
}

#[test]
fn update_organization_by_owner_only() {
    let (mut s, org_id, _pid) = setup();
    assert_eq!(
        kind(s.update_organization(org_id, org_payload("x"), who(2), T0 + 1)),
        ErrorKind::PermissionError
    );
    let o = s.update_organization(org_id, org_payload("renamed"), who(1), T0 + 2).unwrap();
    assert_eq!(o.name, "renamed");
    assert_eq!(o.updated_at, Some(T0 + 2));
    assert_eq!(o.members, vec![who(2)]);
    assert_eq!(
        kind(s.update_organization(org_id + 40, org_payload("x"), who(1), T0)),
        ErrorKind::NotFound
    );
}

#[test]
fn adding_member_twice_lists_once() {
    let (mut s, org_id, _pid) = setup();
    let o = s.add_organization_member(org_id, who(2), who(1), T0 + 3).unwrap();
    assert_eq!(o.members, vec![who(2)]);
    assert_eq!(
        kind(s.add_organization_member(org_id, who(5), who(2), T0)),
        ErrorKind::PermissionError
    );
}

#[test]
fn create_proposal_requires_membership_and_registers_it() {
    let (mut s, org_id, pid) = setup();
    assert_eq!(
        kind(s.create_proposal(proposal_payload(org_id, 1), who(9), T0)),
        ErrorKind::NotAMember
    );
    assert_eq!(
        kind(s.create_proposal(proposal_payload(org_id + 77, 1), who(1), T0)),
        ErrorKind::NotAMember
    );
    let org = s.get_organization(org_id, who(1)).unwrap();
    assert_eq!(org.proposals, vec![pid]);
    assert_eq!(org.updated_at, Some(T0));
    let p = s.get_proposal(pid, who(2)).unwrap();
    assert_eq!(p.owner, who(2));
    assert!(!p.is_approved);
    assert_eq!(p.created_at, T0);
    assert_eq!(kind(s.get_proposal(pid, who(9))), ErrorKind::NotAMember);
}

#[test]
fn list_proposals_filters_by_organization() {
    let mut s = Store::new();
    assert_eq!(s.create_organization(org_payload("a"), who(1), T0).id, 0);
    assert_eq!(s.create_organization(org_payload("b"), who(1), T0).id, 1);
    assert_eq!(kind(s.list_proposals(0, who(1))), ErrorKind::NotFound);
    let p0 = s.create_proposal(proposal_payload(0, 1), who(1), T0).unwrap();
    let _p1 = s.create_proposal(proposal_payload(1, 2), who(1), T0).unwrap();
    let p2 = s.create_proposal(proposal_payload(0, 3), who(1), T0).unwrap();
    let ids: Vec<u64> = s.list_proposals(0, who(1)).unwrap().iter().map(|p| p.id).collect();
    assert_eq!(ids, vec![p0.id, p2.id]);
    assert_eq!(kind(s.list_proposals(0, who(2))), ErrorKind::NotAMember);
}

#[test]
fn approved_list_keeps_approved_proposals_within_deadline() {
    let (mut s, org_id, pid) = setup();
    s.downvote_proposal(pid, who(1), T0).unwrap();
    assert!(s.list_finalized_approved_proposals(org_id, who(1), T0).unwrap().is_empty());
    let after = T0 + VOTING_WINDOW + 1;
    assert!(s.end_proposal_vote(pid, who(2), after).unwrap().is_approved);
    let open = s.list_finalized_approved_proposals(org_id, who(1), T0 + VOTING_WINDOW).unwrap();
    assert_eq!(open.len(), 1);
    assert_eq!(open[0].id, pid);
    assert!(s.list_finalized_approved_proposals(org_id, who(1), after).unwrap().is_empty());
    assert_eq!(
        kind(s.list_finalized_approved_proposals(org_id, who(9), T0)),
        ErrorKind::NotAMember
    );
}

#[test]
fn update_proposal_only_while_open_by_owner() {
    let (mut s, org_id, pid) = setup();
    assert_eq!(
        kind(s.update_proposal(pid, proposal_payload(org_id, 9), who(1), T0)),
        ErrorKind::PermissionError
    );
    let p = s.update_proposal(pid, proposal_payload(org_id, 250), who(2), T0 + 4).unwrap();
    assert_eq!(p.amount_requested, 250);
    assert_eq!(p.updated_at, Some(T0 + 4));
    assert_eq!(
        kind(s.update_proposal(pid, proposal_payload(org_id, 9), who(2), T0 + VOTING_WINDOW + 1)),
        ErrorKind::DeadlineExceeded
    );
    assert_eq!(
        kind(s.update_proposal(pid + 30, proposal_payload(org_id, 9), who(2), T0)),
        ErrorKind::NotFound
    );
}

#[test]
fn comments_need_existing_proposal_and_membership() {
    let (mut s, org_id, pid) = setup();
    assert_eq!(
        kind(s.create_comment(comment_payload(pid + 20, "x"), who(1), T0)),
        ErrorKind::NotFound
    );
    assert_eq!(
        kind(s.create_comment(comment_payload(pid, "x"), who(9), T0)),
        ErrorKind::NotAMember
    );
    assert_eq!(kind(s.list_comments(pid, org_id, who(1))), ErrorKind::NotFound);
    assert_eq!(kind(s.list_comments(pid, org_id, who(9))), ErrorKind::NotAMember);
    let c = s.create_comment(comment_payload(pid, "x"), who(1), T0 + 8).unwrap();
    assert_eq!(c.author, who(1));
    assert_eq!(c.content, "x");
    assert_eq!(s.get_proposal(pid, who(1)).unwrap().updated_at, Some(T0 + 8));
}

#[test]
fn update_and_delete_comment_by_author_only() {
    let (mut s, _org_id, pid) = setup();
    let c = s.create_comment(comment_payload(pid, "draft"), who(2), T0).unwrap();
    assert_eq!(
        kind(s.update_comment(c.id, comment_payload(pid, "edit"), who(1), T0)),
        ErrorKind::PermissionError
    );
    let u = s.update_comment(c.id, comment_payload(pid, "final"), who(2), T0 + 1).unwrap();
    assert_eq!(u.content, "final");
    assert_eq!(u.updated_at, Some(T0 + 1));
    assert_eq!(kind(s.delete_comment(c.id, who(1))), ErrorKind::PermissionError);
    let d = s.delete_comment(c.id, who(2)).unwrap();
    assert_eq!(d.id, c.id);
    assert!(s.get_proposal(pid, who(1)).unwrap().comments.is_empty());
    assert_eq!(kind(s.delete_comment(c.id, who(2))), ErrorKind::NotFound);
    assert_eq!(
        kind(s.update_comment(c.id, comment_payload(pid, "x"), who(2), T0)),
        ErrorKind::NotFound
    );
}

#[test]
fn errors_carry_a_message() {
    let s = Store::new();
    let e = match s.get_organization(12, who(1)) {
        Ok(_) => panic!("expected an error"),
        Err(e) => e,
    };
    assert_eq!(e.kind(), ErrorKind::NotFound);
    assert!(e.message().contains("12"));
}
