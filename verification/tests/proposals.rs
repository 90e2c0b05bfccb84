use governance_bot::proposals::{
    count_newer_proposals, proposal_infos_contains_last_proposal,
    remove_proposal_from_proposal_infos, reverse_proposal_infos, FetchStep, ProposalFetch,
};
use governance_bot::types::{NeuronId, Proposal, ProposalInfo};

fn info(id: Option<u64>, topic: i32) -> ProposalInfo {
    ProposalInfo {
        id: id.map(|id| NeuronId { id }),
        topic,
        proposal: Some(Proposal {
            url: String::new(),
            title: Some(format!("proposal {:?}", id)),
            summary: String::new(),
        }),
    }
}

fn ids(infos: &[ProposalInfo]) -> Vec<Option<u64>> {
    infos.iter().map(|i| i.id.as_ref().map(|n| n.id)).collect()
}

#[test]
fn contains_finds_the_proposal() {
    let infos = vec![info(Some(9), 0), info(None, 1), info(Some(7), 2)];
    assert!(proposal_infos_contains_last_proposal(7, &infos));
    assert!(proposal_infos_contains_last_proposal(9, &infos));
}

#[test]
fn contains_ignores_proposals_without_id() {
    let infos = vec![info(None, 0), info(Some(3), 1)];
    assert!(!proposal_infos_contains_last_proposal(0, &infos));
    assert!(!proposal_infos_contains_last_proposal(4, &infos));
    assert!(!proposal_infos_contains_last_proposal(4, &Vec::new()));
}

#[test]
fn remove_keeps_the_others_in_order() {
    let infos = vec![info(Some(9), 0), info(None, 1), info(Some(7), 2), info(Some(7), 3), info(Some(5), 4)];
    let kept = remove_proposal_from_proposal_infos(7, infos);
    assert_eq!(ids(&kept), vec![Some(9), None, Some(5)]);
    assert_eq!(kept.iter().map(|i| i.topic).collect::<Vec<_>>(), vec![0, 1, 4]);
}

#[test]
fn remove_of_an_absent_id_keeps_everything() {
    let infos = vec![info(Some(2), 0), info(Some(1), 1)];
    let kept = remove_proposal_from_proposal_infos(3, infos.clone());
    assert_eq!(kept, infos);
}

#[test]
fn reverse_turns_the_list_around() {
    let infos = vec![info(Some(3), 0), info(Some(2), 1), info(Some(1), 2)];
    assert_eq!(ids(&reverse_proposal_infos(infos)), vec![Some(1), Some(2), Some(3)]);
    assert_eq!(reverse_proposal_infos(Vec::new()), Vec::new());
}

#[test]
fn fetch_asks_for_one_more_until_the_last_is_found() {
    let mut fetch = ProposalFetch::new(5, 2);
    assert_eq!(fetch.first_request(), 2);
    assert_eq!(fetch.step(Ok(vec![info(Some(8), 0), info(Some(7), 0)])), FetchStep::Request(3));
    assert_eq!(
        fetch.step(Ok(vec![info(Some(8), 0), info(Some(7), 0), info(Some(6), 0)])),
        FetchStep::Request(4)
    );
    assert_eq!(
        fetch,
        ProposalFetch { last_proposal_id: 5, requested: 4, previous_answer: Some(vec![Some(8), Some(7), Some(6)]) }
    );
    let answer = vec![info(Some(8), 0), info(None, 1), info(Some(6), 0), info(Some(5), 0)];
    match fetch.step(Ok(answer)) {
        FetchStep::Ready(ready) => assert_eq!(ids(&ready), vec![Some(6), None, Some(8)]),
        other => panic!("unexpected step {:?}", other),
    }
}

#[test]
fn fetch_stops_at_an_older_proposal() {
    let mut fetch = ProposalFetch::new(5, 3);
    let answer = vec![info(Some(9), 0), info(Some(7), 0), info(Some(4), 0)];
    match fetch.step(Ok(answer)) {
        FetchStep::Ready(ready) => assert_eq!(ids(&ready), vec![Some(7), Some(9)]),
        other => panic!("unexpected step {:?}", other),
    }
}

#[test]
fn fetch_asks_again_after_a_short_answer() {
    let mut fetch = ProposalFetch::new(5, 3);
    assert!(!fetch.ends_round(&vec![info(Some(9), 0), info(Some(8), 0)]));
    assert_eq!(fetch.step(Ok(vec![info(Some(9), 0), info(Some(8), 0)])), FetchStep::Request(4));
    let answer = vec![info(Some(9), 0), info(Some(8), 0), info(Some(7), 0), info(Some(6), 0), info(Some(5), 0)];
    match fetch.step(Ok(answer)) {
        FetchStep::Ready(ready) => assert_eq!(ids(&ready), vec![Some(6), Some(7), Some(8), Some(9)]),
        other => panic!("unexpected step {:?}", other),
    }
}

#[test]
fn fetch_after_a_short_answer_can_fail() {
    let mut fetch = ProposalFetch::new(5, 3);
    assert_eq!(fetch.step(Ok(vec![info(Some(9), 0), info(Some(8), 0)])), FetchStep::Request(4));
    assert_eq!(fetch.step(Err("rejected".to_string())), FetchStep::Failed("rejected".to_string()));
}

#[test]
fn fetch_stops_when_one_more_changes_nothing() {
    let mut fetch = ProposalFetch::new(5, 3);
    assert_eq!(fetch.step(Ok(vec![info(Some(9), 0), info(Some(8), 0)])), FetchStep::Request(4));
    assert!(fetch.ends_round(&vec![info(Some(9), 0), info(Some(8), 0)]));
    assert!(!fetch.ends_round(&vec![info(Some(9), 0), info(Some(7), 0)]));
    match fetch.step(Ok(vec![info(Some(9), 0), info(Some(8), 0)])) {
        FetchStep::Ready(ready) => assert_eq!(ids(&ready), vec![Some(8), Some(9)]),
        other => panic!("unexpected step {:?}", other),
    }
}

#[test]
fn fetch_keeps_asking_while_the_answer_changes() {
    let mut fetch = ProposalFetch::new(5, 3);
    assert_eq!(fetch.step(Ok(vec![info(Some(9), 0)])), FetchStep::Request(4));
    assert_eq!(fetch.step(Ok(vec![info(Some(10), 0), info(Some(9), 0)])), FetchStep::Request(5));
    assert_eq!(fetch.step(Ok(Vec::new())), FetchStep::Request(6));
    assert_eq!(fetch.step(Ok(Vec::new())), FetchStep::Ready(Vec::new()));
}

#[test]
fn count_newer_proposals_counts_the_front() {
    let infos = vec![info(Some(9), 0), info(None, 0), info(Some(6), 0), info(Some(5), 0), info(Some(8), 0)];
    assert_eq!(count_newer_proposals(5, &infos), 3);
    assert_eq!(count_newer_proposals(9, &infos), 0);
    assert_eq!(count_newer_proposals(1, &infos), 5);
}

#[test]
fn fetch_that_fails_ends_the_round() {
    let mut fetch = ProposalFetch::new(5, 2);
    assert_eq!(fetch.step(Err("canister rejected".to_string())), FetchStep::Failed("canister rejected".to_string()));
    assert_eq!(fetch, ProposalFetch::new(5, 2));
}

#[test]
fn fetch_with_nothing_new_is_ready_and_empty() {
    let mut fetch = ProposalFetch::new(5, 1);
    assert_eq!(fetch.step(Ok(vec![info(Some(5), 0)])), FetchStep::Ready(Vec::new()));
}

#[test]
fn fetch_request_range() {
    let fetch = ProposalFetch { last_proposal_id: 1, requested: u32::MAX - 1, previous_answer: None };
    assert!(fetch.next_request_fits());
    let fetch = ProposalFetch { last_proposal_id: 1, requested: u32::MAX, previous_answer: None };
    assert!(!fetch.next_request_fits());
}

#[test]
fn law_round_announces_only_newer_proposals() {
    let mut fetch = ProposalFetch::new(5, 3);
    let answer = vec![info(Some(7), 0), info(Some(5), 0), info(Some(3), 0)];
    match fetch.step(Ok(answer)) {
        FetchStep::Ready(ready) => {
            assert!(!proposal_infos_contains_last_proposal(5, &ready));
            assert_eq!(ids(&ready), vec![Some(7)]);
        }
        other => panic!("unexpected step {:?}", other),
    }
}

#[test]
fn law_round_announces_every_newer_proposal_oldest_first() {
    let mut fetch = ProposalFetch::new(4, 5);
    let answer = vec![info(Some(9), 0), info(Some(8), 1), info(Some(6), 2), info(Some(4), 0), info(Some(2), 0)];
    match fetch.step(Ok(answer)) {
        FetchStep::Ready(ready) => assert_eq!(ids(&ready), vec![Some(6), Some(8), Some(9)]),
        other => panic!("unexpected step {:?}", other),
    }
}

#[test]
fn law_removals_commute() {
    let infos = vec![info(Some(3), 0), info(Some(7), 1), info(None, 2), info(Some(3), 3), info(Some(5), 4)];
    let a = remove_proposal_from_proposal_infos(5, remove_proposal_from_proposal_infos(3, infos.clone()));
    let b = remove_proposal_from_proposal_infos(3, remove_proposal_from_proposal_infos(5, infos));
    assert_eq!(a, b);
    assert_eq!(ids(&a), vec![Some(7), None]);
}
