use governance_bot::state::BotState;
use governance_bot::config::BotConfig;
use governance_bot::dispatch::{prepare_proposal_message, proposal_messages};
use governance_bot::proposals::{FetchStep, ProposalFetch};
use governance_bot::types::{MessageContent, NeuronId, Proposal, ProposalInfo, TextContent};

fn config() -> BotConfig {
    BotConfig {
        governance_canister_id: "rrkah-fqaaa-aaaaa-aaaaq-cai".to_string(),
        user_index_canister_id: "user-index".to_string(),
        governance_bot_user_canister_id: "bot-user".to_string(),
        governance_bot_user_name: "GovernanceBot".to_string(),
        initial_proposal_limit: 10,
        process_interval: 60,
        topic_group_canister_ids: std::array::from_fn(|t| format!("group-{}", t)),
    }
}

fn info(id: Option<u64>, topic: i32, title: &str) -> ProposalInfo {
    ProposalInfo {
        id: id.map(|id| NeuronId { id }),
        topic,
        proposal: Some(Proposal { url: String::new(), title: Some(title.to_string()), summary: String::new() }),
    }
}

#[test]
fn prepared_message_goes_to_the_topic_group() {
    let m = prepare_proposal_message(&config(), 77, 4, Some(Proposal { url: "u".to_string(), title: None, summary: String::new() }));
    assert_eq!(m.proposal_id, 77);
    assert_eq!(m.group_canister_id, "group-4");
    let args = m.args.unwrap();
    assert_eq!(args.message_id, 77);
    assert_eq!(args.sender_name, "GovernanceBot");
    assert_eq!(
        args.content,
        MessageContent::Text(TextContent { text: "https://dashboard.internetcomputer.org/proposal/77\n\nu".to_string() })
    );
}

#[test]
fn prepared_message_without_proposal_is_empty() {
    let m = prepare_proposal_message(&config(), 1, 99, None);
    assert_eq!(m.group_canister_id, "not found");
    assert_eq!(m.args.unwrap().content, MessageContent::Text(TextContent { text: String::new() }));
}

#[test]
fn prepared_message_that_cannot_be_cut_has_no_arguments() {
    let prefix = "https://dashboard.internetcomputer.org/proposal/1\n\n";
    let summary = format!("{}é", "c".repeat(999 - prefix.len()));
    let m = prepare_proposal_message(&config(), 1, 0, Some(Proposal { url: String::new(), title: None, summary }));
    assert!(m.args.is_none());
    assert_eq!(m.proposal_id, 1);
}

#[test]
fn messages_skip_proposals_without_id() {
    let msgs = proposal_messages(&config(), vec![info(Some(3), 0, "a"), info(None, 1, "b"), info(Some(4), 12, "c")]);
    assert_eq!(msgs.iter().map(|m| m.proposal_id).collect::<Vec<_>>(), vec![3, 4]);
    assert_eq!(msgs[0].group_canister_id, "group-0");
    assert_eq!(msgs[1].group_canister_id, "not found");
    assert!(proposal_messages(&config(), Vec::new()).is_empty());
}

#[test]
fn law_round_announces_newer_proposals_oldest_first() {
    let mut fetch = ProposalFetch::new(10, 4);
    let answer = vec![info(Some(13, ), 2, "c"), info(Some(12), 1, "b"), info(None, 0, "x"), info(Some(11), 0, "a"), info(Some(10), 0, "old")];
    let ready = match fetch.step(Ok(answer)) {
        FetchStep::Ready(ready) => ready,
        other => panic!("unexpected step {:?}", other),
    };
    let msgs = proposal_messages(&config(), ready);
    assert_eq!(msgs.iter().map(|m| m.proposal_id).collect::<Vec<_>>(), vec![11, 12, 13]);
    assert!(msgs.iter().all(|m| m.proposal_id != 10));
}

#[test]
fn law_round_ends_on_its_last_announcement() {
    let mut state = BotState::new();
    state.record_proposal_sent(10);
    let mut fetch = ProposalFetch::new(state.last_proposal_id_sent(), 4);
    let answer = vec![info(Some(12), 1, "b"), info(Some(11), 0, "a"), info(Some(10), 0, "old")];
    let ready = match fetch.step(Ok(answer)) {
        FetchStep::Ready(ready) => ready,
        other => panic!("unexpected step {:?}", other),
    };
    for (n, m) in proposal_messages(&config(), ready).into_iter().enumerate() {
        state.record_announcement(n as u64, "sent".to_string(), m.proposal_id);
    }
    assert_eq!(state.last_proposal_id_sent(), 12);
    let mut next = ProposalFetch::new(state.last_proposal_id_sent(), 4);
    assert_eq!(next.step(Ok(vec![info(Some(12), 1, "b")])), FetchStep::Ready(Vec::new()));
}
