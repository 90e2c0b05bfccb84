use governance_bot::config::{
    get_group_canister_id, governance_bot_user_canister, join_group_args, list_proposals_request,
    register_user_args, send_message_args, BotConfig,
};
use governance_bot::principal::parse_principal;
use governance_bot::types::{
    CurrentUserResponse, CurrentUserResponseConfirmed, CurrentUserResponseCreated, MessageContent,
    TextContent,
};

fn config() -> BotConfig {
    BotConfig {
        governance_canister_id: "rrkah-fqaaa-aaaaa-aaaaq-cai".to_string(),
        user_index_canister_id: "user-index".to_string(),
        governance_bot_user_canister_id: "bot-user".to_string(),
        governance_bot_user_name: "GovernanceBot".to_string(),
        initial_proposal_limit: 10,
        process_interval: 60_000_000_000,
        topic_group_canister_ids: std::array::from_fn(|t| format!("group-{}", t)),
    }
}

#[test]
fn every_topic_has_its_group() {
    let c = config();
    for topic in 0..11 {
        assert_eq!(get_group_canister_id(&c, topic), format!("group-{}", topic));
    }
}

#[test]
fn unknown_topics_have_no_group() {
    let c = config();
    assert_eq!(get_group_canister_id(&c, 11), "not found");
    assert_eq!(get_group_canister_id(&c, -1), "not found");
    assert_eq!(get_group_canister_id(&c, i32::MAX), "not found");
    assert_eq!(get_group_canister_id(&c, i32::MIN), "not found");
}

#[test]
fn list_proposals_request_asks_for_the_newest_open_proposals() {
    let r = list_proposals_request(17);
    assert_eq!(r.limit, 17);
    assert!(r.include_reward_status.is_empty());
    assert!(r.before_proposal.is_none());
    assert!(r.exclude_topic.is_empty());
    assert_eq!(r.include_status, vec![1]);
}

#[test]
fn send_message_args_carry_the_text_under_the_bot_name() {
    let a = send_message_args(&config(), 52538, "hello".to_string());
    assert_eq!(a.message_id, 52538);
    assert_eq!(a.content, MessageContent::Text(TextContent { text: "hello".to_string() }));
    assert_eq!(a.sender_name, "GovernanceBot");
    assert!(a.replies_to.is_none());
    assert!(a.mentioned.is_empty());
}

#[test]
fn register_user_args_use_the_bot_name() {
    assert_eq!(register_user_args(&config()).username, "GovernanceBot");
}

#[test]
fn join_group_args_join_as_member() {
    let chat = parse_principal("aaaaa-aa").unwrap();
    let a = join_group_args(chat);
    assert_eq!(a.chat_id, chat);
    assert!(!a.as_super_admin);
}

#[test]
fn user_canister_when_created() {
    let user_id = parse_principal("rrkah-fqaaa-aaaaa-aaaaq-cai").unwrap();
    let outcome = Ok(CurrentUserResponse::Created(CurrentUserResponseCreated { user_id }));
    assert_eq!(governance_bot_user_canister(outcome).unwrap(), user_id);
}

#[test]
fn user_canister_otherwise_not_implemented() {
    let outcome = Ok(CurrentUserResponse::Confirmed(CurrentUserResponseConfirmed { username: "bot".to_string() }));
    assert_eq!(governance_bot_user_canister(outcome).unwrap_err(), "Not Implemented");
    assert_eq!(governance_bot_user_canister(Ok(CurrentUserResponse::UserNotFound)).unwrap_err(), "Not Implemented");
}

#[test]
fn user_canister_call_error_is_shown() {
    assert_eq!(governance_bot_user_canister(Err("rejected".to_string())).unwrap_err(), "rejected");
}
