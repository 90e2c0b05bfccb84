//! The bot's settings, and the requests built from them.
use vstd::prelude::*;
use vstd::string::*;

use ic_cdk::export::Principal;
use crate::types::{
    CurrentUserResponse, JoinGroupArgs, ListProposalInfo, MessageContent, RegisterUserArgs,
    SendMessageArgs, TextContent, User,
};

verus! {

/// The number of proposal topics that have a group of their own.
pub const TOPIC_COUNT: usize = 11;

/// The canisters and names that the bot talks to, and how often it looks
/// for new proposals.
pub struct BotConfig {
    /// The NNS governance canister, which lists the proposals.
    pub governance_canister_id: String,
    /// OpenChat's user index canister, where the bot registers.
    pub user_index_canister_id: String,
    /// The bot's own OpenChat user canister.
    pub governance_bot_user_canister_id: String,
    /// The name that the bot's messages are sent under.
    pub governance_bot_user_name: String,
    /// How many proposals the first request of a round asks for.
    pub initial_proposal_limit: u32,
    /// The least time, in nanoseconds, between two rounds.
    pub process_interval: u64,
    /// The OpenChat group of each topic, topic `t` at index `t`.
    pub topic_group_canister_ids: [String; 11],
}

/// The group that announcements of proposals on `topic` go to, or
/// "not found" for a topic without a group.
pub open spec fn group_canister_id(config: BotConfig, topic: i32) -> Seq<char> {
    if 0 <= topic < TOPIC_COUNT {
        config.topic_group_canister_ids@[topic as int]@
    } else {
        "not found"@
    }
}

/// The group canister of the proposal topic: the configured group for
/// topics 0 to 10, and "not found" for any other topic.
pub fn get_group_canister_id(config: &BotConfig, topic: i32) -> (res: String)
    ensures
        res@ == group_canister_id(*config, topic),
        0 <= topic < 11 ==> res@ == config.topic_group_canister_ids@[topic as int]@,
        !(0 <= topic < 11) ==> res@ == "not found"@,
{
    if 0 <= topic && topic < 11 {
        let index: usize = topic as usize;
        config.topic_group_canister_ids[index].clone()
    } else {
        "not found".to_owned()
    }
}

/// The governance canister's code for the status of an open proposal
/// (`ProposalStatus::Open`).
pub const PROPOSAL_STATUS_OPEN: i32 = 1;

/// Each topic from 0 to 10 is sent to the group that the settings give it,
/// and every other topic to "not found".
pub proof fn lemma_topic_groups(config: BotConfig, topic: i32)
    ensures
        0 <= topic < 11 ==> group_canister_id(config, topic) == config.topic_group_canister_ids@[
            topic as int
        ]@,
        !(0 <= topic < 11) ==> group_canister_id(config, topic) == "not found"@,
{
}

/// The arguments of `list_proposals` that ask for the `limit` newest open
/// proposals, of every topic and reward status.
pub fn list_proposals_request(limit: u32) -> (res: ListProposalInfo)
    ensures
        res.include_reward_status@.len() == 0,
        res.before_proposal is None,
        res.limit == limit,
        res.exclude_topic@.len() == 0,
        res.include_status@ == seq![PROPOSAL_STATUS_OPEN],
{
    let mut include_status: Vec<i32> = Vec::new();
    include_status.push(PROPOSAL_STATUS_OPEN);
    ListProposalInfo {
        include_reward_status: Vec::new(),
        before_proposal: None,
        limit,
        exclude_topic: Vec::new(),
        include_status,
    }
}

/// The arguments of `send_message` that send `text` as message `message_id`
/// under the bot's name, replying to nothing and mentioning nobody.
pub fn send_message_args(config: &BotConfig, message_id: u128, text: String) -> (res:
    SendMessageArgs)
    ensures
        res.message_id == message_id,
        res.content == MessageContent::Text(TextContent { text }),
        res.sender_name@ == config.governance_bot_user_name@,
        res.replies_to is None,
        res.mentioned@.len() == 0,
{
    let mentioned: Vec<User> = Vec::new();
    SendMessageArgs {
        message_id,
        content: MessageContent::Text(TextContent { text }),
        sender_name: config.governance_bot_user_name.clone(),
        replies_to: None,
        mentioned,
    }
}

/// The arguments of `register_user` that register the bot under its name.
pub fn register_user_args(config: &BotConfig) -> (res: RegisterUserArgs)
    ensures
        res.username@ == config.governance_bot_user_name@,
{
    RegisterUserArgs { username: config.governance_bot_user_name.clone() }
}

/// The arguments of `join_group_v2` that make the bot join the group
/// `chat_id` as an ordinary member.
pub fn join_group_args(chat_id: Principal) -> (res: JoinGroupArgs)
    ensures
        res.chat_id == chat_id,
        !res.as_super_admin,
{
    JoinGroupArgs { chat_id, as_super_admin: false }
}

/// What the outcome of `current_user` says of the bot's user canister: its
/// principal when the canister exists, otherwise the text to show: the
/// call's error message, or "Not Implemented" for any other answer.
pub fn governance_bot_user_canister(outcome: Result<CurrentUserResponse, String>) -> (res: Result<
    Principal,
    String,
>)
    ensures
        match outcome {
            Ok(CurrentUserResponse::Created(created)) => res == Ok::<Principal, String>(
                created.user_id,
            ),
            Ok(_) => res matches Err(text) && text@ == "Not Implemented"@,
            Err(error) => res == Err::<Principal, String>(error),
        },
{
    match outcome {
        Ok(CurrentUserResponse::Created(created)) => Ok(created.user_id),
        Ok(_) => Err("Not Implemented".to_owned()),
        Err(error) => Err(error),
    }
}

} // verus!
