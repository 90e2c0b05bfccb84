//! The messages that the bot exchanges with the NNS governance canister and
//! with OpenChat, as plain values.
use vstd::prelude::*;

use ic_cdk::export::Principal;

verus! {

/// Where OpenChat is in creating a user's canister.
#[derive(Debug, Clone, PartialEq, Eq)]
pub enum CanisterCreationStatus {
    Pending,
    InProgress,
    Created,
}

/// What an unconfirmed OpenChat user still has to confirm.
#[derive(Debug, Clone, PartialEq, Eq)]
pub enum ConfirmationState {
    PhoneNumber(PhoneNumber),
    RegistrationFee(CurrentUserResponseUnconfirmedStateRegistrationFee),
}

/// A confirmed OpenChat user that has no username yet.
#[derive(Debug, Clone, PartialEq, Eq)]
pub struct ConfirmedPendingUsername {
    pub canister_creation_status: CanisterCreationStatus,
    pub confirmation_state: ConfirmationState,
}

/// Arguments of OpenChat's `create_canister`.
#[derive(Debug, Clone, PartialEq, Eq)]
pub struct CreateCanisterArgs {}

/// Answer of OpenChat's `create_canister`.
#[derive(Debug, PartialEq, Eq)]
pub enum CreateCanisterResponse {
    Success(Principal),
    UserNotFound,
    UserUnconfirmed,
    UserAlreadyCreated,
    CreationInProgress,
    CyclesBalanceTooLow,
    InternalError(String),
}

/// Arguments of OpenChat's `current_user`.
#[derive(Debug, Clone, PartialEq, Eq)]
pub struct CurrentUserArgs {}

/// Answer of OpenChat's `current_user`.
#[derive(Debug, PartialEq, Eq)]
pub enum CurrentUserResponse {
    UserNotFound,
    Unconfirmed(CurrentUserResponseUnconfirmed),
    ConfirmedPendingUsername(ConfirmedPendingUsername),
    Confirmed(CurrentUserResponseConfirmed),
    Created(CurrentUserResponseCreated),
}

/// A confirmed OpenChat user.
#[derive(Debug, Clone, PartialEq, Eq)]
pub struct CurrentUserResponseConfirmed {
    pub username: String,
}

/// An OpenChat user whose canister exists.
#[derive(Debug, PartialEq, Eq)]
pub struct CurrentUserResponseCreated {
    pub user_id: Principal,
}

/// An unconfirmed OpenChat user.
#[derive(Debug, Clone, PartialEq, Eq)]
pub struct CurrentUserResponseUnconfirmed {
    pub state: CurrentUserResponseUnconfirmedState,
}

/// What an unconfirmed OpenChat user is waiting for.
#[derive(Debug, Clone, PartialEq, Eq)]
pub enum CurrentUserResponseUnconfirmedState {
    PhoneNumber(CurrentUserResponseUnconfirmedStatePhoneNumber),
    RegistrationFee(CurrentUserResponseUnconfirmedStateRegistrationFee),
}

/// A phone number awaiting confirmation.
#[derive(Debug, Clone, PartialEq, Eq)]
pub struct CurrentUserResponseUnconfirmedStatePhoneNumber {
    pub phone_number: PhoneNumber,
    pub valid_until: u64,
}

/// A registration fee awaiting payment.
#[derive(Debug, Clone, PartialEq, Eq)]
pub enum CurrentUserResponseUnconfirmedStateRegistrationFee {
    ICP(ICPRegistrationFee),
    Cycles(CyclesRegistrationFee),
}

/// A registration fee payable in cycles.
#[derive(Debug, Clone, PartialEq, Eq)]
pub struct CyclesRegistrationFee {
    pub valid_until: u64,
}

/// Summary of a group chat that was joined.
#[derive(Debug, Clone, PartialEq, Eq)]
pub struct GroupChatSummary {
    pub name: String,
}

/// The message that a message replies to.
#[derive(Debug, Clone, PartialEq, Eq)]
pub struct GroupReplyContext {
    pub event_index: u32,
}

/// A registration fee payable in ICP.
#[derive(Debug, Clone, PartialEq, Eq)]
pub struct ICPRegistrationFee {
    pub valid_until: u64,
}

/// Arguments of OpenChat's `join_group_v2`.
#[derive(Debug, PartialEq, Eq)]
pub struct JoinGroupArgs {
    pub chat_id: Principal,
    pub as_super_admin: bool,
}

/// Answer of OpenChat's `join_group_v2`.
#[derive(Debug, Clone, PartialEq, Eq)]
pub enum JoinGroupResponse {
    Success(GroupChatSummary),
    AlreadyInGroup,
    Blocked,
    GroupNotFound,
    GroupNotPublic,
    ParticipantLimitReached(u32),
    InternalError(String),
    NotSuperAdmin,
}

/// Arguments of the NNS governance canister's `list_proposals`.
#[derive(Debug, Clone, PartialEq, Eq)]
pub struct ListProposalInfo {
    pub include_reward_status: Vec<i32>,
    pub before_proposal: Option<NeuronId>,
    pub limit: u32,
    pub exclude_topic: Vec<i32>,
    pub include_status: Vec<i32>,
}

/// Answer of the NNS governance canister's `list_proposals`.
#[derive(Debug, Clone, PartialEq, Eq)]
pub struct ListProposalInfoResponse {
    pub proposal_info: Vec<ProposalInfo>,
}

/// The content of an OpenChat message.
#[derive(Debug, Clone, PartialEq, Eq)]
pub enum MessageContent {
    Text(TextContent),
}

/// The identifier of a proposal (the governance canister's `NeuronId` record).
#[derive(Debug, Clone, PartialEq, Eq)]
pub struct NeuronId {
    pub id: u64,
}

/// A phone number.
#[derive(Debug, Clone, PartialEq, Eq)]
pub struct PhoneNumber {
    pub country_code: u16,
    pub number: String,
}

/// The text of a proposal.
#[derive(Debug, Clone, PartialEq, Eq)]
pub struct Proposal {
    pub url: String,
    pub title: Option<String>,
    pub summary: String,
}

/// A proposal as `list_proposals` reports it.
#[derive(Debug, Clone, PartialEq, Eq)]
pub struct ProposalInfo {
    pub id: Option<NeuronId>,
    pub topic: i32,
    pub proposal: Option<Proposal>,
}

/// Arguments of OpenChat's `register_user`.
#[derive(Debug, Clone, PartialEq, Eq)]
pub struct RegisterUserArgs {
    pub username: String,
}

/// Answer of OpenChat's `register_user`.
#[derive(Debug, Clone, PartialEq, Eq)]
pub enum RegisterUserResponse {
    Success,
    AlreadyRegistered,
    UserLimitReached,
    UsernameTaken,
    UsernameInvalid,
    UsernameTooShort(u16),
    UsernameTooLong(u16),
    NotSupported,
}

/// Arguments of OpenChat's `send_message`.
#[derive(Debug, PartialEq, Eq)]
pub struct SendMessageArgs {
    pub message_id: u128,
    pub content: MessageContent,
    pub sender_name: String,
    pub replies_to: Option<GroupReplyContext>,
    pub mentioned: Vec<User>,
}

/// Answer of OpenChat's `send_message`.
#[derive(Debug, Clone, PartialEq, Eq)]
pub enum SendMessageResponse {
    Success(SendMessageResponseSuccess),
    MessageEmpty,
    TextTooLong(u32),
    CallerNotInGroup,
}

/// Where a sent message landed.
#[derive(Debug, Clone, PartialEq, Eq)]
pub struct SendMessageResponseSuccess {
    pub message_index: u32,
    pub event_index: u32,
    pub timestamp: u64,
}

/// Text content of a message.
#[derive(Debug, Clone, PartialEq, Eq)]
pub struct TextContent {
    pub text: String,
}

/// An OpenChat user mentioned in a message.
#[derive(Debug, PartialEq, Eq)]
pub struct User {
    pub user_id: Principal,
    pub username: String,
}

} // verus!
