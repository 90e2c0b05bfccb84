//! The announcements of a round: one message per proposal that has an
//! identifier, to the group of its topic.
use vstd::prelude::*;

use crate::config::{
    BotConfig, get_group_canister_id, group_canister_id, send_message_args,
};
use crate::message::{
    fits_in_memory, formattable, formatted_message, try_format_proposal_message,
};
use crate::proposals::{
    announced_or_older, lemma_newer_count, newer_count, newest_first, ready_list,
};
use crate::types::{MessageContent, Proposal, ProposalInfo, SendMessageArgs};

verus! {

broadcast use vstd::seq_lib::group_filter_ensures;

/// The announcement of one proposal: where it goes, and the arguments of
/// `send_message`, or `None` when the text cannot be cut at the byte limit.
pub struct ProposalMessage {
    pub proposal_id: u64,
    pub group_canister_id: String,
    pub args: Option<SendMessageArgs>,
}

/// The test that keeps the proposals that carry an identifier.
pub open spec fn carries_id() -> spec_fn(ProposalInfo) -> bool {
    |info: ProposalInfo| info.id is Some
}

/// The proposals of the sequence that carry an identifier, in their order:
/// those are the ones announced.
pub open spec fn announced(infos: Seq<ProposalInfo>) -> Seq<ProposalInfo> {
    infos.filter(carries_id())
}

/// `message` announces proposal `id` on `topic` with `proposal_option`:
/// it goes to the topic's group, as message `id`, under the bot's name,
/// with the formatted text; no arguments exactly when the text cannot be
/// formatted.
pub open spec fn announces(
    config: BotConfig,
    id: u64,
    topic: i32,
    proposal_option: Option<Proposal>,
    message: ProposalMessage,
) -> bool {
    &&& message.proposal_id == id
    &&& message.group_canister_id@ == group_canister_id(config, topic)
    &&& match message.args {
        None => !formattable(id as u128, proposal_option),
        Some(args) => {
            &&& formattable(id as u128, proposal_option)
            &&& args.message_id == id as u128
            &&& args.content matches MessageContent::Text(t) && t.text@ == formatted_message(
                id as u128,
                proposal_option,
            )
            &&& args.sender_name@ == config.governance_bot_user_name@
            &&& args.replies_to is None
            &&& args.mentioned@.len() == 0
        },
    }
}

/// `message` announces the proposal `info`, which carries an identifier.
pub open spec fn announces_info(config: BotConfig, info: ProposalInfo, message: ProposalMessage) -> bool {
    announces(config, info.id.unwrap().id, info.topic, info.proposal, message)
}

/// Every proposal with an identifier has a text whose length fits in memory.
pub open spec fn all_fit_in_memory(infos: Seq<ProposalInfo>) -> bool {
    forall|i: int|
        0 <= i < infos.len() && (#[trigger] infos[i]).id is Some ==> fits_in_memory(
            infos[i].id.unwrap().id as u128,
            infos[i].proposal,
        )
}

/// The announcement of proposal `neuron_id` on `topic`.
pub fn prepare_proposal_message(
    config: &BotConfig,
    neuron_id: u64,
    topic: i32,
    proposal_option: Option<Proposal>,
) -> (res: ProposalMessage)
    requires
        fits_in_memory(neuron_id as u128, proposal_option),
    ensures
        announces(*config, neuron_id, topic, proposal_option, res),
        res.proposal_id == neuron_id,
        0 <= topic < 11 ==> res.group_canister_id@ == config.topic_group_canister_ids@[topic as int]@,
        !(0 <= topic < 11) ==> res.group_canister_id@ == "not found"@,
        res.args matches Some(args) ==> {
            &&& args.message_id == neuron_id as u128
            &&& args.sender_name@ == config.governance_bot_user_name@
            &&& args.replies_to is None
            &&& args.mentioned@.len() == 0
        },
{
    let group = get_group_canister_id(config, topic);
    let message_id: u128 = neuron_id as u128;
    let args = match try_format_proposal_message(message_id, proposal_option) {
        Some(text) => Some(send_message_args(config, message_id, text)),
        None => None,
    };
    ProposalMessage { proposal_id: neuron_id, group_canister_id: group, args }
}

/// The announcements of a round, in the order of the proposals: one for
/// each proposal that carries an identifier.
pub fn proposal_messages(config: &BotConfig, proposal_infos: Vec<ProposalInfo>) -> (res: Vec<
    ProposalMessage,
>)
    requires
        all_fit_in_memory(proposal_infos@),
    ensures
        res@.len() == announced(proposal_infos@).len(),
        forall|k: int|
            0 <= k < res@.len() ==> announces_info(
                *config,
                #[trigger] announced(proposal_infos@)[k],
                res@[k],
            ),
{
    let ghost orig = proposal_infos@;
    let mut rest = proposal_infos;
    let mut out: Vec<ProposalMessage> = Vec::new();
    assert(orig.take(0) =~= Seq::<ProposalInfo>::empty());
    proof {
        reveal_with_fuel(Seq::filter, 1);
    }
    assert(orig.skip(0) =~= orig);
    while rest.len() > 0
        invariant
            rest.len() <= orig.len(),
            all_fit_in_memory(orig),
            rest@ == orig.skip(orig.len() - rest.len()),
            out@.len() == announced(orig.take(orig.len() - rest.len())).len(),
            forall|k: int|
                0 <= k < out@.len() ==> announces_info(
                    *config,
                    #[trigger] announced(orig.take(orig.len() - rest.len()))[k],
                    out@[k],
                ),
        decreases rest.len(),
    {
        let ghost k = orig.len() - rest.len();
        let ghost before = out@;
        let info = rest.remove(0);
        assert(info == orig[k]);
        let ProposalInfo { id, topic, proposal } = info;
        match id {
            Some(neuron_id) => {
                let message = prepare_proposal_message(config, neuron_id.id, topic, proposal);
                out.push(message);
            },
            None => {},
        }
        proof {
            let t = orig.take(k + 1);
            assert(t.drop_last() =~= orig.take(k));
            assert(t.last() == orig[k]);
            reveal_with_fuel(Seq::filter, 1);
            assert(rest@ =~= orig.skip(k + 1));
            let a = announced(t);
            if orig[k].id is Some {
                assert(a =~= announced(orig.take(k)).push(orig[k]));
                assert forall|j: int| 0 <= j < out@.len() implies announces_info(
                    *config,
                    #[trigger] a[j],
                    out@[j],
                ) by {
                    if j < before.len() {
                        assert(a[j] == announced(orig.take(k))[j]);
                        assert(out@[j] == before[j]);
                    }
                }
            } else {
                assert(a =~= announced(orig.take(k)));
            }
        }
    }
    assert(orig.take(orig.len() as int) =~= orig);
    out
}

/// An announcement goes to the group that the settings give its topic
/// (topics 0 to 10; "not found" for any other), as message number `id`,
/// under the bot's name, replying to nothing and mentioning nobody.
pub proof fn lemma_announcement_goes_to_topic_group(
    config: BotConfig,
    id: u64,
    topic: i32,
    proposal_option: Option<Proposal>,
    message: ProposalMessage,
)
    requires
        announces(config, id, topic, proposal_option, message),
    ensures
        message.proposal_id == id,
        0 <= topic < 11 ==> message.group_canister_id@ == config.topic_group_canister_ids@[
            topic as int
        ]@,
        !(0 <= topic < 11) ==> message.group_canister_id@ == "not found"@,
        message.args matches Some(args) ==> {
            &&& args.message_id == id as u128
            &&& args.sender_name@ == config.governance_bot_user_name@
            &&& args.replies_to is None
            &&& args.mentioned@.len() == 0
        },
{
}

/// A round announces only proposals newer than the one announced last:
/// each carries an identifier greater than `last`.
pub proof fn lemma_round_announces_only_newer_proposals(infos: Seq<ProposalInfo>, last: u64)
    ensures
        forall|k: int|
            0 <= k < announced(ready_list(infos, last)).len() ==> {
                &&& (#[trigger] announced(ready_list(infos, last))[k]).id is Some
                &&& announced(ready_list(infos, last))[k].id.unwrap().id > last
            },
{
    lemma_newer_count(infos, last);
    let n = newer_count(infos, last) as int;
    let front = infos.take(n);
    let r = ready_list(infos, last);
    let a = announced(r);
    assert forall|k: int| 0 <= k < a.len() implies {
        &&& (#[trigger] a[k]).id is Some
        &&& a[k].id.unwrap().id > last
    } by {
        r.lemma_filter_pred(carries_id(), k);
        assert(a.contains(a[k]));
        r.lemma_filter_contains_rev(carries_id(), a[k]);
        let j = choose|j: int| 0 <= j < r.len() && r[j] == a[k];
        assert(r[j] == front[n - 1 - j]);
        assert(front[n - 1 - j] == infos[n - 1 - j]);
        assert(!announced_or_older(infos[n - 1 - j], last));
    }
}

/// When the answer lists proposals newest first, a round announces every
/// proposal of the answer newer than the one announced last, and announces
/// them in increasing order of identifier (oldest first).
pub proof fn lemma_round_announces_every_newer_proposal(infos: Seq<ProposalInfo>, last: u64)
    requires
        newest_first(infos),
    ensures
        forall|i: int|
            0 <= i < infos.len() && (#[trigger] infos[i]).id.unwrap().id > last
                ==> announced(ready_list(infos, last)).contains(infos[i]),
        forall|a: int, b: int|
            0 <= a < b < ready_list(infos, last).len() ==> (#[trigger] ready_list(
                infos,
                last,
            )[a]).id.unwrap().id < (#[trigger] ready_list(infos, last)[b]).id.unwrap().id,
{
    lemma_newer_count(infos, last);
    let n = newer_count(infos, last) as int;
    let front = infos.take(n);
    let r = ready_list(infos, last);
    assert forall|i: int|
        0 <= i < infos.len() && (#[trigger] infos[i]).id.unwrap().id > last
        implies announced(r).contains(infos[i]) by {
        if n <= i {
            assert(infos[n].id is Some);
            if n < i {
                assert(infos[n].id.unwrap().id > infos[i].id.unwrap().id);
            }
            assert(!announced_or_older(infos[n], last));
        }
        assert(r[n - 1 - i] == front[i]);
        assert(infos[i].id is Some);
        r.lemma_filter_contains(carries_id(), n - 1 - i);
    }
    assert forall|a: int, b: int| 0 <= a < b < r.len() implies (#[trigger] r[a]).id.unwrap().id < (
    #[trigger] r[b]).id.unwrap().id by {
        assert(r[a] == infos[n - 1 - a]);
        assert(r[b] == infos[n - 1 - b]);
    }
}

/// The last proposal announced once the proposals `ids` have been
/// announced in order (each recorded as `BotState::record_announcement`
/// records it), starting from `last`.
pub open spec fn last_after_announcing(last: u64, ids: Seq<u64>) -> u64
    decreases ids.len(),
{
    if ids.len() == 0 {
        last
    } else {
        last_after_announcing(ids[0], ids.drop_first())
    }
}

/// The identifiers of the proposals, in their order.
pub open spec fn proposal_ids(infos: Seq<ProposalInfo>) -> Seq<u64> {
    infos.map_values(|info: ProposalInfo| info.id.unwrap().id)
}

/// Announcing a sequence of proposals leaves the last of them as the last
/// proposal announced, and an empty one changes nothing.
pub proof fn lemma_last_after_announcing(last: u64, ids: Seq<u64>)
    ensures
        ids.len() == 0 ==> last_after_announcing(last, ids) == last,
        ids.len() > 0 ==> last_after_announcing(last, ids) == ids.last(),
    decreases ids.len(),
{
    if ids.len() > 0 {
        lemma_last_after_announcing(ids[0], ids.drop_first());
        if ids.len() > 1 {
            assert(ids.drop_first().last() == ids.last());
        }
    }
}

/// After a round has announced its proposals, the last proposal announced
/// is the one the round announced last (the newest, as a round goes oldest
/// first), or stays as it was when the round announced nothing.
pub proof fn lemma_round_ends_on_its_last_announcement(infos: Seq<ProposalInfo>, last: u64)
    ensures
        ({
            let a = announced(ready_list(infos, last));
            &&& a.len() == 0 ==> last_after_announcing(last, proposal_ids(a)) == last
            &&& a.len() > 0 ==> last_after_announcing(last, proposal_ids(a)) == a.last().id.unwrap().id
        }),
{
    let a = announced(ready_list(infos, last));
    lemma_last_after_announcing(last, proposal_ids(a));
}

/// The proposals announced from a list are exactly those that carry an
/// identifier, each one once, in the list's order.
pub proof fn lemma_announced_are_those_with_ids(infos: Seq<ProposalInfo>)
    ensures
        forall|k: int| 0 <= k < announced(infos).len() ==> (#[trigger] announced(infos)[k]).id is Some,
        forall|i: int|
            0 <= i < infos.len() && (#[trigger] infos[i]).id is Some ==> announced(infos).contains(
                infos[i],
            ),
        forall|k: int| 0 <= k < announced(infos).len() ==> infos.contains(#[trigger] announced(infos)[k]),
        announced(infos).len() <= infos.len(),
        (forall|i: int| 0 <= i < infos.len() ==> (#[trigger] infos[i]).id is Some) ==> announced(
            infos,
        ) == infos,
    decreases infos.len(),
{
    let a = announced(infos);
    assert forall|k: int| 0 <= k < a.len() implies (#[trigger] a[k]).id is Some by {
        infos.lemma_filter_pred(carries_id(), k);
    }
    assert forall|i: int| 0 <= i < infos.len() && (#[trigger] infos[i]).id is Some implies a.contains(
        infos[i],
    ) by {
        infos.lemma_filter_contains(carries_id(), i);
    }
    assert forall|k: int| 0 <= k < a.len() implies infos.contains(#[trigger] a[k]) by {
        assert(a.contains(a[k]));
        infos.lemma_filter_contains_rev(carries_id(), a[k]);
    }
    if infos.len() > 0 {
        lemma_announced_are_those_with_ids(infos.drop_last());
        reveal_with_fuel(Seq::filter, 1);
        if forall|i: int| 0 <= i < infos.len() ==> (#[trigger] infos[i]).id is Some {
            let r = infos.drop_last();
            assert forall|i: int| 0 <= i < r.len() implies (#[trigger] r[i]).id is Some by {
                assert(r[i] == infos[i]);
            }
            assert(infos.last().id is Some);
            assert(a =~= infos);
        }
    } else {
        reveal_with_fuel(Seq::filter, 1);
    }
}

} // verus!
