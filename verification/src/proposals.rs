//! Finding the open proposals that are newer than the last one announced.
//!
//! `list_proposals` answers with the newest proposals first. The bot asks
//! for a few of them, and asks again for one more each time until the answer
//! reaches the proposal it announced last (or one older than it), or until
//! asking for one more no longer changes the answer; the proposals that come
//! before that point are the new ones, to be announced oldest first.
use vstd::prelude::*;

use crate::types::{NeuronId, ProposalInfo};

verus! {

/// The proposal carries the identifier `id`.
pub open spec fn has_id(info: ProposalInfo, id: u64) -> bool {
    info.id matches Some(n) && n.id == id
}

/// Some proposal of the sequence carries the identifier `id`.
pub open spec fn contains_proposal(infos: Seq<ProposalInfo>, id: u64) -> bool {
    exists|i: int| 0 <= i < infos.len() && #[trigger] has_id(infos[i], id)
}

/// The test that keeps every proposal that does not carry `id`.
pub open spec fn keeps(id: u64) -> spec_fn(ProposalInfo) -> bool {
    |info: ProposalInfo| !has_id(info, id)
}

/// The proposals of the sequence that do not carry `id`, in their order.
pub open spec fn without_proposal(infos: Seq<ProposalInfo>, id: u64) -> Seq<ProposalInfo> {
    infos.filter(keeps(id))
}

/// The proposal is the last one announced or older than it: it carries an
/// identifier no greater than `last`.
pub open spec fn announced_or_older(info: ProposalInfo, last: u64) -> bool {
    info.id matches Some(n) && n.id <= last
}

/// The number of proposals at the front of the answer that come before the
/// first one that is announced or older.
pub open spec fn newer_count(infos: Seq<ProposalInfo>, last: u64) -> nat
    decreases infos.len(),
{
    if infos.len() == 0 {
        0
    } else if announced_or_older(infos[0], last) {
        0
    } else {
        1 + newer_count(infos.drop_first(), last)
    }
}

/// Some proposal of the answer is announced or older.
pub open spec fn reaches_announced(infos: Seq<ProposalInfo>, last: u64) -> bool {
    exists|i: int| 0 <= i < infos.len() && #[trigger] announced_or_older(infos[i], last)
}

/// The identifiers of an answer's proposals, in order, as `Some(id)` or
/// `None` for a proposal without one.
pub open spec fn answer_ids(infos: Seq<ProposalInfo>) -> Seq<Option<u64>> {
    infos.map_values(
        |info: ProposalInfo|
            match info.id {
                Some(n) => Some(n.id),
                None => None,
            },
    )
}

/// An answer ends the round: it reaches a proposal announced or older, or
/// asking for one more proposal no longer changed the answer (it holds fewer
/// proposals than were asked for, and the same proposals as the answer to
/// the request before), so there is nothing more to find.
pub open spec fn round_ends(infos: Seq<ProposalInfo>, fetch: ProposalFetch) -> bool {
    ||| reaches_announced(infos, fetch.last_proposal_id)
    ||| infos.len() < fetch.requested && (fetch.previous_answer matches Some(p) && p@ == answer_ids(
        infos,
    ))
}

/// The answer lists proposals that all carry identifiers, newest first:
/// identifiers strictly decrease, as `list_proposals` orders them.
pub open spec fn newest_first(infos: Seq<ProposalInfo>) -> bool {
    &&& forall|i: int| 0 <= i < infos.len() ==> (#[trigger] infos[i]).id is Some
    &&& forall|i: int, j: int|
        0 <= i < j < infos.len() ==> (#[trigger] infos[i]).id.unwrap().id > (
        #[trigger] infos[j]).id.unwrap().id
}

/// What a round announces from the answer of `list_proposals` (newest
/// first): the proposals that come before the first one that is the last
/// announced or older, oldest first.
pub open spec fn ready_list(infos: Seq<ProposalInfo>, last: u64) -> Seq<ProposalInfo> {
    infos.take(newer_count(infos, last) as int).reverse()
}

/// A `newer_count` is the position of the first proposal announced or
/// older, or the whole length when there is none.
pub proof fn lemma_newer_count(infos: Seq<ProposalInfo>, last: u64)
    ensures
        newer_count(infos, last) <= infos.len(),
        forall|j: int| 0 <= j < newer_count(infos, last) ==> !announced_or_older(
            #[trigger] infos[j],
            last,
        ),
        newer_count(infos, last) < infos.len() ==> announced_or_older(
            infos[newer_count(infos, last) as int],
            last,
        ),
        newer_count(infos, last) < infos.len() <==> reaches_announced(infos, last),
    decreases infos.len(),
{
    if infos.len() > 0 && !announced_or_older(infos[0], last) {
        let rest = infos.drop_first();
        lemma_newer_count(rest, last);
        assert forall|j: int| 0 <= j < newer_count(infos, last) implies !announced_or_older(
            #[trigger] infos[j],
            last,
        ) by {
            if j > 0 {
                assert(infos[j] == rest[j - 1]);
            }
        }
        if reaches_announced(infos, last) {
            let i = choose|i: int| 0 <= i < infos.len() && #[trigger] announced_or_older(infos[i], last);
            assert(rest[i - 1] == infos[i]);
        }
        if reaches_announced(rest, last) {
            let i = choose|i: int| 0 <= i < rest.len() && #[trigger] announced_or_older(rest[i], last);
            assert(rest[i] == infos[i + 1]);
        }
    } else if infos.len() > 0 {
        assert(announced_or_older(infos[0], last));
    }
}

/// The number of proposals at the front of the answer that are newer than
/// the last one announced (see `newer_count`).
pub fn count_newer_proposals(last_proposal_id: u64, proposal_infos: &Vec<ProposalInfo>) -> (res:
    usize)
    ensures
        res == newer_count(proposal_infos@, last_proposal_id),
{
    proof {
        lemma_newer_count(proposal_infos@, last_proposal_id);
    }
    let n = proposal_infos.len();
    let mut i: usize = 0;
    while i < n
        invariant
            n == proposal_infos@.len(),
            i <= n,
            i <= newer_count(proposal_infos@, last_proposal_id),
            newer_count(proposal_infos@, last_proposal_id) <= n,
            forall|j: int| 0 <= j < newer_count(proposal_infos@, last_proposal_id) ==> !announced_or_older(
                #[trigger] proposal_infos@[j],
                last_proposal_id,
            ),
            newer_count(proposal_infos@, last_proposal_id) < n ==> announced_or_older(
                proposal_infos@[newer_count(proposal_infos@, last_proposal_id) as int],
                last_proposal_id,
            ),
        decreases n - i,
    {
        let older = match &proposal_infos[i].id {
            Some(neuron_id) => neuron_id.id <= last_proposal_id,
            None => false,
        };
        if older {
            assert(announced_or_older(proposal_infos@[i as int], last_proposal_id));
            return i;
        }
        assert(!announced_or_older(proposal_infos@[i as int], last_proposal_id));
        i = i + 1;
    }
    i
}

/// Whether the list holds the proposal with identifier `last_proposal_id`.
pub fn proposal_infos_contains_last_proposal(
    last_proposal_id: u64,
    proposal_infos: &Vec<ProposalInfo>,
) -> (res: bool)
    ensures
        res == contains_proposal(proposal_infos@, last_proposal_id),
{
    let n = proposal_infos.len();
    let mut i: usize = 0;
    while i < n
        invariant
            n == proposal_infos@.len(),
            i <= n,
            forall|j: int| 0 <= j < i ==> !#[trigger] has_id(proposal_infos@[j], last_proposal_id),
        decreases n - i,
    {
        let found = match &proposal_infos[i].id {
            Some(neuron_id) => neuron_id.id == last_proposal_id,
            None => false,
        };
        if found {
            assert(has_id(proposal_infos@[i as int], last_proposal_id));
            return true;
        }
        i = i + 1;
    }
    false
}

/// The list without the proposals that carry `proposal_id`, in its order.
pub fn remove_proposal_from_proposal_infos(
    proposal_id: u64,
    proposal_infos: Vec<ProposalInfo>,
) -> (res: Vec<ProposalInfo>)
    ensures
        res@ == without_proposal(proposal_infos@, proposal_id),
{
    let ghost orig = proposal_infos@;
    let mut rest = proposal_infos;
    let mut kept: Vec<ProposalInfo> = Vec::new();
    assert(orig.take(0) =~= Seq::<ProposalInfo>::empty());
    proof {
        reveal_with_fuel(Seq::filter, 1);
    }
    assert(orig.skip(0) =~= orig);
    while rest.len() > 0
        invariant
            rest.len() <= orig.len(),
            rest@ == orig.skip(orig.len() - rest.len()),
            kept@ == orig.take(orig.len() - rest.len()).filter(keeps(proposal_id)),
        decreases rest.len(),
    {
        let ghost k = orig.len() - rest.len();
        let info = rest.remove(0);
        assert(info == orig[k]);
        let keep = match &info.id {
            Some(neuron_id) => neuron_id.id != proposal_id,
            None => true,
        };
        assert(keep == keeps(proposal_id)(info));
        if keep {
            kept.push(info);
        }
        proof {
            let t = orig.take(k + 1);
            assert(t.drop_last() =~= orig.take(k));
            assert(t.last() == orig[k]);
            reveal_with_fuel(Seq::filter, 1);
            assert(rest@ =~= orig.skip(k + 1));
        }
    }
    assert(orig.take(orig.len() as int) =~= orig);
    kept
}

/// The list in reverse order.
pub fn reverse_proposal_infos(proposal_infos: Vec<ProposalInfo>) -> (res: Vec<ProposalInfo>)
    ensures
        res@ == proposal_infos@.reverse(),
{
    let ghost orig = proposal_infos@;
    let mut rest = proposal_infos;
    let mut out: Vec<ProposalInfo> = Vec::new();
    while rest.len() > 0
        invariant
            rest.len() + out.len() == orig.len(),
            rest@ == orig.take(rest.len() as int),
            forall|i: int| 0 <= i < out.len() ==> #[trigger] out@[i] == orig[orig.len() - 1 - i],
        decreases rest.len(),
    {
        let info = rest.pop().unwrap();
        out.push(info);
        assert(rest@ =~= orig.take(rest.len() as int));
    }
    assert(out@ =~= orig.reverse());
    out
}

/// The identifiers of the answer's proposals, in order.
pub fn answer_ids_of(proposal_infos: &Vec<ProposalInfo>) -> (res: Vec<Option<u64>>)
    ensures
        res@ == answer_ids(proposal_infos@),
{
    let n = proposal_infos.len();
    let mut ids: Vec<Option<u64>> = Vec::new();
    let mut i: usize = 0;
    while i < n
        invariant
            n == proposal_infos@.len(),
            i <= n,
            ids@ == answer_ids(proposal_infos@.take(i as int)),
        decreases n - i,
    {
        let id = match &proposal_infos[i].id {
            Some(neuron_id) => Some(neuron_id.id),
            None => None,
        };
        ids.push(id);
        assert(proposal_infos@.take(i + 1).drop_last() =~= proposal_infos@.take(i as int));
        i = i + 1;
        assert(ids@ =~= answer_ids(proposal_infos@.take(i as int)));
    }
    assert(proposal_infos@.take(n as int) =~= proposal_infos@);
    ids
}

/// Whether the two sequences of identifiers are the same.
fn same_ids(a: &Vec<Option<u64>>, b: &Vec<Option<u64>>) -> (res: bool)
    ensures
        res == (a@ == b@),
{
    if a.len() != b.len() {
        return false;
    }
    let n = a.len();
    let mut i: usize = 0;
    while i < n
        invariant
            n == a@.len(),
            n == b@.len(),
            i <= n,
            forall|j: int| 0 <= j < i ==> a@[j] == b@[j],
        decreases n - i,
    {
        let equal = match (&a[i], &b[i]) {
            (Some(x), Some(y)) => *x == *y,
            (None, None) => true,
            _ => false,
        };
        if !equal {
            return false;
        }
        i = i + 1;
    }
    assert(a@ =~= b@);
    true
}

/// Where a round of fetching stands: the last proposal announced, the
/// number of proposals that the latest request asked for, and the
/// identifiers in the answer to the request before it, if any.
#[derive(Debug, Clone, PartialEq, Eq)]
pub struct ProposalFetch {
    pub last_proposal_id: u64,
    pub requested: u32,
    pub previous_answer: Option<Vec<Option<u64>>>,
}

/// What follows an answer of `list_proposals`.
#[derive(Debug, PartialEq, Eq)]
pub enum FetchStep {
    /// Ask `list_proposals` again, for this many proposals.
    Request(u32),
    /// The proposals to announce, oldest first.
    Ready(Vec<ProposalInfo>),
    /// The call failed with this message; the round ends.
    Failed(String),
}

impl ProposalFetch {
    /// Starts a round: the first request asks for `limit` proposals.
    pub fn new(last_proposal_id: u64, limit: u32) -> (res: ProposalFetch)
        ensures
            res.last_proposal_id == last_proposal_id,
            res.requested == limit,
            res.previous_answer is None,
    {
        ProposalFetch { last_proposal_id, requested: limit, previous_answer: None }
    }

    /// The number of proposals that the first request of the round asks for.
    pub fn first_request(&self) -> (res: u32)
        ensures
            res == self.requested,
    {
        self.requested
    }

    /// Whether one more proposal than the latest request can be asked for
    /// within a `u32`.
    pub fn next_request_fits(&self) -> (res: bool)
        ensures
            res == (self.requested < u32::MAX),
    {
        self.requested < u32::MAX
    }

    /// Whether the answer ends the round (see `round_ends`).
    pub fn ends_round(&self, proposal_infos: &Vec<ProposalInfo>) -> (res: bool)
        ensures
            res == round_ends(proposal_infos@, *self),
    {
        proof {
            lemma_newer_count(proposal_infos@, self.last_proposal_id);
        }
        let newer = count_newer_proposals(self.last_proposal_id, proposal_infos);
        if newer < proposal_infos.len() {
            return true;
        }
        if proposal_infos.len() >= self.requested as usize {
            return false;
        }
        match &self.previous_answer {
            Some(previous) => {
                let ids = answer_ids_of(proposal_infos);
                same_ids(previous, &ids)
            },
            None => false,
        }
    }

    /// Takes the outcome of the latest `list_proposals` request. A failure
    /// ends the round. An answer that ends the round (`round_ends`) gives
    /// the proposals that come before the first one announced or older,
    /// oldest first; any other answer is remembered and one proposal more
    /// than the latest request is asked for.
    pub fn step(&mut self, outcome: Result<Vec<ProposalInfo>, String>) -> (res: FetchStep)
        requires
            match outcome {
                Ok(infos) => !round_ends(infos@, *old(self)) ==> old(self).requested < u32::MAX,
                Err(_) => true,
            },
        ensures
            match outcome {
                Err(e) => res == FetchStep::Failed(e) && *final(self) == *old(self),
                Ok(infos) => if round_ends(infos@, *old(self)) {
                    &&& res matches FetchStep::Ready(v) && v@ == ready_list(infos@, old(self).last_proposal_id)
                    &&& *final(self) == *old(self)
                } else {
                    &&& res == FetchStep::Request((old(self).requested + 1) as u32)
                    &&& final(self).last_proposal_id == old(self).last_proposal_id
                    &&& final(self).requested == old(self).requested + 1
                    &&& final(self).previous_answer matches Some(p) && p@ == answer_ids(infos@)
                },
            },
            outcome matches Ok(infos) && infos@.len() >= old(self).requested && (forall|i: int|
                0 <= i < infos@.len() ==> !((#[trigger] infos@[i]).id matches Some(n) && n.id <= old(
                    self,
                ).last_proposal_id)) ==> res == FetchStep::Request((old(self).requested + 1) as u32),
    {
        match outcome {
            Err(e) => FetchStep::Failed(e),
            Ok(infos) => {
                if self.ends_round(&infos) {
                    let newer = count_newer_proposals(self.last_proposal_id, &infos);
                    proof {
                        lemma_newer_count(infos@, self.last_proposal_id);
                    }
                    let mut front = infos;
                    front.truncate(newer);
                    assert(front@ =~= infos@.take(newer as int));
                    FetchStep::Ready(reverse_proposal_infos(front))
                } else {
                    let ids = answer_ids_of(&infos);
                    self.previous_answer = Some(ids);
                    self.requested = self.requested + 1;
                    FetchStep::Request(self.requested)
                }
            },
        }
    }
}

/// Filtering a sequence with a pushed element: the element stays exactly
/// when the test keeps it.
proof fn lemma_filter_push(s: Seq<ProposalInfo>, x: ProposalInfo, p: spec_fn(ProposalInfo) -> bool)
    ensures
        s.push(x).filter(p) == (if p(x) {
            s.filter(p).push(x)
        } else {
            s.filter(p)
        }),
{
    reveal_with_fuel(Seq::filter, 1);
    assert(s.push(x).drop_last() =~= s);
}

/// Removing the proposals of one identifier and then those of another
/// gives the same list as removing them the other way round.
pub proof fn lemma_removals_commute(infos: Seq<ProposalInfo>, x: u64, y: u64)
    ensures
        without_proposal(without_proposal(infos, x), y) == without_proposal(
            without_proposal(infos, y),
            x,
        ),
    decreases infos.len(),
{
    if infos.len() == 0 {
        reveal_with_fuel(Seq::filter, 1);
    } else {
        let rest = infos.drop_last();
        let l = infos.last();
        lemma_removals_commute(rest, x, y);
        assert(infos =~= rest.push(l));
        lemma_filter_push(rest, l, keeps(x));
        lemma_filter_push(rest, l, keeps(y));
        lemma_filter_push(rest.filter(keeps(x)), l, keeps(y));
        lemma_filter_push(rest.filter(keeps(y)), l, keeps(x));
    }
}

/// A round never ends on an answer that holds as many proposals as were
/// asked for and none with an identifier at most the last one announced:
/// such an answer always leads to one more request.
pub proof fn lemma_full_answer_asks_again(infos: Seq<ProposalInfo>, fetch: ProposalFetch)
    requires
        infos.len() >= fetch.requested,
        forall|i: int|
            0 <= i < infos.len() ==> !((#[trigger] infos[i]).id matches Some(n) && n.id
                <= fetch.last_proposal_id),
    ensures
        !round_ends(infos, fetch),
{
    if reaches_announced(infos, fetch.last_proposal_id) {
        let i = choose|i: int|
            0 <= i < infos.len() && #[trigger] announced_or_older(infos[i], fetch.last_proposal_id);
        assert(!(infos[i].id matches Some(n) && n.id <= fetch.last_proposal_id));
    }
}

/// A round ends only on an answer that holds a proposal with an identifier
/// at most the last one announced, or on a short answer that lists, in
/// order, the same identifiers as the answer to the request before.
pub proof fn lemma_round_ends_only_when_reached_or_unchanged(
    infos: Seq<ProposalInfo>,
    fetch: ProposalFetch,
)
    requires
        round_ends(infos, fetch),
    ensures
        (exists|i: int|
            0 <= i < infos.len() && ((#[trigger] infos[i]).id matches Some(n) && n.id
                <= fetch.last_proposal_id))
            || {
            &&& infos.len() < fetch.requested
            &&& fetch.previous_answer matches Some(p) && p@.len() == infos.len() && forall|i: int|
                0 <= i < infos.len() ==> #[trigger] p@[i] == match infos[i].id {
                    Some(n) => Some(n.id),
                    None => None::<u64>,
                }
        },
{
    if reaches_announced(infos, fetch.last_proposal_id) {
        let i = choose|i: int|
            0 <= i < infos.len() && #[trigger] announced_or_older(infos[i], fetch.last_proposal_id);
        assert(infos[i].id matches Some(n) && n.id <= fetch.last_proposal_id);
    } else {
        let p = fetch.previous_answer.unwrap();
        assert forall|i: int| 0 <= i < infos.len() implies p@[i] == match infos[i].id {
            Some(n) => Some(n.id),
            None => None::<u64>,
        } by {
            assert(p@[i] == answer_ids(infos)[i]);
        }
    }
}

/// The list holds proposal `id` exactly when one of its proposals carries
/// that identifier.
pub proof fn lemma_contains_means_some_carries(infos: Seq<ProposalInfo>, id: u64)
    ensures
        contains_proposal(infos, id) <==> exists|i: int|
            0 <= i < infos.len() && (#[trigger] infos[i]).id == Some(NeuronId { id }),
{
    if contains_proposal(infos, id) {
        let i = choose|i: int| 0 <= i < infos.len() && #[trigger] has_id(infos[i], id);
        assert(infos[i].id == Some(NeuronId { id }));
    }
    if exists|i: int| 0 <= i < infos.len() && (#[trigger] infos[i]).id == Some(NeuronId { id }) {
        let i = choose|i: int| 0 <= i < infos.len() && (#[trigger] infos[i]).id == Some(NeuronId { id });
        assert(has_id(infos[i], id));
    }
}

/// Removing proposal `id` leaves no proposal with that identifier, keeps
/// every other proposal of the list, and adds none.
pub proof fn lemma_removal_is_exact(infos: Seq<ProposalInfo>, id: u64)
    ensures
        forall|k: int|
            0 <= k < without_proposal(infos, id).len() ==> (#[trigger] without_proposal(
                infos,
                id,
            )[k]).id != Some(NeuronId { id }),
        forall|i: int|
            0 <= i < infos.len() && (#[trigger] infos[i]).id != Some(NeuronId { id })
                ==> without_proposal(infos, id).contains(infos[i]),
        forall|k: int|
            0 <= k < without_proposal(infos, id).len() ==> infos.contains(
                #[trigger] without_proposal(infos, id)[k],
            ),
        without_proposal(infos, id).len() <= infos.len(),
{
    broadcast use vstd::seq_lib::group_filter_ensures;

    let w = without_proposal(infos, id);
    assert forall|k: int| 0 <= k < w.len() implies (#[trigger] w[k]).id != Some(NeuronId { id }) by {
        infos.lemma_filter_pred(keeps(id), k);
    }
    assert forall|i: int|
        0 <= i < infos.len() && (#[trigger] infos[i]).id != Some(NeuronId { id }) implies w.contains(
        infos[i],
    ) by {
        infos.lemma_filter_contains(keeps(id), i);
    }
    assert forall|k: int| 0 <= k < w.len() implies infos.contains(#[trigger] w[k]) by {
        assert(w.contains(w[k]));
        infos.lemma_filter_contains_rev(keeps(id), w[k]);
    }
}

} // verus!
