//! What the bot remembers between heartbeats, and the decision of a
//! heartbeat.
use vstd::prelude::*;

verus! {

/// The proposal that counts as announced before the bot's first round.
pub const INITIAL_LAST_PROPOSAL_ID_SENT: u64 = 52537;

/// The bot's memory: the last proposal announced, the last failure of
/// `list_proposals` and the last answer to `send_message` (each with the
/// time it came), and the time of the previous round (0 before the first
/// heartbeat).
pub struct BotState {
    pub last_proposal_id_sent: u64,
    pub list_proposals_error: (u64, String),
    pub previous_process_time: u64,
    pub send_message_response: (u64, String),
}

/// The time that a heartbeat at `now` measures the interval from: the
/// previous round's time, or `now` itself at the first heartbeat.
pub open spec fn heartbeat_start(previous: u64, now: u64) -> u64 {
    if previous == 0 {
        now
    } else {
        previous
    }
}

/// A heartbeat at `now` starts a round: more than `interval` has passed
/// since the previous round.
pub open spec fn heartbeat_processes(previous: u64, now: u64, interval: u64) -> bool {
    now > heartbeat_start(previous, now) + interval
}

/// The time of the previous round after a heartbeat at `now`.
pub open spec fn heartbeat_next(previous: u64, now: u64, interval: u64) -> u64 {
    if heartbeat_processes(previous, now, interval) {
        now
    } else {
        heartbeat_start(previous, now)
    }
}

/// The heartbeat's sum `start + interval` fits in a `u64`.
pub open spec fn heartbeat_in_range(previous: u64, now: u64, interval: u64) -> bool {
    heartbeat_start(previous, now) + interval <= u64::MAX
}

/// The bot's memory as values: the texts by their characters.
pub struct BotStateView {
    pub last_proposal_id_sent: u64,
    pub list_proposals_error: (u64, Seq<char>),
    pub previous_process_time: u64,
    pub send_message_response: (u64, Seq<char>),
}

impl View for BotState {
    type V = BotStateView;

    open spec fn view(&self) -> BotStateView {
        BotStateView {
            last_proposal_id_sent: self.last_proposal_id_sent,
            list_proposals_error: (self.list_proposals_error.0, self.list_proposals_error.1@),
            previous_process_time: self.previous_process_time,
            send_message_response: (self.send_message_response.0, self.send_message_response.1@),
        }
    }
}

/// An update of the bot's memory.
pub enum BotEvent {
    /// A heartbeat at `now` with the given interval between rounds.
    Heartbeat { now: u64, interval: u64 },
    /// `list_proposals` failed at `now` with `error`.
    ListProposalsFailed { now: u64, error: Seq<char> },
    /// `send_message` answered `response` at `now`.
    MessageAnswered { now: u64, response: Seq<char> },
    /// Proposal `id` was announced.
    ProposalSent { id: u64 },
}

/// The memory of a freshly installed bot.
pub open spec fn initial_view() -> BotStateView {
    BotStateView {
        last_proposal_id_sent: INITIAL_LAST_PROPOSAL_ID_SENT,
        list_proposals_error: (0, Seq::empty()),
        previous_process_time: 0,
        send_message_response: (0, Seq::empty()),
    }
}

/// The memory after one update.
pub open spec fn apply_event(v: BotStateView, e: BotEvent) -> BotStateView {
    match e {
        BotEvent::Heartbeat { now, interval } => BotStateView {
            previous_process_time: heartbeat_next(v.previous_process_time, now, interval),
            ..v
        },
        BotEvent::ListProposalsFailed { now, error } => BotStateView {
            list_proposals_error: (now, error),
            ..v
        },
        BotEvent::MessageAnswered { now, response } => BotStateView {
            send_message_response: (now, response),
            ..v
        },
        BotEvent::ProposalSent { id } => BotStateView { last_proposal_id_sent: id, ..v },
    }
}

/// The memory after the updates of `history`, in order.
pub open spec fn run_events(v: BotStateView, history: Seq<BotEvent>) -> BotStateView
    decreases history.len(),
{
    if history.len() == 0 {
        v
    } else {
        apply_event(run_events(v, history.drop_last()), history.last())
    }
}

impl BotState {
    /// The state of a freshly installed bot.
    pub fn new() -> (res: BotState)
        ensures
            res.last_proposal_id_sent == INITIAL_LAST_PROPOSAL_ID_SENT,
            res.list_proposals_error.0 == 0,
            res.list_proposals_error.1@.len() == 0,
            res.previous_process_time == 0,
            res.send_message_response.0 == 0,
            res.send_message_response.1@.len() == 0,
            res@ == initial_view(),
    {
        BotState {
            last_proposal_id_sent: INITIAL_LAST_PROPOSAL_ID_SENT,
            list_proposals_error: (0, String::new()),
            previous_process_time: 0,
            send_message_response: (0, String::new()),
        }
    }

    /// The time of the previous round.
    pub fn previous_process_time(&self) -> (res: u64)
        ensures
            res == self.previous_process_time,
    {
        self.previous_process_time
    }

    /// The last proposal announced.
    pub fn last_proposal_id_sent(&self) -> (res: u64)
        ensures
            res == self.last_proposal_id_sent,
    {
        self.last_proposal_id_sent
    }

    /// The last failure of `list_proposals` and its time.
    pub fn list_proposals_error(&self) -> (res: (u64, String))
        ensures
            res.0 == self.list_proposals_error.0,
            res.1@ == self.list_proposals_error.1@,
    {
        (self.list_proposals_error.0, self.list_proposals_error.1.clone())
    }

    /// The last answer to `send_message` and its time.
    pub fn send_message_response(&self) -> (res: (u64, String))
        ensures
            res.0 == self.send_message_response.0,
            res.1@ == self.send_message_response.1@,
    {
        (self.send_message_response.0, self.send_message_response.1.clone())
    }

    /// A heartbeat at time `now`. The first heartbeat takes `now` as the
    /// previous round's time; a round starts, and becomes the previous one,
    /// when more than `process_interval` has passed since the previous one.
    /// Returns whether a round starts.
    pub fn heartbeat(&mut self, now: u64, process_interval: u64) -> (res: bool)
        requires
            heartbeat_in_range(old(self).previous_process_time, now, process_interval),
        ensures
            res == heartbeat_processes(old(self).previous_process_time, now, process_interval),
            final(self).previous_process_time == heartbeat_next(
                old(self).previous_process_time,
                now,
                process_interval,
            ),
            final(self).last_proposal_id_sent == old(self).last_proposal_id_sent,
            final(self).list_proposals_error == old(self).list_proposals_error,
            final(self).send_message_response == old(self).send_message_response,
            old(self).previous_process_time == 0 ==> !res && final(self).previous_process_time
                == now,
            final(self)@ == apply_event(
                old(self)@,
                BotEvent::Heartbeat { now, interval: process_interval },
            ),
    {
        if self.previous_process_time == 0 {
            self.previous_process_time = now;
        }
        if now > self.previous_process_time + process_interval {
            self.previous_process_time = now;
            true
        } else {
            false
        }
    }

    /// Whether a heartbeat at `now` stays in the range of `u64`.
    pub fn heartbeat_fits(&self, now: u64, process_interval: u64) -> (res: bool)
        ensures
            res == heartbeat_in_range(self.previous_process_time, now, process_interval),
    {
        let start = if self.previous_process_time == 0 {
            now
        } else {
            self.previous_process_time
        };
        start <= u64::MAX - process_interval
    }

    /// Remembers that `list_proposals` failed at `now` with `error`.
    pub fn record_list_proposals_error(&mut self, now: u64, error: String)
        ensures
            final(self).list_proposals_error == (now, error),
            final(self).last_proposal_id_sent == old(self).last_proposal_id_sent,
            final(self).previous_process_time == old(self).previous_process_time,
            final(self).send_message_response == old(self).send_message_response,
            final(self)@ == apply_event(
                old(self)@,
                BotEvent::ListProposalsFailed { now, error: error@ },
            ),
    {
        self.list_proposals_error = (now, error);
    }

    /// Remembers the answer to `send_message` that came at `now`.
    pub fn record_send_message_response(&mut self, now: u64, response: String)
        ensures
            final(self).send_message_response == (now, response),
            final(self).last_proposal_id_sent == old(self).last_proposal_id_sent,
            final(self).previous_process_time == old(self).previous_process_time,
            final(self).list_proposals_error == old(self).list_proposals_error,
            final(self)@ == apply_event(
                old(self)@,
                BotEvent::MessageAnswered { now, response: response@ },
            ),
    {
        self.send_message_response = (now, response);
    }

    /// Remembers that proposal `id` was announced.
    pub fn record_proposal_sent(&mut self, id: u64)
        ensures
            final(self).last_proposal_id_sent == id,
            final(self).previous_process_time == old(self).previous_process_time,
            final(self).list_proposals_error == old(self).list_proposals_error,
            final(self).send_message_response == old(self).send_message_response,
            final(self)@ == apply_event(old(self)@, BotEvent::ProposalSent { id }),
    {
        self.last_proposal_id_sent = id;
    }
}

impl BotState {
    /// Remembers the announcement of proposal `proposal_id`: the answer to
    /// `send_message` that came at `now`, and the proposal as the last one
    /// announced, whatever the answer was.
    pub fn record_announcement(&mut self, now: u64, response: String, proposal_id: u64)
        ensures
            final(self).send_message_response == (now, response),
            final(self).last_proposal_id_sent == proposal_id,
            final(self).previous_process_time == old(self).previous_process_time,
            final(self).list_proposals_error == old(self).list_proposals_error,
            final(self)@ == apply_event(
                apply_event(old(self)@, BotEvent::MessageAnswered { now, response: response@ }),
                BotEvent::ProposalSent { id: proposal_id },
            ),
    {
        self.record_send_message_response(now, response);
        self.record_proposal_sent(proposal_id);
    }
}

/// A heartbeat that starts no round leaves the time of the previous round
/// as it was, once there has been a heartbeat.
pub proof fn lemma_quiet_heartbeat_keeps_time(previous: u64, now: u64, interval: u64)
    requires
        previous != 0,
        !heartbeat_processes(previous, now, interval),
    ensures
        heartbeat_next(previous, now, interval) == previous,
{
}

/// After a round at `now`, the next heartbeat at `later` starts a round
/// exactly when more than the interval has passed since `now`: two rounds
/// are always more than an interval apart.
pub proof fn lemma_rounds_are_an_interval_apart(
    previous: u64,
    now: u64,
    later: u64,
    interval: u64,
)
    requires
        heartbeat_processes(previous, now, interval),
    ensures
        heartbeat_next(previous, now, interval) == now,
        now != 0,
        heartbeat_processes(heartbeat_next(previous, now, interval), later, interval) <==> later
            > now + interval,
{
}

/// The first heartbeat never starts a round.
pub proof fn lemma_first_heartbeat_only_starts_the_clock(now: u64, interval: u64)
    ensures
        !heartbeat_processes(0, now, interval),
        heartbeat_next(0, now, interval) == now,
{
}

/// The time of the previous round after heartbeats at `times`, in order,
/// with the same interval.
pub open spec fn after_heartbeats(previous: u64, times: Seq<u64>, interval: u64) -> u64
    decreases times.len(),
{
    if times.len() == 0 {
        previous
    } else {
        after_heartbeats(heartbeat_next(previous, times[0], interval), times.drop_first(), interval)
    }
}

/// The times, among `times`, of the heartbeats that started a round.
pub open spec fn rounds_started(previous: u64, times: Seq<u64>, interval: u64) -> Seq<u64>
    decreases times.len(),
{
    if times.len() == 0 {
        Seq::empty()
    } else {
        let rest = rounds_started(
            heartbeat_next(previous, times[0], interval),
            times.drop_first(),
            interval,
        );
        if heartbeat_processes(previous, times[0], interval) {
            seq![times[0]] + rest
        } else {
            rest
        }
    }
}

/// Over any run of heartbeats, at most one round starts per interval: each
/// round starts more than an interval after the one before it (and after
/// the previous round the run began with, if any).
pub proof fn lemma_at_most_one_round_per_interval(previous: u64, times: Seq<u64>, interval: u64)
    ensures
        forall|k: int|
            0 <= k < rounds_started(previous, times, interval).len() - 1 ==> (#[trigger] rounds_started(
                previous,
                times,
                interval,
            )[k + 1]) > rounds_started(previous, times, interval)[k] + interval,
        previous != 0 ==> forall|k: int|
            0 <= k < rounds_started(previous, times, interval).len() ==> #[trigger] rounds_started(
                previous,
                times,
                interval,
            )[k] > previous + interval,
    decreases times.len(),
{
    if times.len() > 0 {
        let t0 = times[0];
        let next = heartbeat_next(previous, t0, interval);
        let rest = rounds_started(next, times.drop_first(), interval);
        lemma_at_most_one_round_per_interval(next, times.drop_first(), interval);
        let rounds = rounds_started(previous, times, interval);
        if heartbeat_processes(previous, t0, interval) {
            assert(rounds == seq![t0] + rest);
            assert(next == t0 && t0 != 0);
            assert forall|k: int| 0 <= k < rounds.len() - 1 implies (#[trigger] rounds[k + 1])
                > rounds[k] + interval by {
                assert(rounds[k + 1] == rest[k]);
                if k > 0 {
                    assert(rounds[k] == rest[k - 1]);
                    assert(rest[(k - 1) + 1] > rest[k - 1] + interval);
                } else {
                    assert(rounds[0] == t0);
                    assert(rest[k] > next + interval);
                }
            }
            if previous != 0 {
                assert forall|k: int| 0 <= k < rounds.len() implies #[trigger] rounds[k] > previous
                    + interval by {
                    if k > 0 {
                        assert(rounds[k] == rest[k - 1]);
                        assert(rest[k - 1] > next + interval);
                    }
                }
            }
        } else {
            assert(rounds == rest);
        }
    }
}

/// Polling never stops: whatever heartbeats came before, once the previous
/// round is set, a heartbeat more than an interval after it starts a round.
pub proof fn lemma_polling_never_stops(previous: u64, times: Seq<u64>, interval: u64, now: u64)
    requires
        after_heartbeats(previous, times, interval) != 0,
        now > after_heartbeats(previous, times, interval) + interval,
    ensures
        heartbeat_processes(after_heartbeats(previous, times, interval), now, interval),
        heartbeat_next(after_heartbeats(previous, times, interval), now, interval) == now,
{
}

/// The last proposal announced in `history`, or `default` when there is
/// none.
pub open spec fn last_sent_in(history: Seq<BotEvent>, default: u64) -> u64
    decreases history.len(),
{
    if history.len() == 0 {
        default
    } else {
        match history.last() {
            BotEvent::ProposalSent { id } => id,
            _ => last_sent_in(history.drop_last(), default),
        }
    }
}

/// The last failure of `list_proposals` in `history`, or `default`.
pub open spec fn last_failure_in(history: Seq<BotEvent>, default: (u64, Seq<char>)) -> (
    u64,
    Seq<char>,
)
    decreases history.len(),
{
    if history.len() == 0 {
        default
    } else {
        match history.last() {
            BotEvent::ListProposalsFailed { now, error } => (now, error),
            _ => last_failure_in(history.drop_last(), default),
        }
    }
}

/// The last answer to `send_message` in `history`, or `default`.
pub open spec fn last_answer_in(history: Seq<BotEvent>, default: (u64, Seq<char>)) -> (
    u64,
    Seq<char>,
)
    decreases history.len(),
{
    if history.len() == 0 {
        default
    } else {
        match history.last() {
            BotEvent::MessageAnswered { now, response } => (now, response),
            _ => last_answer_in(history.drop_last(), default),
        }
    }
}

/// The heartbeats of `history`, in order.
pub open spec fn heartbeats_of(history: Seq<BotEvent>) -> Seq<BotEvent>
    decreases history.len(),
{
    if history.len() == 0 {
        Seq::empty()
    } else {
        let rest = heartbeats_of(history.drop_last());
        if history.last() is Heartbeat {
            rest.push(history.last())
        } else {
            rest
        }
    }
}

/// What the queries answer after any history of updates: the last
/// proposal announced, the last failure of `list_proposals` and the last
/// answer to `send_message` are those of the latest such update (or as they
/// were before), and the time of the previous round depends on the
/// heartbeats alone.
pub proof fn lemma_queries_after_history(v: BotStateView, history: Seq<BotEvent>)
    ensures
        run_events(v, history).last_proposal_id_sent == last_sent_in(
            history,
            v.last_proposal_id_sent,
        ),
        run_events(v, history).list_proposals_error == last_failure_in(
            history,
            v.list_proposals_error,
        ),
        run_events(v, history).send_message_response == last_answer_in(
            history,
            v.send_message_response,
        ),
        run_events(v, history).previous_process_time == run_events(
            v,
            heartbeats_of(history),
        ).previous_process_time,
    decreases history.len(),
{
    if history.len() > 0 {
        let rest = history.drop_last();
        lemma_queries_after_history(v, rest);
        let h = heartbeats_of(history);
        if history.last() is Heartbeat {
            assert(h.drop_last() =~= heartbeats_of(rest));
        } else {
            assert(h =~= heartbeats_of(rest));
        }
    }
}

/// A heartbeat no earlier than the previous round never moves the time of
/// the previous round back.
pub proof fn lemma_previous_time_never_decreases(previous: u64, now: u64, interval: u64)
    requires
        now >= previous,
    ensures
        heartbeat_next(previous, now, interval) >= previous,
{
}

/// Over a run of heartbeats at non-decreasing times, none earlier than the
/// previous round, the time of the previous round never decreases.
pub proof fn lemma_previous_time_is_monotone(previous: u64, times: Seq<u64>, interval: u64)
    requires
        forall|i: int, j: int| 0 <= i <= j < times.len() ==> times[i] <= times[j],
        times.len() > 0 ==> times[0] >= previous,
    ensures
        after_heartbeats(previous, times, interval) >= previous,
    decreases times.len(),
{
    if times.len() > 0 {
        let next = heartbeat_next(previous, times[0], interval);
        let rest = times.drop_first();
        if rest.len() > 0 {
            assert(rest[0] == times[1]);
            assert(next == times[0] || next == previous);
        }
        lemma_previous_time_is_monotone(next, rest, interval);
    }
}

/// Once set, the time of the previous round is the time of the latest
/// heartbeat that started a round, or stays as it was when none did.
pub proof fn lemma_previous_time_is_latest_round(previous: u64, times: Seq<u64>, interval: u64)
    requires
        previous != 0,
    ensures
        rounds_started(previous, times, interval).len() == 0 ==> after_heartbeats(
            previous,
            times,
            interval,
        ) == previous,
        rounds_started(previous, times, interval).len() > 0 ==> after_heartbeats(
            previous,
            times,
            interval,
        ) == rounds_started(previous, times, interval).last(),
    decreases times.len(),
{
    if times.len() > 0 {
        let t0 = times[0];
        let next = heartbeat_next(previous, t0, interval);
        let rest = rounds_started(next, times.drop_first(), interval);
        lemma_previous_time_is_latest_round(next, times.drop_first(), interval);
        if heartbeat_processes(previous, t0, interval) {
            let rounds = rounds_started(previous, times, interval);
            assert(rounds == seq![t0] + rest);
            if rest.len() > 0 {
                assert(rounds.last() == rest.last());
            }
        }
    }
}

/// Since installation, the time of the previous round is 0 before any
/// heartbeat; after heartbeats (the first at a nonzero time) it is the time
/// of the latest heartbeat that started a round, or of the first heartbeat
/// when none did.
pub proof fn lemma_previous_time_since_install(times: Seq<u64>, interval: u64)
    requires
        times.len() > 0 ==> times[0] != 0,
    ensures
        times.len() == 0 ==> after_heartbeats(0, times, interval) == 0,
        times.len() > 0 && rounds_started(0, times, interval).len() == 0 ==> after_heartbeats(
            0,
            times,
            interval,
        ) == times[0],
        rounds_started(0, times, interval).len() > 0 ==> after_heartbeats(0, times, interval)
            == rounds_started(0, times, interval).last(),
{
    if times.len() > 0 {
        assert(!heartbeat_processes(0, times[0], interval));
        assert(heartbeat_next(0, times[0], interval) == times[0]);
        lemma_previous_time_is_latest_round(times[0], times.drop_first(), interval);
    }
}

/// A heartbeat starts a round exactly when the clock is already set and
/// more than the interval has passed since the previous round; afterwards
/// the previous round's time is `now` if a round started or the clock was
/// not set, and stays as it was otherwise.
pub proof fn lemma_heartbeat_decision(previous: u64, now: u64, interval: u64)
    ensures
        heartbeat_processes(previous, now, interval) <==> (previous != 0 && now > previous
            + interval),
        heartbeat_next(previous, now, interval) == (if previous == 0 || now > previous + interval {
            now
        } else {
            previous
        }),
{
}

} // verus!
