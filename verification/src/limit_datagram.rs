//! Datagram sockets that send and receive no faster than a session allows.
//!
//! A datagram goes through whole, however little is left of a grant. `send_to` (or `recv_from`)
//! says what comes next: a limiter that has to let a piece through, or the datagram itself. The
//! caller waits for the limiter and calls again with the piece, or passes the datagram to the
//! socket underneath and hands the outcome to `sent` (or `received`).

use crate::speed_limiter::{
    law_chain_is_fixed, law_session_keeps_accounts, lemma_fresh_session_holds_nothing,
    LimitSettings, SessionStep, SpeedLimitSession, SpeedLimiterRef,
};
use vstd::prelude::*;

verus! {

/// How far a grant is used up.
#[derive(Debug, Clone, Copy, PartialEq, Eq, Structural)]
pub enum DatagramState {
    /// Nothing is granted.
    Idle,
    /// `limit` bytes are granted, and the first datagram under the grant is on its way. Until that
    /// has gone through, the grant is not in hand: where the caller gives up on the datagram, it is
    /// forfeited.
    Offered { limit: usize },
    /// `limit` bytes were granted, and datagrams with `used` bytes have gone through since.
    Spending { limit: usize, used: usize },
}

/// What a limited socket needs next.
pub enum DatagramStep<C = LimitSettings> {
    /// This limiter has to let a piece through.
    Acquire(SpeedLimiterRef<C>),
    /// The datagram is to go through.
    Pass,
}

impl DatagramState {
    pub open spec fn wf(self) -> bool {
        self matches DatagramState::Spending { limit, used } ==> used <= limit
    }

    /// The bytes that may still go through under the grant.
    pub open spec fn allowance(self) -> nat {
        match self {
            DatagramState::Idle => 0,
            DatagramState::Offered { limit } => limit as nat,
            DatagramState::Spending { limit, used } => (limit - used) as nat,
        }
    }

    /// What is left of a grant after a datagram of `len` bytes. The first one may use it up to the
    /// last byte. A later one that reaches its end gives it back.
    pub open spec fn passed(self, len: usize) -> DatagramState {
        match self {
            DatagramState::Offered { limit } if len <= limit => DatagramState::Spending {
                limit,
                used: len,
            },
            DatagramState::Spending { limit, used } if used + len < limit =>
                DatagramState::Spending { limit, used: (used + len) as usize },
            _ => DatagramState::Idle,
        }
    }

    /// What is left of a grant after a datagram that failed: a grant in hand stays, and one that
    /// was just offered is forfeited.
    pub open spec fn failed(self) -> DatagramState {
        match self {
            DatagramState::Spending { .. } => self,
            _ => DatagramState::Idle,
        }
    }

    /// What is left of a grant after a datagram that came to `result`.
    pub open spec fn settled<E>(self, result: Result<usize, E>) -> DatagramState {
        match result {
            Ok(len) => self.passed(len),
            Err(_) => self.failed(),
        }
    }
}

/// A session, and how far its last grant is used up.
pub struct DatagramThrottle<C = LimitSettings> {
    pub limiter: SpeedLimitSession<C>,
    pub state: DatagramState,
}

impl<C> DatagramThrottle<C> {
    pub open spec fn wf(self) -> bool {
        self.state.wf()
    }

    /// Whether `piece` can be handed over: none while a grant is in hand, and otherwise what the
    /// session accepts.
    pub open spec fn accepts(self, piece: Option<usize>) -> bool {
        if self.state is Spending {
            piece is None
        } else {
            self.limiter.accepts(piece)
        }
    }

    /// Where the throttle stands once `piece` is in, and what it needs next. A new grant is asked
    /// for only where none is in hand.
    pub open spec fn started(self, piece: Option<usize>) -> (
        DatagramThrottle<C>,
        DatagramStep<C>,
    ) {
        if self.state is Spending {
            (self, DatagramStep::Pass)
        } else {
            let (limiter, step) = self.limiter.advanced(piece);
            match step {
                SessionStep::Acquire(awaited) => (
                    DatagramThrottle { limiter, state: DatagramState::Idle },
                    DatagramStep::Acquire(awaited),
                ),
                SessionStep::Granted(limit) => (
                    DatagramThrottle { limiter, state: DatagramState::Offered { limit } },
                    DatagramStep::Pass,
                ),
            }
        }
    }

    pub fn new(limiter: SpeedLimitSession<C>) -> (throttle: DatagramThrottle<C>)
        ensures
            throttle == (DatagramThrottle { limiter, state: DatagramState::Idle }),
            throttle.wf(),
    {
        DatagramThrottle { limiter, state: DatagramState::Idle }
    }

    /// Takes a datagram to a limiter that has to let a piece through, or to where it may pass.
    pub fn start(&mut self, piece: Option<usize>) -> (step: DatagramStep<C>)
        requires
            old(self).wf(),
            old(self).accepts(piece),
        ensures
            (*final(self), step) == old(self).started(piece),
            final(self).wf(),
            step is Pass <==> final(self).state !is Idle,
            step is Acquire ==> final(self).limiter.held_at() is Some,
    {
        if let DatagramState::Spending { .. } = self.state {
            return DatagramStep::Pass;
        }
        match self.limiter.until_ready(piece) {
            SessionStep::Acquire(awaited) => {
                self.state = DatagramState::Idle;
                DatagramStep::Acquire(awaited)
            },
            SessionStep::Granted(limit) => {
                self.state = DatagramState::Offered { limit };
                DatagramStep::Pass
            },
        }
    }

    /// Takes note of what a datagram came to.
    pub fn settle<E>(&mut self, result: &Result<usize, E>)
        requires
            old(self).wf(),
            old(self).state !is Idle,
        ensures
            *final(self) == (DatagramThrottle {
                state: old(self).state.settled(*result),
                ..*old(self)
            }),
            final(self).wf(),
    {
        match (result, self.state) {
            (Ok(len), DatagramState::Offered { limit }) => {
                if *len > limit {
                    self.state = DatagramState::Idle;
                } else {
                    self.state = DatagramState::Spending { limit, used: *len };
                }
            },
            (Ok(len), DatagramState::Spending { limit, used }) => {
                if *len >= limit - used {
                    self.state = DatagramState::Idle;
                } else {
                    self.state = DatagramState::Spending { limit, used: used + *len };
                }
            },
            (Err(_), DatagramState::Spending { .. }) => {},
            _ => {
                self.state = DatagramState::Idle;
            },
        }
    }
}

/// What sending `len` bytes comes to: all of them are sent, whatever number the socket gives.
pub open spec fn send_result<E>(outcome: Result<usize, E>, len: usize) -> Result<usize, E> {
    match outcome {
        Ok(_) => Ok(len),
        Err(e) => Err(e),
    }
}

fn settle_sent<C, E>(
    throttle: &mut DatagramThrottle<C>,
    buf: &[u8],
    outcome: Result<usize, E>,
) -> (result: Result<usize, E>)
    requires
        old(throttle).wf(),
        old(throttle).state !is Idle,
    ensures
        *final(throttle) == (DatagramThrottle {
            state: old(throttle).state.settled(result),
            ..*old(throttle)
        }),
        final(throttle).wf(),
        result == send_result(outcome, buf@.len() as usize),
{
    let result = match outcome {
        Ok(_) => Ok(buf.len()),
        Err(e) => Err(e),
    };
    throttle.settle(&result);
    result
}

/// A socket that sends no faster than a session allows.
pub struct LimitDatagramSend<S, C = LimitSettings> {
    pub inner: S,
    pub write_limiter: DatagramThrottle<C>,
}

impl<S, C> LimitDatagramSend<S, C> {
    pub fn new(inner: S, write_limiter: SpeedLimitSession<C>) -> (limited: LimitDatagramSend<S, C>)
        ensures
            limited.inner == inner,
            limited.write_limiter == (DatagramThrottle {
                limiter: write_limiter,
                state: DatagramState::Idle,
            }),
            limited.write_limiter.wf(),
    {
        LimitDatagramSend { inner, write_limiter: DatagramThrottle::new(write_limiter) }
    }

    /// Begins or resumes sending a datagram.
    pub fn send_to(&mut self, piece: Option<usize>) -> (step: DatagramStep<C>)
        requires
            old(self).write_limiter.wf(),
            old(self).write_limiter.accepts(piece),
        ensures
            final(self).inner == old(self).inner,
            (final(self).write_limiter, step) == old(self).write_limiter.started(piece),
            final(self).write_limiter.wf(),
    {
        self.write_limiter.start(piece)
    }

    /// Takes note of what came of sending `buf`.
    pub fn sent<E>(&mut self, buf: &[u8], outcome: Result<usize, E>) -> (result: Result<usize, E>)
        requires
            old(self).write_limiter.wf(),
            old(self).write_limiter.state !is Idle,
        ensures
            final(self).inner == old(self).inner,
            final(self).write_limiter == (DatagramThrottle {
                state: old(self).write_limiter.state.settled(result),
                ..old(self).write_limiter
            }),
            final(self).write_limiter.wf(),
            result == send_result(outcome, buf@.len() as usize),
    {
        settle_sent(&mut self.write_limiter, buf, outcome)
    }
}

/// A socket that receives no faster than a session allows.
pub struct LimitDatagramRecv<R, C = LimitSettings> {
    pub inner: R,
    pub read_limiter: DatagramThrottle<C>,
}

impl<R, C> LimitDatagramRecv<R, C> {
    pub fn new(inner: R, read_limiter: SpeedLimitSession<C>) -> (limited: LimitDatagramRecv<R, C>)
        ensures
            limited.inner == inner,
            limited.read_limiter == (DatagramThrottle {
                limiter: read_limiter,
                state: DatagramState::Idle,
            }),
            limited.read_limiter.wf(),
    {
        LimitDatagramRecv { inner, read_limiter: DatagramThrottle::new(read_limiter) }
    }

    /// Begins or resumes receiving a datagram.
    pub fn recv_from(&mut self, piece: Option<usize>) -> (step: DatagramStep<C>)
        requires
            old(self).read_limiter.wf(),
            old(self).read_limiter.accepts(piece),
        ensures
            final(self).inner == old(self).inner,
            (final(self).read_limiter, step) == old(self).read_limiter.started(piece),
            final(self).read_limiter.wf(),
    {
        self.read_limiter.start(piece)
    }

    /// Takes note of what came of receiving a datagram, and passes it on.
    pub fn received<E>(&mut self, outcome: Result<usize, E>) -> (result: Result<usize, E>)
        requires
            old(self).read_limiter.wf(),
            old(self).read_limiter.state !is Idle,
        ensures
            final(self).inner == old(self).inner,
            final(self).read_limiter == (DatagramThrottle {
                state: old(self).read_limiter.state.settled(result),
                ..old(self).read_limiter
            }),
            final(self).read_limiter.wf(),
            result == outcome,
    {
        self.read_limiter.settle(&outcome);
        outcome
    }
}

/// A socket that sends and receives no faster than a session each allows.
pub struct LimitDatagram<D, C = LimitSettings> {
    pub inner: D,
    pub write_limiter: DatagramThrottle<C>,
    pub read_limiter: DatagramThrottle<C>,
}

impl<D, C> LimitDatagram<D, C> {
    pub fn new(
        inner: D,
        read_limit: SpeedLimitSession<C>,
        write_limit: SpeedLimitSession<C>,
    ) -> (limited: LimitDatagram<D, C>)
        ensures
            limited.inner == inner,
            limited.write_limiter == (DatagramThrottle {
                limiter: write_limit,
                state: DatagramState::Idle,
            }),
            limited.read_limiter == (DatagramThrottle {
                limiter: read_limit,
                state: DatagramState::Idle,
            }),
            limited.write_limiter.wf(),
            limited.read_limiter.wf(),
    {
        LimitDatagram {
            inner,
            write_limiter: DatagramThrottle::new(write_limit),
            read_limiter: DatagramThrottle::new(read_limit),
        }
    }

    /// Begins or resumes sending a datagram.
    pub fn send_to(&mut self, piece: Option<usize>) -> (step: DatagramStep<C>)
        requires
            old(self).write_limiter.wf(),
            old(self).write_limiter.accepts(piece),
        ensures
            final(self).inner == old(self).inner,
            final(self).read_limiter == old(self).read_limiter,
            (final(self).write_limiter, step) == old(self).write_limiter.started(piece),
            final(self).write_limiter.wf(),
    {
        self.write_limiter.start(piece)
    }

    /// Takes note of what came of sending `buf`.
    pub fn sent<E>(&mut self, buf: &[u8], outcome: Result<usize, E>) -> (result: Result<usize, E>)
        requires
            old(self).write_limiter.wf(),
            old(self).write_limiter.state !is Idle,
        ensures
            final(self).inner == old(self).inner,
            final(self).read_limiter == old(self).read_limiter,
            final(self).write_limiter == (DatagramThrottle {
                state: old(self).write_limiter.state.settled(result),
                ..old(self).write_limiter
            }),
            final(self).write_limiter.wf(),
            result == send_result(outcome, buf@.len() as usize),
    {
        settle_sent(&mut self.write_limiter, buf, outcome)
    }

    /// Begins or resumes receiving a datagram.
    pub fn recv_from(&mut self, piece: Option<usize>) -> (step: DatagramStep<C>)
        requires
            old(self).read_limiter.wf(),
            old(self).read_limiter.accepts(piece),
        ensures
            final(self).inner == old(self).inner,
            final(self).write_limiter == old(self).write_limiter,
            (final(self).read_limiter, step) == old(self).read_limiter.started(piece),
            final(self).read_limiter.wf(),
    {
        self.read_limiter.start(piece)
    }

    /// Takes note of what came of receiving a datagram, and passes it on.
    pub fn received<E>(&mut self, outcome: Result<usize, E>) -> (result: Result<usize, E>)
        requires
            old(self).read_limiter.wf(),
            old(self).read_limiter.state !is Idle,
        ensures
            final(self).inner == old(self).inner,
            final(self).write_limiter == old(self).write_limiter,
            final(self).read_limiter == (DatagramThrottle {
                state: old(self).read_limiter.state.settled(result),
                ..old(self).read_limiter
            }),
            final(self).read_limiter.wf(),
            result == outcome,
    {
        self.read_limiter.settle(&outcome);
        outcome
    }
}

/// [`LimitDatagramSend`] for sockets that stay on one thread. The limit is the same.
pub type LocalLimitDatagramSend<S, C = LimitSettings> = LimitDatagramSend<S, C>;

/// [`LimitDatagramRecv`] for sockets that stay on one thread. The limit is the same.
pub type LocalLimitDatagramRecv<R, C = LimitSettings> = LimitDatagramRecv<R, C>;

/// [`LimitDatagram`] for sockets that stay on one thread. The limit is the same.
pub type LocalLimitDatagram<D, C = LimitSettings> = LimitDatagram<D, C>;

/// As long as a grant is in hand, no limiter is asked for anything.
pub proof fn law_grants_are_used_up_first<C>(throttle: DatagramThrottle<C>, piece: Option<usize>)
    requires
        throttle.wf(),
        throttle.accepts(piece),
        throttle.state is Spending,
    ensures
        throttle.started(piece) == (throttle, DatagramStep::<C>::Pass),
{
}

/// A grant stays in hand exactly as long as it covers the datagrams that went through under it,
/// down to the byte; and the one datagram that may exceed it is the one that ends it.
pub proof fn law_only_the_last_datagram_exceeds_a_grant(state: DatagramState, len: usize)
    requires
        state.wf(),
        state !is Idle,
    ensures
        state.passed(len).wf(),
        state.passed(len) is Spending ==> state.passed(len).allowance() + len == state.allowance(),
        state.passed(len) is Idle ==> len >= state.allowance(),
{
}

/// A call on a throttle, with what its caller reports.
pub enum DatagramCall {
    /// A start, with a piece that a limiter let through.
    Start { piece: Option<usize> },
    /// A datagram of so many bytes that went through.
    Passed(usize),
    /// A datagram that failed.
    Failed,
}

impl DatagramCall {
    /// The bytes that the call reports as gone through.
    pub open spec fn bytes(self) -> nat {
        match self {
            DatagramCall::Passed(len) => len as nat,
            _ => 0,
        }
    }
}

impl<C> DatagramThrottle<C> {
    /// Whether the call can be made, with no datagram longer than `longest`.
    pub open spec fn allows(self, call: DatagramCall, longest: nat) -> bool {
        match call {
            DatagramCall::Start { piece } => self.accepts(piece),
            DatagramCall::Passed(len) => self.state !is Idle && len <= longest,
            DatagramCall::Failed => self.state !is Idle,
        }
    }

    /// The throttle after a call.
    pub open spec fn called(self, call: DatagramCall) -> DatagramThrottle<C> {
        match call {
            DatagramCall::Start { piece } => self.started(piece).0,
            DatagramCall::Passed(len) => DatagramThrottle {
                state: self.state.settled(Ok::<usize, ()>(len)),
                ..self
            },
            DatagramCall::Failed => DatagramThrottle {
                state: self.state.settled(Err::<usize, ()>(())),
                ..self
            },
        }
    }

    /// What the limiter `level` steps up the chain lets through in a call.
    pub open spec fn admitted(self, call: DatagramCall, level: nat) -> nat {
        match call {
            DatagramCall::Start { piece } if !(self.state is Spending) => self.limiter.admitted(
                piece,
                level,
            ),
            _ => 0,
        }
    }

    /// Whether the call brings a grant to its end by using it up.
    pub open spec fn ends_grant(self, call: DatagramCall) -> bool {
        call is Passed && self.called(call).state is Idle
    }

    /// What the limiter `level` steps up the chain has let through and can still be used.
    pub open spec fn usable(self, level: nat) -> nat {
        self.limiter.credit(level) + self.state.allowance()
    }

    pub open spec fn allows_all(self, calls: Seq<DatagramCall>, longest: nat) -> bool
        decreases calls.len(),
    {
        calls.len() > 0 ==> {
            &&& self.allows_all(calls.drop_last(), longest)
            &&& self.after(calls.drop_last()).allows(calls.last(), longest)
        }
    }

    /// The throttle after these calls.
    pub open spec fn after(self, calls: Seq<DatagramCall>) -> DatagramThrottle<C>
        decreases calls.len(),
    {
        if calls.len() == 0 {
            self
        } else {
            self.after(calls.drop_last()).called(calls.last())
        }
    }

    /// All that the limiter `level` steps up the chain lets through in these calls.
    pub open spec fn total_admitted(self, calls: Seq<DatagramCall>, level: nat) -> nat
        decreases calls.len(),
    {
        if calls.len() == 0 {
            0
        } else {
            self.total_admitted(calls.drop_last(), level) + self.after(calls.drop_last()).admitted(
                calls.last(),
                level,
            )
        }
    }

    /// How many grants these calls use up.
    pub open spec fn grants_ended(self, calls: Seq<DatagramCall>) -> nat
        decreases calls.len(),
    {
        if calls.len() == 0 {
            0
        } else {
            self.grants_ended(calls.drop_last()) + if self.after(calls.drop_last()).ends_grant(
                calls.last(),
            ) {
                1nat
            } else {
                0nat
            }
        }
    }
}

/// All the bytes that these calls report as gone through.
pub open spec fn total_bytes(calls: Seq<DatagramCall>) -> nat
    decreases calls.len(),
{
    if calls.len() == 0 {
        0
    } else {
        total_bytes(calls.drop_last()) + calls.last().bytes()
    }
}

/// No call uses bytes that were not let through, but for the datagram that ends a grant, which may
/// be one of the longest.
pub proof fn law_datagrams_keep_accounts<C>(
    throttle: DatagramThrottle<C>,
    call: DatagramCall,
    longest: nat,
    level: nat,
)
    requires
        throttle.wf(),
        throttle.allows(call, longest),
        level < throttle.limiter.depth(),
    ensures
        throttle.called(call).wf(),
        throttle.called(call).limiter.depth() == throttle.limiter.depth(),
        throttle.called(call).usable(level) + call.bytes() <= throttle.usable(level)
            + throttle.admitted(call, level) + if throttle.ends_grant(call) {
            longest
        } else {
            0
        },
{
    if let DatagramCall::Start { piece } = call {
        if !(throttle.state is Spending) {
            law_session_keeps_accounts(throttle.limiter, piece, level);
            law_chain_is_fixed(throttle.limiter, piece, level);
        }
    }
}

/// Over any calls, what went through is at most what could be used at first, what any one limiter
/// of the chain has let through since, and one longest datagram for each grant that was used up.
pub proof fn law_datagram_totals<C>(
    throttle: DatagramThrottle<C>,
    calls: Seq<DatagramCall>,
    longest: nat,
    level: nat,
)
    requires
        throttle.wf(),
        throttle.allows_all(calls, longest),
        level < throttle.limiter.depth(),
    ensures
        throttle.after(calls).wf(),
        throttle.after(calls).limiter.depth() == throttle.limiter.depth(),
        throttle.after(calls).usable(level) + total_bytes(calls) <= throttle.usable(level)
            + throttle.total_admitted(calls, level) + longest * throttle.grants_ended(calls),
    decreases calls.len(),
{
    if calls.len() > 0 {
        let rest = calls.drop_last();
        law_datagram_totals(throttle, rest, longest, level);
        law_datagrams_keep_accounts(throttle.after(rest), calls.last(), longest, level);
        let n = throttle.grants_ended(rest);
        assert(longest * (n + 1) == longest * n + longest) by (nonlinear_arith);
    } else {
        assert(longest * 0 == 0);
    }
}

/// A limited socket that starts on a fresh session lets no more through than any one limiter of
/// the chain has, and one longest datagram for each grant that was used up.
pub proof fn law_datagrams_stay_near_limits<C>(
    limiter: SpeedLimiterRef<C>,
    calls: Seq<DatagramCall>,
    longest: nat,
    level: nat,
)
    requires
        (DatagramThrottle {
            limiter: limiter.fresh_session(),
            state: DatagramState::Idle,
        }).allows_all(calls, longest),
        level < limiter.fresh_session().depth(),
    ensures
        ({
            let throttle = DatagramThrottle {
                limiter: limiter.fresh_session(),
                state: DatagramState::Idle,
            };
            total_bytes(calls) <= throttle.total_admitted(calls, level) + longest
                * throttle.grants_ended(calls)
        }),
{
    lemma_fresh_session_holds_nothing(limiter, level);
    law_datagram_totals(
        DatagramThrottle { limiter: limiter.fresh_session(), state: DatagramState::Idle },
        calls,
        longest,
        level,
    );
}

/// Where no grant is in hand, a datagram goes by what the session says: it waits for the limiter
/// that the session names, or may pass with all that the session grants on offer. Where one is in
/// hand, it may pass, nothing is asked of the session, and nothing changes.
pub proof fn law_datagrams_get_the_whole_grant<C>(
    throttle: DatagramThrottle<C>,
    piece: Option<usize>,
)
    ensures
        ({
            let (after, step) = throttle.started(piece);
            let (session, drawn) = throttle.limiter.advanced(piece);
            match throttle.state {
                DatagramState::Spending { .. } => after == throttle && step is Pass,
                _ => after.limiter == session && match drawn {
                    SessionStep::Acquire(limiter) => {
                        &&& step == DatagramStep::<C>::Acquire(limiter)
                        &&& after.state is Idle
                    },
                    SessionStep::Granted(n) => {
                        &&& step is Pass
                        &&& after.state == (DatagramState::Offered { limit: n })
                    },
                },
            }
        }),
{
}

/// Every account is kept to the byte. A start with nothing on offer loses nothing of what the
/// limiters have let through. One while a grant is in hand changes nothing. One that finds a grant
/// still on offer forfeits just that. A datagram that passes uses its own bytes, or what is left
/// where that is less. A datagram that fails forfeits a grant on offer, and nothing of one in hand.
pub proof fn law_datagram_accounts_are_exact<C>(
    throttle: DatagramThrottle<C>,
    call: DatagramCall,
    level: nat,
)
    requires
        throttle.wf(),
        throttle.allows(call, usize::MAX as nat),
        level < throttle.limiter.depth(),
    ensures
        ({
            let after = throttle.called(call);
            let before = throttle.limiter.credit(level);
            let (left, left_after) = (grant_left(throttle.state), grant_left(after.state));
            match call {
                DatagramCall::Start { piece } => match throttle.state {
                    DatagramState::Spending { .. } => after == throttle,
                    _ => after.limiter.credit(level) + left_after == before
                        + throttle.limiter.admitted(piece, level),
                },
                DatagramCall::Passed(len) => {
                    &&& after.limiter == throttle.limiter
                    &&& left_after + len == left || (left_after == 0 && len >= left)
                },
                DatagramCall::Failed => {
                    &&& after.limiter == throttle.limiter
                    &&& throttle.state is Spending ==> after == throttle
                    &&& throttle.state is Offered ==> after.state is Idle
                },
            }
        }),
{
    if let DatagramCall::Start { piece } = call {
        law_session_keeps_accounts(throttle.limiter, piece, level);
    }
}

/// The bytes that are left of a grant that is on offer or in hand.
pub open spec fn grant_left(state: DatagramState) -> int {
    match state {
        DatagramState::Idle => 0,
        DatagramState::Offered { limit } => limit as int,
        DatagramState::Spending { limit, used } => limit - used,
    }
}

/// A datagram that passes under a grant on offer takes it in hand, unless it is longer than the
/// grant. Later ones are counted against it until they reach its end, which gives it back. One that
/// fails leaves a grant in hand as it is, and ends one on offer.
pub proof fn law_datagrams_use_their_length<E>(state: DatagramState, result: Result<usize, E>)
    ensures
        ({
            let after = state.settled(result);
            match (state, result) {
                (DatagramState::Offered { limit }, Ok(len)) => if len <= limit {
                    after == (DatagramState::Spending { limit, used: len })
                } else {
                    after is Idle
                },
                (DatagramState::Spending { limit, used }, Ok(len)) => if used + len < limit {
                    after matches DatagramState::Spending { limit: granted, used: more } && granted
                        == limit && more == used + len
                } else {
                    after is Idle
                },
                (DatagramState::Spending { .. }, Err(_)) => after == state,
                (_, Err(_)) => after is Idle,
                (DatagramState::Idle, Ok(_)) => true,
            }
        }),
{
}

/// Where a grant on offer stands after datagrams of these lengths.
pub open spec fn after_datagrams(state: DatagramState, lens: Seq<usize>) -> DatagramState
    decreases lens.len(),
{
    if lens.len() == 0 {
        state
    } else {
        after_datagrams(state, lens.drop_last()).settled(Ok::<usize, ()>(lens.last()))
    }
}

/// The bytes of datagrams of these lengths.
pub open spec fn length_of(lens: Seq<usize>) -> nat
    decreases lens.len(),
{
    if lens.len() == 0 {
        0
    } else {
        length_of(lens.drop_last()) + lens.last() as nat
    }
}

/// A grant covers any datagrams that are shorter than it together: it is then in hand still, with
/// all that they leave of it, and no limiter is asked for another.
pub proof fn law_a_grant_covers_datagrams_shorter_than_it<C>(
    limiter: SpeedLimitSession<C>,
    limit: usize,
    lens: Seq<usize>,
)
    requires
        lens.len() > 0,
        length_of(lens) < limit,
    ensures
        ({
            let state = after_datagrams(DatagramState::Offered { limit }, lens);
            &&& state matches DatagramState::Spending { limit: granted, used } && granted == limit
                && used == length_of(lens)
            &&& (DatagramThrottle { limiter, state }).started(None).1 is Pass
        }),
    decreases lens.len(),
{
    let rest = lens.drop_last();
    if rest.len() > 0 {
        law_a_grant_covers_datagrams_shorter_than_it(limiter, limit, rest);
    } else {
        assert(length_of(rest) == 0);
        assert(after_datagrams(DatagramState::Offered { limit }, rest) == (DatagramState::Offered {
            limit,
        }));
    }
}

/// A datagram that was sent counts with all that was offered, and one that failed is passed on as
/// it failed.
pub proof fn law_datagrams_are_sent_whole<E>(outcome: Result<usize, E>, len: usize)
    ensures
        outcome is Ok ==> send_result(outcome, len) == Ok::<usize, E>(len),
        outcome matches Err(e) ==> send_result(outcome, len) == Err::<usize, E>(e),
{
}

/// A throttle takes a piece only for a session that waits for one, and never while a grant is in
/// hand.
pub proof fn law_when_a_datagram_takes_a_piece<C>(
    throttle: DatagramThrottle<C>,
    piece: Option<usize>,
)
    ensures
        throttle.state is Spending ==> (throttle.accepts(piece) <==> piece is None),
        throttle.state !is Spending ==> (throttle.accepts(piece) <==> throttle.limiter.accepts(
            piece,
        )),
{
}

/// Limited sockets come to what is described of their throttles, each direction by its own.
pub proof fn law_limited_sockets_go_by_their_throttles<S, C>()
    ensures
        forall|throttle: &mut DatagramThrottle<C>, piece: Option<usize>, step: DatagramStep<C>|
            #[trigger] call_ensures(DatagramThrottle::<C>::start, (throttle, piece), step) ==> (
            *final(throttle),
            step,
            ) == (*throttle).started(piece),
        forall|limited: &mut LimitDatagramSend<S, C>, piece: Option<usize>, step: DatagramStep<C>|
            #[trigger] call_ensures(LimitDatagramSend::<S, C>::send_to, (limited, piece), step) ==> (
            (*final(limited)).write_limiter,
            step,
            ) == (*limited).write_limiter.started(piece),
        forall|limited: &mut LimitDatagramRecv<S, C>, piece: Option<usize>, step: DatagramStep<C>|
            #[trigger] call_ensures(LimitDatagramRecv::<S, C>::recv_from, (limited, piece), step)
                ==> ((*final(limited)).read_limiter, step) == (*limited).read_limiter.started(
                piece,
            ),
        forall|limited: &mut LimitDatagram<S, C>, piece: Option<usize>, step: DatagramStep<C>|
            #[trigger] call_ensures(LimitDatagram::<S, C>::send_to, (limited, piece), step) ==> (
            (*final(limited)).write_limiter,
            step,
            ) == (*limited).write_limiter.started(piece) && (*final(limited)).read_limiter == (
            *limited).read_limiter,
        forall|limited: &mut LimitDatagram<S, C>, piece: Option<usize>, step: DatagramStep<C>|
            #[trigger] call_ensures(LimitDatagram::<S, C>::recv_from, (limited, piece), step) ==> (
            (*final(limited)).read_limiter,
            step,
            ) == (*limited).read_limiter.started(piece) && (*final(limited)).write_limiter == (
            *limited).write_limiter,
{
}

/// What a datagram came to is passed on, and counted against the limit of its direction: one that
/// was sent with all that was offered, and one that was received with its length.
pub proof fn law_limited_sockets_count_what_passed<S, C, E>()
    ensures
        forall|limited: &mut LimitDatagramSend<S, C>,
            buf: &[u8],
            outcome: Result<usize, E>,
            result: Result<usize, E>| #[trigger]
            call_ensures(LimitDatagramSend::<S, C>::sent::<E>, (limited, buf, outcome), result)
                ==> {
                &&& result is Ok <==> outcome is Ok
                &&& result is Ok ==> result->Ok_0 == buf@.len() as usize
                &&& result is Err ==> result == outcome
                &&& (*final(limited)).write_limiter.state == (
                *limited).write_limiter.state.settled(result)
            },
        forall|limited: &mut LimitDatagram<S, C>,
            buf: &[u8],
            outcome: Result<usize, E>,
            result: Result<usize, E>| #[trigger]
            call_ensures(LimitDatagram::<S, C>::sent::<E>, (limited, buf, outcome), result) ==> {
                &&& result is Ok <==> outcome is Ok
                &&& result is Ok ==> result->Ok_0 == buf@.len() as usize
                &&& result is Err ==> result == outcome
                &&& (*final(limited)).write_limiter.state == (
                *limited).write_limiter.state.settled(result)
                &&& (*final(limited)).read_limiter == (*limited).read_limiter
            },
        forall|limited: &mut LimitDatagramRecv<S, C>,
            outcome: Result<usize, E>,
            result: Result<usize, E>| #[trigger]
            call_ensures(LimitDatagramRecv::<S, C>::received::<E>, (limited, outcome), result)
                ==> result == outcome && (*final(limited)).read_limiter.state == (
            *limited).read_limiter.state.settled(outcome),
        forall|limited: &mut LimitDatagram<S, C>,
            outcome: Result<usize, E>,
            result: Result<usize, E>| #[trigger]
            call_ensures(LimitDatagram::<S, C>::received::<E>, (limited, outcome), result)
                ==> result == outcome && (*final(limited)).read_limiter.state == (
            *limited).read_limiter.state.settled(outcome) && (*final(limited)).write_limiter == (
            *limited).write_limiter,
{
}

/// Each direction of a limited socket is limited by the session given for it, from the start.
pub proof fn law_sockets_have_a_limit_for_each_direction<D, C>(
    inner: D,
    read_limit: SpeedLimitSession<C>,
    write_limit: SpeedLimitSession<C>,
    limited: LimitDatagram<D, C>,
)
    requires
        call_ensures(LimitDatagram::<D, C>::new, (inner, read_limit, write_limit), limited),
    ensures
        limited.inner == inner,
        limited.read_limiter.limiter == read_limit,
        limited.read_limiter.state is Idle,
        limited.write_limiter.limiter == write_limit,
        limited.write_limiter.state is Idle,
{
}

} // verus!
