//! Rate limits, and the sessions that draw on a chain of them.
//!
//! A [`SpeedLimiter`] lets data through in pieces of a fixed size, at most so many pieces per
//! second. Limiters nest: one with an `upper` limiter is bound by that one too. A
//! [`SpeedLimitSession`] walks such a chain for one stream or socket, and grants no byte that any
//! limiter of the chain has not let through.

use governor::Quota;
use std::num::NonZeroU32;
use std::sync::Arc;
use vstd::math::min;
use vstd::prelude::*;

verus! {

/// The rate that stands for "no limit".
pub const UNLIMITED_RATE: u32 = 4_294_967_295;

/// The size of a piece where none is given, in bytes.
pub const DEFAULT_WEIGHT: u32 = 65_536;

/// `governor::Quota`: how many cells a rate limiter lets through, and how fast.
#[verifier::external_type_specification]
#[verifier::external_body]
pub struct ExQuota(Quota);

/// How many cells a quota lets through in one go (`Quota::burst_size`).
pub uninterp spec fn quota_burst(quota: Quota) -> nat;

/// The time after which a quota has one more cell, in nanoseconds (`Quota::replenish_interval`).
pub uninterp spec fn quota_interval_nanos(quota: Quota) -> nat;

/// The time between two of so many cells per second, in whole nanoseconds.
pub open spec fn interval_for(cells: u32) -> nat {
    1_000_000_000nat / (cells as nat)
}

/// Calls `governor::Quota::per_second`. The quota's burst is the number of cells per second, and
/// a cell comes back after one second divided by that number, rounded down to whole nanoseconds.
#[verifier::external_body]
fn quota_per_second(cells: u32) -> (quota: Quota)
    requires
        cells > 0,
    ensures
        quota_burst(quota) == cells,
        quota_interval_nanos(quota) == interval_for(cells),
{
    Quota::per_second(NonZeroU32::new(cells).unwrap())
}

/// Calls `governor::Quota::allow_burst`. The new quota has the given burst, and the interval of
/// the old one.
#[verifier::external_body]
fn quota_allow_burst(quota: Quota, cells: u32) -> (adjusted: Quota)
    requires
        cells > 0,
    ensures
        quota_burst(adjusted) == cells,
        quota_interval_nanos(adjusted) == quota_interval_nanos(quota),
{
    quota.allow_burst(NonZeroU32::new(cells).unwrap())
}

/// What a limiter lets through: the size of a piece, and the quota by which pieces come, if any.
pub struct LimitSettings {
    pub weight: u32,
    pub quota: Option<Quota>,
}

/// What a limiter asks of whoever wants a piece.
pub struct Admission {
    /// The size of the piece in bytes.
    pub piece_size: usize,
    /// Whether a cell of the limiter's quota has to be waited for first.
    pub gated: bool,
}

/// A rate and a weight that can be asked for: neither is zero.
pub open spec fn valid_limit(rate: Option<u32>, weight: Option<u32>) -> bool {
    &&& rate matches Some(r) ==> r > 0
    &&& weight matches Some(w) ==> w > 0
}

impl LimitSettings {
    /// Whether a piece has a size at all.
    pub open spec fn wf(self) -> bool {
        self.weight > 0
    }

    /// Whether these are the settings for `rate` pieces per second of `weight` bytes each: the
    /// weight or its default, and a quota with `rate` cells in a burst and per second, or none
    /// where the rate is not given or is the one that stands for "no limit".
    pub open spec fn is_limit(self, rate: Option<u32>, weight: Option<u32>) -> bool {
        &&& self.weight == weight.unwrap_or(DEFAULT_WEIGHT)
        &&& match rate {
            Some(r) if r != UNLIMITED_RATE => self.quota matches Some(quota)
                && quota_burst(quota) == r && quota_interval_nanos(quota) == interval_for(r),
            _ => self.quota is None,
        }
    }

    pub fn new(rate: Option<u32>, weight: Option<u32>) -> (settings: LimitSettings)
        requires
            valid_limit(rate, weight),
        ensures
            settings.is_limit(rate, weight),
            settings.wf(),
    {
        let rate: u32 = rate.unwrap_or(UNLIMITED_RATE);
        let weight: u32 = weight.unwrap_or(DEFAULT_WEIGHT);
        if rate == UNLIMITED_RATE {
            LimitSettings { weight, quota: None }
        } else {
            LimitSettings { weight, quota: Some(quota_allow_burst(quota_per_second(rate), rate)) }
        }
    }

    /// Replaces the settings.
    pub fn set_limit(&mut self, rate: Option<u32>, weight: Option<u32>)
        requires
            valid_limit(rate, weight),
        ensures
            final(self).is_limit(rate, weight),
            final(self).wf(),
    {
        *self = LimitSettings::new(rate, weight);
    }

    /// What has to happen before the next piece is let through, and how large it is.
    pub fn until_ready(&self) -> (admission: Admission)
        ensures
            admission.piece_size == self.weight,
            admission.gated == (self.quota is Some),
    {
        Admission { piece_size: self.weight as usize, gated: self.quota.is_some() }
    }
}

/// A limiter: its settings, and the limiter above it.
///
/// `C` is what holds the settings. Where several tasks share a limiter, it is a lock.
pub struct SpeedLimiter<C = LimitSettings> {
    pub upper: Option<Arc<SpeedLimiter<C>>>,
    pub limiter: C,
}

pub type SpeedLimiterRef<C = LimitSettings> = Arc<SpeedLimiter<C>>;

impl SpeedLimiter<LimitSettings> {
    pub fn new(
        upper: Option<SpeedLimiterRef>,
        rate: Option<u32>,
        weight: Option<u32>,
    ) -> (limiter: SpeedLimiterRef)
        requires
            valid_limit(rate, weight),
        ensures
            limiter.upper == upper,
            limiter.limiter.is_limit(rate, weight),
            limiter.limiter.wf(),
    {
        Self::with_settings(upper, LimitSettings::new(rate, weight))
    }

    /// Replaces the limiter's settings. The limiter above it stays.
    pub fn set_limit(&mut self, rate: Option<u32>, weight: Option<u32>)
        requires
            valid_limit(rate, weight),
        ensures
            final(self).upper == old(self).upper,
            final(self).limiter.is_limit(rate, weight),
            final(self).limiter.wf(),
    {
        self.limiter.set_limit(rate, weight);
    }
}

impl<C> SpeedLimiter<C> {
    /// A limiter around settings that the caller keeps.
    pub fn with_settings(upper: Option<SpeedLimiterRef<C>>, limiter: C) -> (made: SpeedLimiterRef<
        C,
    >)
        ensures
            *made == (SpeedLimiter { upper, limiter }),
    {
        Arc::new(SpeedLimiter { upper, limiter })
    }

    /// A session that has drawn nothing yet, with a session of its own for each limiter above.
    pub open spec fn fresh_session(&self) -> SpeedLimitSession<C>
        decreases self,
    {
        SpeedLimitSession {
            upper_session: match self.upper {
                Some(upper) => Some(Box::new(upper.fresh_session())),
                None => None,
            },
            limiter: Arc::new(*self),
            upper_remainder: 0,
            local_remainder: 0,
        }
    }

    pub fn new_limit_session(self: &SpeedLimiterRef<C>) -> (session: SpeedLimitSession<C>)
        ensures
            session == self.fresh_session(),
        decreases *self,
    {
        let upper_session = match &self.upper {
            Some(upper) => Some(Box::new(upper.new_limit_session())),
            None => None,
        };
        SpeedLimitSession::new(upper_session, self.clone())
    }
}

/// One consumer's way through a chain of limiters.
pub struct SpeedLimitSession<C = LimitSettings> {
    /// The session at the limiter above, if there is one.
    pub upper_session: Option<Box<SpeedLimitSession<C>>>,
    pub limiter: SpeedLimiterRef<C>,
    /// What the session above has granted and this one has not passed on.
    pub upper_remainder: usize,
    /// What this session's limiter has let through and this session has not passed on.
    pub local_remainder: usize,
}

/// What a session needs, or has.
pub enum SessionStep<C = LimitSettings> {
    /// This limiter has to let a piece through.
    Acquire(SpeedLimiterRef<C>),
    /// So many bytes may pass.
    Granted(usize),
}

impl<C> SessionStep<C> {
    /// The bytes that the step lets pass.
    pub open spec fn granted(self) -> nat {
        match self {
            SessionStep::Granted(n) => n as nat,
            SessionStep::Acquire(_) => 0,
        }
    }
}

impl<C> SpeedLimitSession<C> {
    pub fn new(
        upper_session: Option<Box<SpeedLimitSession<C>>>,
        limiter: SpeedLimiterRef<C>,
    ) -> (session: SpeedLimitSession<C>)
        ensures
            session == (SpeedLimitSession {
                upper_session,
                limiter,
                upper_remainder: 0,
                local_remainder: 0,
            }),
    {
        SpeedLimitSession { upper_session, limiter, upper_remainder: 0, local_remainder: 0 }
    }

    /// How many limiters the session is bound by.
    pub open spec fn depth(self) -> nat
        decreases self,
    {
        match self.upper_session {
            Some(upper) => 1 + upper.depth(),
            None => 1,
        }
    }

    /// The limiter `level` steps up the chain.
    pub open spec fn limiter_at(self, level: nat) -> SpeedLimiterRef<C>
        decreases self,
    {
        match self.upper_session {
            Some(upper) if level > 0 => upper.limiter_at((level - 1) as nat),
            _ => self.limiter,
        }
    }

    /// How far up the chain the session is held up: at the top limiter whenever a piece of it is
    /// needed, at any other where that one has nothing left while the part above has.
    pub open spec fn held_at(self) -> Option<nat>
        decreases self,
    {
        match self.upper_session {
            None => Some(0),
            Some(upper) => if self.upper_remainder == 0 {
                match upper.held_at() {
                    Some(level) => Some(level + 1),
                    None => None,
                }
            } else if self.local_remainder == 0 {
                Some(0)
            } else {
                None
            },
        }
    }

    /// What the limiter `level` steps up the chain has let through and the session still holds.
    pub open spec fn credit(self, level: nat) -> nat
        decreases self,
    {
        match self.upper_session {
            None => 0,
            Some(upper) => if level == 0 {
                self.local_remainder as nat
            } else {
                self.upper_remainder as nat + upper.credit((level - 1) as nat)
            },
        }
    }

    /// Passes on as much as both remainders allow, once this session's own limiter has let
    /// something through.
    pub open spec fn drawn(self, piece: Option<usize>) -> (SpeedLimitSession<C>, SessionStep<C>) {
        if self.local_remainder == 0 && piece is None {
            (self, SessionStep::Acquire(self.limiter))
        } else {
            let local = if self.local_remainder == 0 {
                piece->0
            } else {
                self.local_remainder
            };
            let grant = min(self.upper_remainder as int, local as int) as usize;
            (
                SpeedLimitSession {
                    upper_remainder: (self.upper_remainder - grant) as usize,
                    local_remainder: (local - grant) as usize,
                    ..self
                },
                SessionStep::Granted(grant),
            )
        }
    }

    /// Where the session stands after `piece`, if the limiter that it is held up at has let one
    /// through, and what it needs next or grants.
    pub open spec fn advanced(self, piece: Option<usize>) -> (SpeedLimitSession<C>, SessionStep<C>)
        decreases self,
    {
        match self.upper_session {
            None => match piece {
                Some(n) => (self, SessionStep::Granted(n)),
                None => (self, SessionStep::Acquire(self.limiter)),
            },
            Some(upper) => if self.upper_remainder > 0 {
                self.drawn(piece)
            } else {
                let (upper, step) = upper.advanced(piece);
                let session = SpeedLimitSession { upper_session: Some(Box::new(upper)), ..self };
                match step {
                    SessionStep::Acquire(_) => (session, step),
                    SessionStep::Granted(n) => SpeedLimitSession {
                        upper_remainder: n,
                        ..session
                    }.drawn(None),
                }
            },
        }
    }

    /// Takes the session as far as it gets: to a limiter that has to let a piece through first, or
    /// to a grant. `piece` is what the limiter named by the last `Acquire` has let through.
    pub fn until_ready(&mut self, piece: Option<usize>) -> (step: SessionStep<C>)
        requires
            old(self).accepts(piece),
        ensures
            (*final(self), step) == old(self).advanced(piece),
            step matches SessionStep::Granted(n) ==> n > 0,
            step matches SessionStep::Acquire(limiter) ==> final(self).held_at() matches Some(level)
                && limiter == final(self).limiter_at(level),
        decreases *old(self),
    {
        let mut piece: Option<usize> = piece;
        match &mut self.upper_session {
            None => {
                return match piece {
                    Some(n) => SessionStep::Granted(n),
                    None => SessionStep::Acquire(self.limiter.clone()),
                };
            },
            Some(upper) => {
                if self.upper_remainder == 0 {
                    match upper.until_ready(piece) {
                        SessionStep::Acquire(limiter) => {
                            return SessionStep::Acquire(limiter);
                        },
                        SessionStep::Granted(n) => {
                            self.upper_remainder = n;
                            piece = None;
                        },
                    }
                }
            },
        }
        if self.local_remainder == 0 {
            match piece {
                Some(n) => {
                    self.local_remainder = n;
                },
                None => {
                    return SessionStep::Acquire(self.limiter.clone());
                },
            }
        }
        if self.upper_remainder > self.local_remainder {
            self.upper_remainder = self.upper_remainder - self.local_remainder;
            let grant: usize = self.local_remainder;
            self.local_remainder = 0;
            SessionStep::Granted(grant)
        } else {
            self.local_remainder = self.local_remainder - self.upper_remainder;
            let grant: usize = self.upper_remainder;
            self.upper_remainder = 0;
            SessionStep::Granted(grant)
        }
    }
}

impl<C> SpeedLimitSession<C> {
    /// Whether `piece` can be handed to the session: it is not empty, and the session is held up.
    pub open spec fn accepts(self, piece: Option<usize>) -> bool {
        piece matches Some(n) ==> n > 0 && self.held_at() is Some
    }

    /// What `piece` adds to what the limiter `level` steps up the chain has let through.
    pub open spec fn admitted(self, piece: Option<usize>, level: nat) -> nat {
        match piece {
            Some(n) if self.held_at() == Some(level) => n as nat,
            _ => 0,
        }
    }

    /// Whether a session can be taken through all these calls.
    pub open spec fn accepts_all(self, pieces: Seq<Option<usize>>) -> bool
        decreases pieces.len(),
    {
        pieces.len() > 0 ==> {
            &&& self.accepts_all(pieces.drop_last())
            &&& self.after(pieces.drop_last()).accepts(pieces.last())
        }
    }

    /// The session after a call with each of these pieces.
    pub open spec fn after(self, pieces: Seq<Option<usize>>) -> SpeedLimitSession<C>
        decreases pieces.len(),
    {
        if pieces.len() == 0 {
            self
        } else {
            self.after(pieces.drop_last()).advanced(pieces.last()).0
        }
    }

    /// All that these calls grant.
    pub open spec fn total_granted(self, pieces: Seq<Option<usize>>) -> nat
        decreases pieces.len(),
    {
        if pieces.len() == 0 {
            0
        } else {
            self.total_granted(pieces.drop_last()) + self.after(pieces.drop_last()).advanced(
                pieces.last(),
            ).1.granted()
        }
    }

    /// All that the limiter `level` steps up the chain lets through in these calls.
    pub open spec fn total_admitted(self, pieces: Seq<Option<usize>>, level: nat) -> nat
        decreases pieces.len(),
    {
        if pieces.len() == 0 {
            0
        } else {
            self.total_admitted(pieces.drop_last(), level) + self.after(
                pieces.drop_last(),
            ).admitted(pieces.last(), level)
        }
    }
}

/// A grant is never empty.
pub proof fn law_grants_are_positive<C>(session: SpeedLimitSession<C>, piece: Option<usize>)
    requires
        session.accepts(piece),
    ensures
        session.advanced(piece).1 matches SessionStep::Granted(n) ==> n > 0,
    decreases session,
{
    if let Some(upper) = session.upper_session {
        if session.upper_remainder == 0 {
            law_grants_are_positive(*upper, piece);
        }
    }
}

/// No call changes which limiters a session is bound by.
pub proof fn law_chain_is_fixed<C>(
    session: SpeedLimitSession<C>,
    piece: Option<usize>,
    level: nat,
)
    ensures
        session.advanced(piece).0.depth() == session.depth(),
        session.advanced(piece).0.limiter_at(level) == session.limiter_at(level),
    decreases session,
{
    if let Some(upper) = session.upper_session {
        law_chain_is_fixed(*upper, piece, (level - 1) as nat);
    }
}

/// Every limiter's account is kept: what a call grants, and what the session then holds of a
/// limiter's pieces, is what it held before and what that limiter has let through.
pub proof fn law_session_keeps_accounts<C>(
    session: SpeedLimitSession<C>,
    piece: Option<usize>,
    level: nat,
)
    requires
        session.accepts(piece),
        level < session.depth(),
    ensures
        ({
            let (after, step) = session.advanced(piece);
            after.credit(level) + step.granted() == session.credit(level) + session.admitted(
                piece,
                level,
            )
        }),
    decreases session,
{
    if let Some(upper) = session.upper_session {
        if session.upper_remainder == 0 {
            law_grants_are_positive(*upper, piece);
            if level > 0 {
                law_session_keeps_accounts(*upper, piece, (level - 1) as nat);
            }
        }
    }
}

/// A session that is held up stays so until it gets a piece, and a call without one changes
/// nothing.
pub proof fn law_held_session_waits<C>(session: SpeedLimitSession<C>)
    requires
        session.held_at() is Some,
    ensures
        session.advanced(None) == (
            session,
            SessionStep::<C>::Acquire(session.limiter_at(session.held_at()->0)),
        ),
    decreases session,
{
    if let Some(upper) = session.upper_session {
        if session.upper_remainder == 0 {
            law_held_session_waits(*upper);
        }
    }
}

/// With each piece a session is held up further down the chain, or not at all: one piece of each
/// limiter at most goes into a grant.
pub proof fn law_pieces_lead_down_the_chain<C>(session: SpeedLimitSession<C>, piece: usize)
    requires
        session.accepts(Some(piece)),
        session.held_at() is Some,
    ensures
        session.advanced(Some(piece)).1 is Acquire ==> (session.advanced(
            Some(piece),
        ).0.held_at() matches Some(level) && level < session.held_at()->0),
    decreases session,
{
    if let Some(upper) = session.upper_session {
        if session.upper_remainder == 0 {
            law_grants_are_positive(*upper, Some(piece));
            law_pieces_lead_down_the_chain(*upper, piece);
        }
    }
}

/// Over any calls, what a session has granted and what it holds of a limiter's pieces is what it
/// held at first and what that limiter has let through.
pub proof fn law_session_totals<C>(
    session: SpeedLimitSession<C>,
    pieces: Seq<Option<usize>>,
    level: nat,
)
    requires
        session.accepts_all(pieces),
        level < session.depth(),
    ensures
        session.after(pieces).depth() == session.depth(),
        session.after(pieces).credit(level) + session.total_granted(pieces) == session.credit(level)
            + session.total_admitted(pieces, level),
    decreases pieces.len(),
{
    if pieces.len() > 0 {
        let before = session.after(pieces.drop_last());
        law_session_totals(session, pieces.drop_last(), level);
        law_chain_is_fixed(before, pieces.last(), level);
        law_session_keeps_accounts(before, pieces.last(), level);
    }
}

/// A fresh session holds nothing of any limiter.
pub proof fn lemma_fresh_session_holds_nothing<C>(limiter: SpeedLimiterRef<C>, level: nat)
    ensures
        limiter.fresh_session().credit(level) == 0,
    decreases limiter,
{
    if let Some(upper) = limiter.upper {
        if level > 0 {
            lemma_fresh_session_holds_nothing(upper, (level - 1) as nat);
        }
    }
}

/// A session that starts fresh never grants more than any one limiter of its chain has let
/// through.
pub proof fn law_no_limiter_is_outrun<C>(
    limiter: SpeedLimiterRef<C>,
    pieces: Seq<Option<usize>>,
    level: nat,
)
    requires
        limiter.fresh_session().accepts_all(pieces),
        level < limiter.fresh_session().depth(),
    ensures
        limiter.fresh_session().total_granted(pieces) <= limiter.fresh_session().total_admitted(
            pieces,
            level,
        ),
{
    lemma_fresh_session_holds_nothing(limiter, level);
    law_session_totals(limiter.fresh_session(), pieces, level);
}

/// A limiter has the weight that was asked for, or 64 KiB where none was. It has a quota exactly
/// where a rate was asked for and is not the one that stands for "no limit". The quota then has as
/// many cells in a burst as the rate, and as many cells come back in a second, up to rounding.
pub proof fn law_limits_are_as_asked_for(
    settings: LimitSettings,
    rate: Option<u32>,
    weight: Option<u32>,
)
    requires
        settings.is_limit(rate, weight),
        valid_limit(rate, weight),
    ensures
        weight matches Some(w) ==> settings.weight == w,
        weight is None ==> settings.weight == 64 * 1024,
        rate is None ==> settings.quota is None,
        rate matches Some(r) ==> (settings.quota is None <==> r == 0xffff_ffff),
        rate matches Some(r) ==> (settings.quota matches Some(quota) ==> {
            &&& quota_burst(quota) == r
            &&& quota_interval_nanos(quota) * r <= 1_000_000_000
            &&& (quota_interval_nanos(quota) + 1) * r > 1_000_000_000
        }),
{
    if let Some(r) = rate {
        let cells = r as nat;
        let interval = 1_000_000_000nat / cells;
        assert(interval * cells <= 1_000_000_000 && (interval + 1) * cells > 1_000_000_000)
            by (nonlinear_arith)
            requires
                cells > 0,
                interval == 1_000_000_000nat / cells,
        ;
    }
}

/// A rate and a weight can be asked for exactly where neither is zero.
pub proof fn law_any_limit_but_zero_can_be_asked_for(rate: Option<u32>, weight: Option<u32>)
    ensures
        valid_limit(rate, weight) <==> rate != Some(0u32) && weight != Some(0u32),
{
}

/// A fresh session is bound by the limiter that it is made for, and through a fresh session of its
/// own by each limiter above, and has nothing left over.
pub proof fn law_fresh_session_is_bound_by_the_whole_chain<C>(limiter: SpeedLimiterRef<C>)
    ensures
        limiter.fresh_session().limiter == limiter,
        limiter.fresh_session().upper_remainder == 0,
        limiter.fresh_session().local_remainder == 0,
        match limiter.upper {
            Some(upper) => limiter.fresh_session().upper_session == Some(
                Box::new(upper.fresh_session()),
            ),
            None => limiter.fresh_session().upper_session is None,
        },
{
}

/// A session at the top of its chain grants each piece whole, and grants nothing without one.
pub proof fn law_top_session_grants_pieces_whole<C>(
    session: SpeedLimitSession<C>,
    piece: Option<usize>,
)
    requires
        session.upper_session is None,
    ensures
        session.advanced(piece).0 == session,
        piece matches Some(n) ==> session.advanced(piece).1 == SessionStep::<C>::Granted(n),
        piece is None ==> session.advanced(piece).1 == SessionStep::<C>::Acquire(session.limiter),
{
}

/// A session below another draws on that one only where it has nothing left of it, and on its own
/// limiter only where it has nothing left of that. It grants all that both leave: at least one of
/// the two is used up by a grant, and neither loses more than is granted.
pub proof fn law_session_grants_all_that_both_leave<C>(
    session: SpeedLimitSession<C>,
    upper: SpeedLimitSession<C>,
    piece: Option<usize>,
)
    requires
        session.upper_session == Some(Box::new(upper)),
        session.accepts(piece),
    ensures
        ({
            let (after, step) = session.advanced(piece);
            let (upper_after, upper_step) = upper.advanced(piece);
            // What there is of the session above, if that does not have to wait, and what the piece
            // is for.
            let above = if session.upper_remainder > 0 {
                Some(session.upper_remainder)
            } else {
                match upper_step {
                    SessionStep::Granted(n) => Some(n),
                    SessionStep::Acquire(_) => None,
                }
            };
            let own = if session.local_remainder > 0 {
                Some(session.local_remainder)
            } else if session.upper_remainder > 0 {
                piece
            } else {
                None
            };
            &&& after.limiter == session.limiter
            &&& session.upper_remainder > 0 ==> after.upper_session == session.upper_session
            &&& session.upper_remainder == 0 ==> after.upper_session == Some(Box::new(upper_after))
            &&& above is None ==> {
                &&& step == upper_step
                &&& after.upper_remainder == 0
                &&& after.local_remainder == session.local_remainder
            }
            &&& above is Some && own is None ==> {
                &&& step == SessionStep::<C>::Acquire(session.limiter)
                &&& after.upper_remainder == above->0
                &&& after.local_remainder == 0
            }
            &&& above is Some && own is Some ==> (step matches SessionStep::Granted(n) && {
                &&& after.upper_remainder + n == above->0
                &&& after.local_remainder + n == own->0
                &&& after.upper_remainder == 0 || after.local_remainder == 0
            })
        }),
{
    if session.upper_remainder == 0 {
        law_grants_are_positive(upper, piece);
    }
}

/// A session takes a piece exactly where it waits for one and the piece is not empty: at the top of
/// the chain always; elsewhere where the session above waits and nothing of it is left, or where
/// something of it is left and nothing of the own limiter.
pub proof fn law_when_a_session_takes_a_piece<C>(session: SpeedLimitSession<C>, piece: usize)
    ensures
        session.accepts(None),
        session.accepts(Some(piece)) <==> piece > 0 && match session.upper_session {
            None => true,
            Some(upper) => if session.upper_remainder == 0 {
                upper.accepts(Some(piece))
            } else {
                session.local_remainder == 0
            },
        },
{
}

/// A limiter lets data through in pieces of its weight, and has a cell of its quota waited for
/// exactly where it has one.
pub proof fn law_pieces_have_the_weight(settings: &LimitSettings, admission: Admission)
    requires
        call_ensures(LimitSettings::until_ready, (settings,), admission),
    ensures
        admission.piece_size == settings.weight,
        admission.gated <==> settings.quota is Some,
{
}

/// Sessions and limiters come to what is described of them.
pub proof fn law_limiters_do_what_is_described<C>()
    ensures
        forall|session: &mut SpeedLimitSession<C>, piece: Option<usize>, step: SessionStep<C>|
            #[trigger] call_ensures(SpeedLimitSession::<C>::until_ready, (session, piece), step)
                ==> (*final(session), step) == (*session).advanced(piece),
        forall|limiter: &SpeedLimiterRef<C>, session: SpeedLimitSession<C>| #[trigger]
            call_ensures(SpeedLimiter::<C>::new_limit_session, (limiter,), session) ==> session
                == limiter.fresh_session(),
        forall|upper: Option<SpeedLimiterRef<C>>, limiter: C, made: SpeedLimiterRef<C>| #[trigger]
            call_ensures(SpeedLimiter::<C>::with_settings, (upper, limiter), made) ==> made.upper
                == upper && made.limiter == limiter,
        forall|rate: Option<u32>, weight: Option<u32>, settings: LimitSettings| #[trigger]
            call_ensures(LimitSettings::new, (rate, weight), settings) ==> settings.is_limit(
                rate,
                weight,
            ),
        forall|settings: &mut LimitSettings, rate: Option<u32>, weight: Option<u32>| #[trigger]
            call_ensures(LimitSettings::set_limit, (settings, rate, weight), ()) ==> (*final(settings)).is_limit(rate, weight),
        forall|upper: Option<SpeedLimiterRef>,
            rate: Option<u32>,
            weight: Option<u32>,
            limiter: SpeedLimiterRef| #[trigger]
            call_ensures(SpeedLimiter::<LimitSettings>::new, (upper, rate, weight), limiter)
                ==> limiter.upper == upper && limiter.limiter.is_limit(rate, weight),
        forall|limiter: &mut SpeedLimiter, rate: Option<u32>, weight: Option<u32>| #[trigger]
            call_ensures(SpeedLimiter::<LimitSettings>::set_limit, (limiter, rate, weight), ())
                ==> (*final(limiter)).upper == (*limiter).upper && (*final(limiter)).limiter.is_limit(rate, weight),
{
}

} // verus!
