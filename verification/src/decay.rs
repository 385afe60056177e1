//! From heartbeat ages to visibility weights.
//!
//! A slot whose heartbeat is `age` seconds old, under a time-to-live of `ttl`
//! seconds, is drawn with the weight `1 - age / ttl`, kept between zero and
//! one. The weight is held exactly, as a fraction with the time-to-live as
//! its denominator.

use vstd::prelude::*;
use crate::decimal::{decimal_i64, decimal_text, lemma_decimal_round_trip, parse_decimal};
use crate::store::PresenceSnapshot;

verus! {

/// A visibility weight, held as the fraction `numer / denom`.
#[derive(Clone, Copy, Debug, PartialEq, Eq, Structural)]
pub struct Opacity {
    pub numer: u32,
    pub denom: u32,
}

/// The visibility weight of every slot of a grid, in slot order.
pub type VisibilityGrid = Vec<Opacity>;

/// The quotient of two integers as a real number.
pub open spec fn ratio(numer: int, denom: int) -> real {
    numer as real / denom as real
}

/// `x` where it lies between zero and one, and the nearer of the two where
/// it does not.
pub open spec fn clamp_unit(x: real) -> real {
    if x < 0 as real {
        0 as real
    } else if x > 1 as real {
        1 as real
    } else {
        x
    }
}

/// The seconds that a heartbeat of the given age still has to live, out of
/// `ttl`: all of them for a heartbeat from the future, none once it is as
/// old as the time-to-live.
pub open spec fn remaining(age: int, ttl: int) -> int {
    if age >= ttl {
        0
    } else if age <= 0 {
        ttl
    } else {
        ttl - age
    }
}

/// The weight of `seconds` seconds left to live out of `ttl`. The
/// denominator is the time-to-live, and one where that is zero.
pub open spec fn weight(seconds: int, ttl: u32) -> Opacity {
    Opacity {
        numer: seconds as u32,
        denom: if ttl == 0 {
            1
        } else {
            ttl
        },
    }
}

/// The weight of a slot that is absent: zero.
pub open spec fn absent(ttl: u32) -> Opacity {
    weight(0, ttl)
}

/// The weight of a heartbeat of the given age. A time-to-live of zero keeps
/// nothing alive: every weight under it is zero.
pub open spec fn decay(age: int, ttl: u32) -> Opacity {
    weight(remaining(age, ttl as int), ttl)
}

/// The weight of a slot whose stored value is `entry`: that of the
/// heartbeat's age where the value is a timestamp, and zero where the value
/// is missing or is no timestamp.
pub open spec fn entry_decay(entry: Option<Seq<char>>, now: i64, ttl: u32) -> Opacity {
    match entry {
        Some(text) => match decimal_i64(text) {
            Some(last_seen) => decay(now - last_seen, ttl),
            None => absent(ttl),
        },
        None => absent(ttl),
    }
}

/// The weight of a slot as the visitor at `own_slot` is shown it. The
/// visitor's own heartbeat is part of the round trip that took the snapshot,
/// so the visitor's own slot has the weight of a heartbeat written now,
/// whatever the store has answered for it.
pub open spec fn shown_decay(
    snapshot: Seq<Option<Seq<char>>>,
    own_slot: u32,
    slot: int,
    now: i64,
    ttl: u32,
) -> Opacity {
    if slot == own_slot {
        decay(0, ttl)
    } else {
        entry_decay(snapshot[slot], now, ttl)
    }
}

impl Opacity {
    /// A weight is a fraction between zero and one with a denominator that
    /// is not zero.
    pub open spec fn wf(self) -> bool {
        0 < self.denom && self.numer <= self.denom
    }

    /// The weight as a real number.
    pub open spec fn value(self) -> real {
        ratio(self.numer as int, self.denom as int)
    }
}

/// Turns the heartbeats of a grid into visibility weights.
pub struct DecayCalculator;

impl DecayCalculator {
    /// The weight of `seconds` seconds left to live out of `ttl_seconds`.
    fn weigh(seconds: u32, ttl_seconds: u32) -> (opacity: Opacity)
        requires
            seconds <= ttl_seconds,
        ensures
            opacity == weight(seconds as int, ttl_seconds),
            opacity.wf(),
    {
        Opacity {
            numer: seconds,
            denom: if ttl_seconds == 0 {
                1
            } else {
                ttl_seconds
            },
        }
    }

    /// The weight of a slot last seen at `last_seen`, as of `now`.
    pub fn opacity(last_seen: i64, now: i64, ttl_seconds: u32) -> (opacity: Opacity)
        ensures
            opacity == decay(now - last_seen, ttl_seconds),
            opacity.wf(),
    {
        let age: i128 = now as i128 - last_seen as i128;
        if age >= ttl_seconds as i128 {
            Self::weigh(0, ttl_seconds)
        } else if age <= 0 {
            Self::weigh(ttl_seconds, ttl_seconds)
        } else {
            Self::weigh((ttl_seconds as i128 - age) as u32, ttl_seconds)
        }
    }

    /// The weight of a slot whose stored value is `entry`, as of `now`.
    ///
    /// A value that is missing, or present but no timestamp, makes the slot
    /// absent: its weight is zero, and no error is raised for it.
    pub fn entry_opacity(entry: &Option<String>, now: i64, ttl_seconds: u32) -> (opacity: Opacity)
        ensures
            opacity == entry_decay(entry.deep_view(), now, ttl_seconds),
            opacity.wf(),
    {
        let last_seen = match entry {
            Some(text) => parse_decimal(text.as_str()),
            None => None,
        };
        match last_seen {
            Some(at) => Self::opacity(at, now, ttl_seconds),
            None => Self::weigh(0, ttl_seconds),
        }
    }

    /// The weights of all slots of a snapshot, in slot order.
    pub fn compute_grid(snapshot: &PresenceSnapshot, now: i64, ttl_seconds: u32) -> (grid:
        VisibilityGrid)
        ensures
            grid.len() == snapshot.len(),
            forall|slot: int|
                0 <= slot < grid.len() ==> #[trigger] grid[slot] == entry_decay(
                    snapshot.deep_view()[slot],
                    now,
                    ttl_seconds,
                ),
            forall|slot: int|
                0 <= slot < grid.len() ==> (#[trigger] grid[slot]).wf() && (0 as real)
                    <= grid[slot].value() <= (1 as real),
    {
        let mut grid: VisibilityGrid = Vec::new();
        let mut slot: usize = 0;
        while slot < snapshot.len()
            invariant
                slot <= snapshot.len(),
                grid.len() == slot,
                forall|s: int|
                    0 <= s < slot ==> #[trigger] grid[s] == entry_decay(
                        snapshot.deep_view()[s],
                        now,
                        ttl_seconds,
                    ),
                forall|s: int|
                    0 <= s < slot ==> (#[trigger] grid[s]).wf() && (0 as real) <= grid[s].value()
                        <= (1 as real),
            decreases snapshot.len() - slot,
        {
            let opacity = Self::entry_opacity(&snapshot[slot], now, ttl_seconds);
            proof {
                lemma_opacity_in_unit_range(opacity);
            }
            grid.push(opacity);
            slot += 1;
        }
        grid
    }

    /// The weights of all slots of a snapshot as the visitor at `own_slot`
    /// is shown them: those of the snapshot, but for the visitor's own slot,
    /// which has the weight of a heartbeat written now.
    pub fn compute_grid_for(
        snapshot: &PresenceSnapshot,
        now: i64,
        ttl_seconds: u32,
        own_slot: u32,
    ) -> (grid: VisibilityGrid)
        ensures
            grid.len() == snapshot.len(),
            forall|slot: int|
                0 <= slot < grid.len() ==> #[trigger] grid[slot] == shown_decay(
                    snapshot.deep_view(),
                    own_slot,
                    slot,
                    now,
                    ttl_seconds,
                ),
            forall|slot: int|
                0 <= slot < grid.len() ==> (#[trigger] grid[slot]).wf() && (0 as real)
                    <= grid[slot].value() <= (1 as real),
    {
        let mut grid = Self::compute_grid(snapshot, now, ttl_seconds);
        if (own_slot as usize) < grid.len() {
            let own = Self::opacity(now, now, ttl_seconds);
            proof {
                lemma_opacity_in_unit_range(own);
            }
            grid.set(own_slot as usize, own);
        }
        grid
    }
}

/// Every well-formed weight lies between zero and one.
pub proof fn lemma_opacity_in_unit_range(opacity: Opacity)
    requires
        opacity.wf(),
    ensures
        (0 as real) <= opacity.value() <= (1 as real),
{
    let n = opacity.numer as real;
    let d = opacity.denom as real;
    assert((0 as real) <= n / d <= (1 as real)) by (nonlinear_arith)
        requires
            (0 as real) <= n <= d,
            (0 as real) < d,
    ;
}

/// The weight of a heartbeat is a well-formed fraction, whatever its age and
/// the time-to-live.
pub proof fn lemma_decay_wf(age: int, ttl: u32)
    ensures
        decay(age, ttl).wf(),
        (0 as real) <= decay(age, ttl).value() <= (1 as real),
{
    lemma_opacity_in_unit_range(decay(age, ttl));
}

/// Under a time-to-live that is not zero, the weight of a heartbeat is
/// `1 - age / ttl`, kept between zero and one.
pub proof fn lemma_decay_formula(age: int, ttl: u32)
    requires
        ttl > 0,
    ensures
        decay(age, ttl).value() == clamp_unit((1 as real) - ratio(age, ttl as int)),
{
    let a = age as real;
    let t = ttl as real;
    let r = remaining(age, ttl as int) as real;
    assert(decay(age, ttl).value() == r / t);
    if age >= ttl {
        assert(r / t == 0 as real && (1 as real) - a / t <= (0 as real)) by (nonlinear_arith)
            requires
                r == (0 as real),
                a >= t,
                t > (0 as real),
        ;
    } else if age <= 0 {
        assert(r / t == 1 as real && (1 as real) - a / t >= (1 as real)) by (nonlinear_arith)
            requires
                r == t,
                a <= (0 as real),
                t > (0 as real),
        ;
    } else {
        assert(r / t == (1 as real) - a / t && (0 as real) <= r / t <= (1 as real))
            by (nonlinear_arith)
            requires
                r == t - a,
                (0 as real) < a < t,
        ;
    }
}

/// A heartbeat written this very second, or stamped by a clock that runs
/// ahead, has the full weight.
pub proof fn lemma_fresh_is_opaque(age: int, ttl: u32)
    requires
        ttl > 0,
        age <= 0,
    ensures
        decay(age, ttl).numer == decay(age, ttl).denom,
        decay(age, ttl).value() == 1 as real,
{
    let t = ttl as real;
    assert(t / t == 1 as real) by (nonlinear_arith)
        requires
            t > (0 as real),
    ;
}

/// A heartbeat that is as old as the time-to-live, or older, has no weight.
pub proof fn lemma_expired_is_transparent(age: int, ttl: u32)
    requires
        age >= ttl,
    ensures
        decay(age, ttl).numer == 0,
        decay(age, ttl).value() == 0 as real,
{
    let d = decay(age, ttl).denom as real;
    assert((0 as real) / d == 0 as real) by (nonlinear_arith)
        requires
            d > (0 as real),
    ;
}

/// Under one time-to-live, an older heartbeat never weighs more than a
/// younger one.
pub proof fn lemma_decay_monotonic(younger: int, older: int, ttl: u32)
    requires
        younger <= older,
    ensures
        decay(older, ttl).numer <= decay(younger, ttl).numer,
        decay(older, ttl).denom == decay(younger, ttl).denom,
        decay(older, ttl).value() <= decay(younger, ttl).value(),
{
    let lo = decay(older, ttl).numer as real;
    let hi = decay(younger, ttl).numer as real;
    let d = decay(older, ttl).denom as real;
    assert(lo / d <= hi / d) by (nonlinear_arith)
        requires
            lo <= hi,
            d > (0 as real),
    ;
}

/// A heartbeat that is read back in the second in which it was written, as
/// the numeral that was written, has the full weight. So where the store
/// lets the read of a pipeline see the write before it, a visitor is shown
/// exactly the weights of the snapshot.
pub proof fn lemma_own_heartbeat_is_opaque(
    snapshot: Seq<Option<Seq<char>>>,
    own_slot: u32,
    now: i64,
    ttl: u32,
)
    requires
        ttl > 0,
        own_slot < snapshot.len(),
        snapshot[own_slot as int] == Some(decimal_text(now as int)),
    ensures
        entry_decay(snapshot[own_slot as int], now, ttl) == (Opacity { numer: ttl, denom: ttl }),
        entry_decay(snapshot[own_slot as int], now, ttl).value() == 1 as real,
        forall|slot: int|
            0 <= slot < snapshot.len() ==> #[trigger] shown_decay(
                snapshot,
                own_slot,
                slot,
                now,
                ttl,
            ) == entry_decay(snapshot[slot], now, ttl),
{
    lemma_decimal_round_trip(now as int);
    lemma_fresh_is_opaque(0, ttl);
}

} // verus!
