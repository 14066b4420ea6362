//! Item lifetimes: [`Ttl`] for every write verb and [`Freshness`] for
//! `fetch`.
//!
//! `Ttl` is opaque. Constructors never fail; the verb that sends the value
//! validates it, so a bad one is reported where it is used. The protocol
//! rules (0 means "never expires", a value above 30 days is an absolute unix
//! timestamp) are applied at send time and cannot be triggered by accident: a
//! zero TTL is a usage error rather than a silent "keep forever", and a long
//! relative TTL is turned into an absolute timestamp only when the command is
//! encoded.

use vstd::prelude::*;

use super::error;
use super::error::{Error, ErrorView};
use crate::time::{Duration, SystemTime, NANOS_PER_SEC};

verus! {

/// Relative TTLs above this many seconds are read by the server as absolute
/// unix timestamps: 30 days.
pub const MAX_RELATIVE_SECS: u32 = 2_592_000;

#[derive(Clone, Copy, Debug, PartialEq, Eq, Structural)]
pub enum TtlRepr {
    Never,
    Secs(u32),
    At(SystemTime),
    /// A protocol-layer passthrough: sent verbatim, no rules applied.
    Raw(u32),
}

/// How long a stored item lives. See the [module docs](self).
#[derive(Clone, Copy, Debug, PartialEq, Eq, Structural)]
pub struct Ttl {
    pub repr: TtlRepr,
}

/// The 32-bit timestamp of a moment that lies `nanos` after the epoch.
pub open spec fn timestamp(nanos: int) -> Result<u32, ErrorView> {
    let secs = nanos / (NANOS_PER_SEC as int);
    if nanos < 0 {
        Err(error::usage("absolute ttl is before the unix epoch"))
    } else if secs > u32::MAX {
        Err(error::usage("absolute ttl does not fit the protocol's 32-bit timestamp"))
    } else {
        Ok(secs as u32)
    }
}

/// The whole seconds from the epoch to a moment, none for one before it.
pub open spec fn clock_secs(now: SystemTime) -> int {
    if now.nanos < 0 {
        0
    } else {
        now.nanos as int / (NANOS_PER_SEC as int)
    }
}

/// `a - b`, but not below zero.
pub open spec fn minus_or_zero(a: int, b: int) -> int {
    if a > b {
        a - b
    } else {
        0
    }
}

impl Ttl {
    /// The item never expires (it can still be evicted).
    pub fn never() -> (r: Ttl)
        ensures
            r.repr == TtlRepr::Never,
    {
        Ttl { repr: TtlRepr::Never }
    }

    /// What the TTL is on the wire when the command is encoded at `now`.
    pub open spec fn wire_spec(self, now: SystemTime) -> Result<u32, ErrorView> {
        match self.repr {
            TtlRepr::Never => Ok(0),
            TtlRepr::Raw(n) => Ok(n),
            TtlRepr::Secs(n) => if n == 0 {
                Err(error::usage("ttl must be at least one second; use Ttl::NEVER for no expiry"))
            } else if n <= MAX_RELATIVE_SECS {
                Ok(n)
            } else {
                timestamp(now.nanos + n * NANOS_PER_SEC)
            },
            TtlRepr::At(t) => match timestamp(t.nanos as int) {
                Err(e) => Err(e),
                Ok(secs) => if secs <= MAX_RELATIVE_SECS {
                    Err(error::usage("absolute ttl must be later than 30 days after the unix epoch"))
                } else {
                    Ok(secs)
                },
            },
        }
    }

    /// The seconds left before expiry at `now`; none for a TTL that never
    /// expires.
    pub open spec fn remaining_spec(self, now: SystemTime) -> Result<Option<int>, ErrorView> {
        match self.repr {
            TtlRepr::Never => Ok(None),
            TtlRepr::Secs(n) => Ok(Some(n as int)),
            TtlRepr::Raw(n) => if n == 0 {
                Ok(None)
            } else if n <= MAX_RELATIVE_SECS {
                Ok(Some(n as int))
            } else {
                Ok(Some(minus_or_zero(n as int, clock_secs(now))))
            },
            TtlRepr::At(t) => match timestamp(t.nanos as int) {
                Err(e) => Err(e),
                Ok(secs) => Ok(Some(minus_or_zero(secs as int, clock_secs(now)))),
            },
        }
    }

    /// Expire `n` seconds from the moment the command is sent. `0` is not
    /// "never": it is rejected by the verb that sends it, use
    /// [`never`](Self::never) instead. Values above 30 days are sent as an
    /// absolute timestamp computed at send time.
    pub fn secs(n: u32) -> (r: Ttl)
        ensures
            r.repr == TtlRepr::Secs(n),
    {
        Ttl { repr: TtlRepr::Secs(n) }
    }

    /// Expire at an absolute moment.
    pub fn at(t: SystemTime) -> (r: Ttl)
        ensures
            r.repr == TtlRepr::At(t),
    {
        Ttl { repr: TtlRepr::At(t) }
    }

    /// Turn this TTL into a [`Freshness`] that also asks `fetch` to refresh
    /// the value `d` before it expires. Only `fetch` accepts a `Freshness`, so
    /// the modifier cannot leak into plain writes.
    pub fn refresh_ahead(self, d: Duration) -> (r: Freshness)
        ensures
            r == (Freshness { ttl: self, refresh_ahead: Some(d) }),
    {
        Freshness { ttl: self, refresh_ahead: Some(d) }
    }

    /// A protocol-layer passthrough for callers who already hold a wire value
    /// (for example an absolute timestamp). No rules are applied.
    pub fn raw(n: u32) -> (r: Ttl)
        ensures
            r.repr == TtlRepr::Raw(n),
    {
        Ttl { repr: TtlRepr::Raw(n) }
    }

    /// Encode for the wire, applying the protocol rules as of `now`.
    pub fn wire_at(self, now: SystemTime) -> (r: Result<u32, Error>)
        ensures
            match r {
                Ok(n) => self.wire_spec(now) == Ok::<u32, ErrorView>(n),
                Err(e) => self.wire_spec(now) == Err::<u32, ErrorView>(e@),
            },
    {
        match self.repr {
            TtlRepr::Never => Ok(0),
            TtlRepr::Raw(n) => Ok(n),
            TtlRepr::Secs(n) => {
                if n == 0 {
                    Err(Error::Usage("ttl must be at least one second; use Ttl::NEVER for no expiry"))
                } else if n <= MAX_RELATIVE_SECS {
                    Ok(n)
                } else {
                    unix_secs(now.saturating_add(Duration::from_secs(n as u64)))
                }
            },
            TtlRepr::At(t) => match unix_secs(t) {
                Err(e) => Err(e),
                Ok(secs) => {
                    if secs <= MAX_RELATIVE_SECS {
                        // The server would read it as a relative duration.
                        Err(Error::Usage("absolute ttl must be later than 30 days after the unix epoch"))
                    } else {
                        Ok(secs)
                    }
                },
            },
        }
    }

    /// Encode for the wire, applying the protocol rules now.
    pub fn wire(self) -> (r: Result<u32, Error>)
        ensures
            exists|now: SystemTime|
                match r {
                    Ok(n) => #[trigger] self.wire_spec(now) == Ok::<u32, ErrorView>(n),
                    Err(e) => self.wire_spec(now) == Err::<u32, ErrorView>(e@),
                },
    {
        let now = SystemTime::now();
        let r = self.wire_at(now);
        assert(match r {
            Ok(n) => self.wire_spec(now) == Ok::<u32, ErrorView>(n),
            Err(e) => self.wire_spec(now) == Err::<u32, ErrorView>(e@),
        });
        r
    }

    /// Seconds left before expiry, measured from `now`, for validating a
    /// refresh window against it. `None` for [`never`](Self::never).
    pub fn remaining_secs_at(self, now: SystemTime) -> (r: Result<Option<u64>, Error>)
        ensures
            match r {
                Ok(Some(n)) => self.remaining_spec(now) == Ok::<Option<int>, ErrorView>(Some(n as int)),
                Ok(None) => self.remaining_spec(now) == Ok::<Option<int>, ErrorView>(None),
                Err(e) => self.remaining_spec(now) == Err::<Option<int>, ErrorView>(e@),
            },
    {
        match self.repr {
            TtlRepr::Never => Ok(None),
            TtlRepr::Secs(n) => Ok(Some(n as u64)),
            TtlRepr::Raw(n) => {
                if n == 0 {
                    Ok(None)
                } else if n <= MAX_RELATIVE_SECS {
                    Ok(Some(n as u64))
                } else {
                    Ok(Some(left_at(n, now)))
                }
            },
            TtlRepr::At(t) => match unix_secs(t) {
                Err(e) => Err(e),
                Ok(secs) => Ok(Some(left_at(secs, now))),
            },
        }
    }
}

/// The seconds from `now` to a timestamp, none when it has passed.
fn left_at(secs: u32, now: SystemTime) -> (r: u64)
    ensures
        r == minus_or_zero(secs as int, clock_secs(now)),
{
    if now.nanos < 0 {
        return secs as u64;
    }
    let clock: u128 = now.nanos as u128 / NANOS_PER_SEC;
    if secs as u128 > clock {
        (secs as u128 - clock) as u64
    } else {
        0
    }
}

fn unix_secs(t: SystemTime) -> (r: Result<u32, Error>)
    ensures
        match r {
            Ok(n) => timestamp(t.nanos as int) == Ok::<u32, ErrorView>(n),
            Err(e) => timestamp(t.nanos as int) == Err::<u32, ErrorView>(e@),
        },
{
    if t.nanos < 0 {
        return Err(Error::Usage("absolute ttl is before the unix epoch"));
    }
    let secs: u128 = t.nanos as u128 / NANOS_PER_SEC;
    if secs > u32::MAX as u128 {
        return Err(Error::Usage("absolute ttl does not fit the protocol's 32-bit timestamp"));
    }
    Ok(secs as u32)
}

/// Whole seconds, rounding a fractional duration up so that a positive
/// duration never collapses to zero; capped at what 32 bits hold.
pub open spec fn ceil_secs_spec(d: Duration) -> u32 {
    if d.ceil_secs() > u32::MAX {
        u32::MAX
    } else {
        d.ceil_secs() as u32
    }
}

fn ceil_secs(d: Duration) -> (r: u32)
    ensures
        r == ceil_secs_spec(d),
        d.nanos > 0 ==> r > 0,
{
    let whole: u128 = d.nanos / NANOS_PER_SEC;
    let secs: u128 = if d.nanos % NANOS_PER_SEC > 0 {
        whole + 1
    } else {
        whole
    };
    assert(secs == d.ceil_secs());
    if secs > u32::MAX as u128 {
        u32::MAX
    } else {
        secs as u32
    }
}

impl vstd::std_specs::convert::FromSpecImpl<Duration> for Ttl {
    open spec fn obeys_from_spec() -> bool {
        true
    }

    open spec fn from_spec(d: Duration) -> Ttl {
        Ttl { repr: TtlRepr::Secs(ceil_secs_spec(d)) }
    }
}

impl From<Duration> for Ttl {
    /// Rounds up to whole seconds. A zero duration is not "never": like
    /// [`Ttl::secs(0)`](Ttl::secs) it is rejected when sent.
    fn from(d: Duration) -> (r: Ttl) {
        Ttl::secs(ceil_secs(d))
    }
}

/// The freshness policy of a `fetch`: a [`Ttl`] plus, optionally, how long
/// before expiry one reader is elected to recompute the value
/// ([`Ttl::refresh_ahead`]).
///
/// Both `Ttl` and `Duration` convert into it; the refresh window is validated
/// when `fetch` runs, not here.
#[derive(Clone, Copy, Debug, PartialEq, Eq, Structural)]
pub struct Freshness {
    pub ttl: Ttl,
    pub refresh_ahead: Option<Duration>,
}

impl Freshness {
    /// The refresh window in whole seconds, as of `now`.
    pub open spec fn window_spec(self, now: SystemTime) -> Result<Option<u32>, ErrorView> {
        match self.refresh_ahead {
            None => Ok(None),
            Some(window) => if window.nanos < NANOS_PER_SEC {
                Err(error::usage("refresh_ahead must be at least one second"))
            } else {
                match self.ttl.remaining_spec(now) {
                    Err(e) => Err(e),
                    Ok(None) => Err(
                        error::usage("refresh_ahead needs an expiring ttl, Ttl::NEVER never enters the window"),
                    ),
                    Ok(Some(remaining)) => if ceil_secs_spec(window) >= remaining {
                        Err(error::usage("refresh_ahead must be shorter than the ttl"))
                    } else {
                        Ok(Some(ceil_secs_spec(window)))
                    },
                }
            },
        }
    }

    pub fn ttl(self) -> (r: Ttl)
        ensures
            r == self.ttl,
    {
        self.ttl
    }

    /// Validate and resolve the refresh window, as of `now`, to whole seconds
    /// for the protocol's `R` token. `None` when no window was requested.
    pub fn refresh_before_secs_at(self, now: SystemTime) -> (r: Result<Option<u32>, Error>)
        ensures
            match r {
                Ok(window) => self.window_spec(now) == Ok::<Option<u32>, ErrorView>(window),
                Err(e) => self.window_spec(now) == Err::<Option<u32>, ErrorView>(e@),
            },
    {
        let window = match self.refresh_ahead {
            None => {
                return Ok(None);
            },
            Some(window) => window,
        };
        if window.nanos < NANOS_PER_SEC {
            return Err(Error::Usage("refresh_ahead must be at least one second"));
        }
        match self.ttl.remaining_secs_at(now) {
            Err(e) => Err(e),
            Ok(None) => Err(
                Error::Usage("refresh_ahead needs an expiring ttl, Ttl::NEVER never enters the window"),
            ),
            Ok(Some(remaining)) => {
                let secs = ceil_secs(window);
                if secs as u64 >= remaining {
                    Err(Error::Usage("refresh_ahead must be shorter than the ttl"))
                } else {
                    Ok(Some(secs))
                }
            },
        }
    }

    /// Validate and resolve the refresh window now.
    pub fn refresh_before_secs(self) -> (r: Result<Option<u32>, Error>)
        ensures
            exists|now: SystemTime|
                match r {
                    Ok(window) => #[trigger] self.window_spec(now) == Ok::<Option<u32>, ErrorView>(window),
                    Err(e) => self.window_spec(now) == Err::<Option<u32>, ErrorView>(e@),
                },
    {
        let now = SystemTime::now();
        let r = self.refresh_before_secs_at(now);
        assert(match r {
            Ok(window) => self.window_spec(now) == Ok::<Option<u32>, ErrorView>(window),
            Err(e) => self.window_spec(now) == Err::<Option<u32>, ErrorView>(e@),
        });
        r
    }
}

impl vstd::std_specs::convert::FromSpecImpl<Ttl> for Freshness {
    open spec fn obeys_from_spec() -> bool {
        true
    }

    open spec fn from_spec(ttl: Ttl) -> Freshness {
        Freshness { ttl, refresh_ahead: None }
    }
}

impl From<Ttl> for Freshness {
    fn from(ttl: Ttl) -> (r: Freshness) {
        Freshness { ttl, refresh_ahead: None }
    }
}

impl vstd::std_specs::convert::FromSpecImpl<Duration> for Freshness {
    open spec fn obeys_from_spec() -> bool {
        true
    }

    open spec fn from_spec(d: Duration) -> Freshness {
        Freshness { ttl: Ttl { repr: TtlRepr::Secs(ceil_secs_spec(d)) }, refresh_ahead: None }
    }
}

impl From<Duration> for Freshness {
    fn from(d: Duration) -> (r: Freshness) {
        Freshness { ttl: Ttl::from(d), refresh_ahead: None }
    }
}

/// Only [`Ttl::never`] and a raw zero are sent as "never expires": every
/// other TTL is rejected or sent as a positive number.
pub proof fn lemma_zero_means_never(ttl: Ttl, now: SystemTime)
    requires
        now.nanos >= 0,
        ttl.wire_spec(now) == Ok::<u32, ErrorView>(0),
    ensures
        ttl.repr == TtlRepr::Never || ttl.repr == TtlRepr::Raw(0),
{
    if let TtlRepr::Secs(n) = ttl.repr {
        if n > MAX_RELATIVE_SECS {
            let nanos = now.nanos + n * NANOS_PER_SEC;
            assert(nanos / (NANOS_PER_SEC as int) >= n) by (nonlinear_arith)
                requires
                    nanos >= n * NANOS_PER_SEC,
                    NANOS_PER_SEC == 1_000_000_000,
            ;
        }
    }
}

/// A relative TTL sent as a timestamp is never read as a relative duration:
/// it is above 30 days.
pub proof fn lemma_long_ttl_is_absolute(n: u32, now: SystemTime)
    requires
        now.nanos >= 0,
        n > MAX_RELATIVE_SECS,
    ensures
        (Ttl { repr: TtlRepr::Secs(n) }).wire_spec(now) matches Ok(secs) ==> secs > MAX_RELATIVE_SECS && secs
            == clock_secs(now) + n,
{
    let base = now.nanos as int;
    let nanos = base + n * NANOS_PER_SEC;
    assert(nanos / 1_000_000_000 == base / 1_000_000_000 + n) by (nonlinear_arith)
        requires
            nanos == base + n * 1_000_000_000,
    ;
}

/// A window that is accepted is shorter than the time left.
pub proof fn lemma_window_fits(freshness: Freshness, now: SystemTime, secs: u32)
    requires
        freshness.window_spec(now) == Ok::<Option<u32>, ErrorView>(Some(secs)),
    ensures
        secs >= 1,
        freshness.ttl.remaining_spec(now) matches Ok(Some(remaining)) && secs < remaining,
{
    let window = freshness.refresh_ahead->0;
    assert(window.ceil_secs() >= 1) by (nonlinear_arith)
        requires
            window.nanos >= 1_000_000_000,
            window.ceil_secs() == (window.nanos + NANOS_PER_SEC - 1) / (NANOS_PER_SEC as int),
            NANOS_PER_SEC == 1_000_000_000,
    ;
}

} // verus!
