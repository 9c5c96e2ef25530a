//! The `Date` header value: the current time rendered once per second.
//!
//! The clock and the calendar rendering come from outside; the cache logic
//! around them — refresh at most once per second, hand out the latest
//! rendering — is verified for every rendering the outside code returns.

use vstd::prelude::*;

verus! {

/// The RFC 822 rendering of a moment, given as seconds since the epoch,
/// in UTC. It depends on the timestamp alone.
pub uninterp spec fn rfc822_of(sec: int) -> Seq<char>;

/// The last second the renderer is asked about: the end of year 9999.
/// Beyond some far larger timestamps the platform's calendar conversion
/// gives up instead of returning, so the library stays well inside.
pub const MAX_DATE_SECS: i64 = 253402300799;

/// Relies on time::at_utc and time::Tm::rfc822: the UTC calendar rendering
/// of a timestamp, with fixed English day and month names, a function of
/// the timestamp alone. The calendar conversion panics on timestamps whose
/// year cannot be represented, so the timestamp is kept to years up to
/// 9999.
#[verifier::external_body]
fn format_rfc822(sec: i64) -> (r: String)
    requires
        0 <= sec <= MAX_DATE_SECS,
    ensures
        r@ == rfc822_of(sec as int),
{
    let tm = time::at_utc(time::Timespec::new(sec, 0));
    format!("{}", tm.rfc822())
}

/// Relies on time::get_time: the wall clock's seconds since the epoch.
/// Nothing is promised of the value; every use holds for any reading.
#[verifier::external_body]
fn clock_now_secs() -> i64 {
    time::get_time().sec
}

/// A per-process cache of the rendered `Date` value, refreshed at most
/// once per second.
pub struct DateCache {
    rendered: String,
    next_update: i64,
    primed: bool,
}

impl DateCache {
    /// Whether the cache has rendered anything yet.
    pub closed spec fn primed(self) -> bool {
        self.primed
    }

    /// The second after the one the cache rendered.
    pub closed spec fn next_update(self) -> int {
        self.next_update as int
    }

    /// A primed cache holds the rendering of the second before its next
    /// refresh point.
    pub closed spec fn wf(self) -> bool {
        self.primed ==> self.rendered@ == rfc822_of(self.next_update - 1)
    }

    /// An empty cache; the first request renders.
    pub fn new() -> (r: DateCache)
        ensures
            r.wf(),
            !r.primed(),
    {
        DateCache { rendered: String::new(), next_update: 0, primed: false }
    }

    /// The `Date` value for the moment `now_sec`: rendered fresh when the
    /// cached second has passed, otherwise the cached rendering, so the
    /// outside renderer runs at most once per second.
    pub fn header_value(&mut self, now_sec: i64) -> (r: String)
        requires
            old(self).wf(),
            0 <= now_sec <= MAX_DATE_SECS,
        ensures
            final(self).wf(),
            final(self).primed(),
            r@ == rfc822_of(final(self).next_update() - 1),
            (!old(self).primed() || now_sec >= old(self).next_update()) ==> {
                &&& final(self).next_update() == now_sec + 1
                &&& r@ == rfc822_of(now_sec as int)
            },
            (old(self).primed() && now_sec < old(self).next_update()) ==> {
                &&& *final(self) == *old(self)
                &&& r@ == rfc822_of(old(self).next_update() - 1)
            },
    {
        if !self.primed || now_sec >= self.next_update {
            self.rendered = format_rfc822(now_sec);
            self.next_update = now_sec + 1;
            self.primed = true;
        }
        self.rendered.clone()
    }
}

/// A captured moment, to be rendered as a `Date` header value.
pub struct Now {
    pub sec: i64,
}

/// Capture the present moment from the process clock.
pub fn now() -> Now {
    Now { sec: clock_now_secs() }
}

impl Now {
    /// Render this moment through the cache: fresh when the cached second
    /// has passed, otherwise the cached rendering.
    pub fn render(&self, cache: &mut DateCache) -> (r: String)
        requires
            old(cache).wf(),
            0 <= self.sec <= MAX_DATE_SECS,
        ensures
            final(cache).wf(),
            final(cache).primed(),
            r@ == rfc822_of(final(cache).next_update() - 1),
            (!old(cache).primed() || self.sec >= old(cache).next_update()) ==> {
                &&& final(cache).next_update() == self.sec + 1
                &&& r@ == rfc822_of(self.sec as int)
            },
            (old(cache).primed() && self.sec < old(cache).next_update()) ==> {
                &&& *final(cache) == *old(cache)
                &&& r@ == rfc822_of(old(cache).next_update() - 1)
            },
    {
        cache.header_value(self.sec)
    }
}

} // verus!
