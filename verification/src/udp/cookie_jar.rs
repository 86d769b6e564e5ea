//! The secrets that cookies are made and checked with, and their rotation.
//!
//! Time is cut into intervals of equal length. Each interval has a secret of
//! its own; cookies of the interval before are still accepted.

use crate::random::{self, draw};
use crate::table;
use rand::rngs::SmallRng;
use vstd::prelude::*;

verus! {

/// The length of an interval, in nanoseconds.
pub const COOKIE_ROTATION_NS: u64 = 120_000_000_000;

/// The secret that makes new cookies, and the one of the interval before,
/// whose cookies are still accepted.
pub struct CookieJar {
    current: [u8; 32],
    previous: Option<[u8; 32]>,
    since: u64,
}

/// A [`CookieJar`] as a value.
#[verifier::ext_equal]
pub struct JarModel {
    /// Makes new cookies.
    pub current: Seq<u8>,
    /// Made cookies in the interval before.
    pub previous: Option<Seq<u8>>,
    /// The start of the interval of the current secret, in nanoseconds.
    pub since: u64,
}

/// The bytes of an optional secret.
pub open spec fn secret_view(secret: Option<[u8; 32]>) -> Option<Seq<u8>> {
    match secret {
        Some(s) => Some(s@),
        None => None,
    }
}

impl View for CookieJar {
    type V = JarModel;

    closed spec fn view(&self) -> JarModel {
        JarModel {
            current: self.current@,
            previous: secret_view(self.previous),
            since: self.since,
        }
    }
}

/// Whether the interval of the current secret is over at `now`.
pub open spec fn rotation_due(m: JarModel, now: u64) -> bool {
    table::age(now, m.since) >= COOKIE_ROTATION_NS
}

/// The jar at `now`, with `fresh` as the new secret if the interval is over.
/// The secret that is replaced is kept only while the next interval lasts, so
/// after two intervals both secrets are gone.
pub open spec fn rotated(m: JarModel, now: u64, fresh: Seq<u8>) -> JarModel {
    if !rotation_due(m, now) {
        m
    } else {
        JarModel {
            current: fresh,
            previous: if table::age(now, m.since) < 2 * COOKIE_ROTATION_NS {
                Some(m.current)
            } else {
                None
            },
            since: (now - table::age(now, m.since) % 120_000_000_000) as u64,
        }
    }
}

/// Whether cookies that were made with `secret` are accepted.
pub open spec fn trusts(m: JarModel, secret: Seq<u8>) -> bool {
    m.current == secret || m.previous == Some(secret)
}

impl CookieJar {
    /// A jar with the one secret `secret`, whose interval starts at `now`.
    pub fn with_secret(secret: [u8; 32], now: u64) -> (jar: Self)
        ensures
            jar@ == (JarModel { current: secret@, previous: None, since: now }),
    {
        CookieJar { current: secret, previous: None, since: now }
    }

    /// A jar with one secret drawn from `rng`, whose interval starts at `now`.
    pub fn new(rng: &mut SmallRng, now: u64) -> (jar: Self)
        ensures
            jar@.previous is None,
            jar@.since == now,
            jar@.current.len() == 32,
            random::drawn(jar@.current),
    {
        let secret: [u8; 32] = draw(rng);
        CookieJar::with_secret(secret, now)
    }

    /// Whether the interval of the current secret is over at `now`.
    pub fn due(&self, now: u64) -> (b: bool)
        ensures
            b == rotation_due(self@, now),
    {
        now >= self.since && now - self.since >= COOKIE_ROTATION_NS
    }

    /// Brings the jar up to date: replaces the secret by `fresh`, if its
    /// interval is over at `now`.
    pub fn rotate_with(&mut self, now: u64, fresh: [u8; 32])
        ensures
            final(self)@ == rotated(old(self)@, now, fresh@),
    {
        if self.due(now) {
            let elapsed: u64 = now - self.since;
            self.previous = if elapsed - COOKIE_ROTATION_NS < COOKIE_ROTATION_NS {
                Some(self.current)
            } else {
                None
            };
            self.current = fresh;
            self.since = now - elapsed % 120_000_000_000;
        }
    }

    /// Brings the jar up to date, with a secret drawn from `rng` if one is due
    /// at `now`.
    pub fn rotate(&mut self, now: u64, rng: &mut SmallRng)
        ensures
            exists|fresh: Seq<u8>|
                fresh.len() == 32 && (rotation_due(old(self)@, now) ==> random::drawn(fresh))
                    && final(self)@ == #[trigger] rotated(old(self)@, now, fresh),
    {
        let fresh: [u8; 32] = if self.due(now) {
            draw(rng)
        } else {
            [0; 32]
        };
        assert(fresh@.len() == 32);
        self.rotate_with(now, fresh);
    }

    /// The secret that makes new cookies.
    pub fn current(&self) -> (secret: [u8; 32])
        ensures
            secret@ == self@.current,
    {
        self.current
    }

    /// The secret of the interval before, if its cookies are still accepted.
    pub fn previous(&self) -> (secret: Option<[u8; 32]>)
        ensures
            secret_view(secret) == self@.previous,
    {
        self.previous
    }

    /// Whether a cookie is accepted: it was made with the current secret or,
    /// where there is one, with the previous secret.
    pub fn accepts(&self, made_with_current: bool, made_with_previous: bool) -> (b: bool)
        ensures
            b == (made_with_current || (self@.previous is Some && made_with_previous)),
    {
        made_with_current || (self.previous.is_some() && made_with_previous)
    }
}

/// Before the interval is over, the jar does not change.
pub proof fn law_no_early_rotation(m: JarModel, now: u64, fresh: Seq<u8>)
    requires
        table::age(now, m.since) < COOKIE_ROTATION_NS,
    ensures
        rotated(m, now, fresh) == m,
{
}

/// The jar after it has been brought up to date at each of `ticks`, a time and
/// the secret that is at hand then.
pub open spec fn after_ticks(m: JarModel, ticks: Seq<(u64, Seq<u8>)>) -> JarModel
    decreases ticks.len(),
{
    if ticks.len() == 0 {
        m
    } else {
        rotated(after_ticks(m, ticks.drop_last()), ticks.last().0, ticks.last().1)
    }
}

/// The times of `ticks` do not run backwards from `start`, and none of the
/// secrets is `secret`.
pub open spec fn later_ticks(start: u64, ticks: Seq<(u64, Seq<u8>)>, secret: Seq<u8>) -> bool {
    &&& forall|i: int| 0 <= i < ticks.len() ==> start <= (#[trigger] ticks[i]).0 && ticks[i].1 != secret
    &&& forall|i: int, j: int|
        0 <= i <= j < ticks.len() ==> (#[trigger] ticks[i]).0 <= (#[trigger] ticks[j]).0
}

/// What a jar that started as `m` is at `now`: its interval is the one that
/// `now` lies in, and the secret of `m` is current in its own interval, previous
/// in the next one, and gone from then on.
spec fn jar_at(m: JarModel, now: u64, jar: JarModel) -> bool {
    let e = now - m.since;
    &&& m.since <= now
    &&& jar.since == now - e % 120_000_000_000
    &&& e < COOKIE_ROTATION_NS ==> jar == m
    &&& COOKIE_ROTATION_NS <= e < 2 * COOKIE_ROTATION_NS ==> jar.current != m.current && jar.previous
        == Some(m.current)
    &&& 2 * COOKIE_ROTATION_NS <= e ==> !trusts(jar, m.current)
}

proof fn lemma_jar_at(m: JarModel, ticks: Seq<(u64, Seq<u8>)>)
    requires
        ticks.len() > 0,
        later_ticks(m.since, ticks, m.current),
    ensures
        jar_at(m, ticks.last().0, after_ticks(m, ticks)),
    decreases ticks.len(),
{
    let init = ticks.drop_last();
    let (now, fresh) = ticks.last();
    assert(ticks[ticks.len() - 1] == ticks.last());
    let before = after_ticks(m, init);
    if init.len() == 0 {
        assert(before == m);
    } else {
        assert forall|i: int| 0 <= i < init.len() implies m.since <= (#[trigger] init[i]).0
            && init[i].1 != m.current by {
            assert(init[i] == ticks[i]);
        }
        assert forall|i: int, j: int| 0 <= i <= j < init.len() implies (#[trigger] init[i]).0 <= (
        #[trigger] init[j]).0 by {
            assert(init[i] == ticks[i] && init[j] == ticks[j]);
        }
        lemma_jar_at(m, init);
        assert(init.last() == ticks[ticks.len() - 2]);
        assert(init.last().0 <= now);
    }
}

/// A cookie survives exactly one rotation: however often and however late the
/// jar is brought up to date, the secret of one interval is trusted in that
/// interval and in the next, and no longer once two intervals have passed, so
/// that a captured cookie is of no use then. Left out is only the case that
/// the very same secret is drawn again.
pub proof fn law_cookie_survives_one_rotation(m: JarModel, ticks: Seq<(u64, Seq<u8>)>)
    requires
        ticks.len() > 0,
        later_ticks(m.since, ticks, m.current),
    ensures
        trusts(after_ticks(m, ticks), m.current) <==> ticks.last().0 - m.since < 2
            * COOKIE_ROTATION_NS,
        after_ticks(m, ticks).current == m.current <==> ticks.last().0 - m.since
            < COOKIE_ROTATION_NS,
{
    lemma_jar_at(m, ticks);
    let jar = after_ticks(m, ticks);
    if ticks.last().0 - m.since >= 2 * COOKIE_ROTATION_NS {
        assert(!trusts(jar, m.current));
    }
}

/// Once the jar has been brought up to date, the current secret is less than
/// one interval old.
pub proof fn law_current_secret_is_young(m: JarModel, now: u64, fresh: Seq<u8>)
    ensures
        table::age(now, rotated(m, now, fresh).since) < COOKIE_ROTATION_NS,
{
}

/// A jar starts with the one secret that it is given. Within two minutes nothing
/// changes; within the next two the fresh secret makes cookies and the former one
/// is still accepted; later only the fresh one is left.
pub proof fn law_secret_lives_for_two_intervals(
    secret: [u8; 32],
    start: u64,
    jar: CookieJar,
    turned: &mut CookieJar,
    now: u64,
    fresh: [u8; 32],
    current: [u8; 32],
    previous: Option<[u8; 32]>,
)
    requires
        call_ensures(CookieJar::with_secret, (secret, start), jar),
        old(turned)@ == jar@,
        call_ensures(CookieJar::rotate_with, (turned, now, fresh), ()),
        call_ensures(CookieJar::current, (&*final(turned),), current),
        call_ensures(CookieJar::previous, (&*final(turned),), previous),
        start <= now,
    ensures
        now < start + 120_000_000_000 ==> current@ == secret@ && previous is None,
        start + 120_000_000_000 <= now < start + 240_000_000_000 ==> current@ == fresh@ && (
        previous matches Some(p) && p@ == secret@),
        start + 240_000_000_000 <= now ==> current@ == fresh@ && previous is None,
{
}

/// A rotation is due two minutes after the start of the interval.
pub proof fn law_rotation_is_due_after_two_minutes(jar: &CookieJar, now: u64, b: bool)
    requires
        call_ensures(CookieJar::due, (jar, now), b),
    ensures
        b <==> now >= jar@.since + 120_000_000_000,
{
}

/// A cookie is accepted if the current secret made it, or the previous one where
/// there is one.
pub proof fn law_cookies_of_both_secrets_count(
    jar: &CookieJar,
    by_current: bool,
    by_previous: bool,
    b: bool,
    previous: Option<[u8; 32]>,
)
    requires
        call_ensures(CookieJar::accepts, (jar, by_current, by_previous), b),
        call_ensures(CookieJar::previous, (jar,), previous),
    ensures
        by_current ==> b,
        !by_current && previous is Some ==> b == by_previous,
        !by_current && previous is None ==> !b,
{
}

/// Where a rotation is due, drawing the secret makes a jar with a drawn secret;
/// where none is due, it changes nothing.
pub proof fn law_drawn_secrets(
    rng: &mut SmallRng,
    start: u64,
    jar: CookieJar,
    turned: &mut CookieJar,
    now: u64,
    later: &mut SmallRng,
)
    requires
        call_ensures(CookieJar::new, (rng, start), jar),
        call_ensures(CookieJar::rotate, (turned, now, later), ()),
    ensures
        random::drawn(jar@.current) && jar@.previous is None && jar@.since == start,
        now < old(turned)@.since + 120_000_000_000 ==> final(turned)@ == old(turned)@,
        now >= old(turned)@.since + 120_000_000_000 ==> random::drawn(final(turned)@.current),
        old(turned)@.since + 120_000_000_000 <= now < old(turned)@.since + 240_000_000_000 ==> final(turned)@.previous
            == Some(old(turned)@.current),
        now >= old(turned)@.since + 240_000_000_000 ==> final(turned)@.previous is None,
{
    let fresh = choose|fresh: Seq<u8>|
        fresh.len() == 32 && (rotation_due(old(turned)@, now) ==> random::drawn(fresh)) && final(turned)@
            == #[trigger] rotated(old(turned)@, now, fresh);
}

} // verus!
