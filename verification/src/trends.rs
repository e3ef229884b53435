//! Trending errors: for each category of error seen in the last hour, how
//! many errors it had then and in the hour before, whether it is rising or
//! falling, most frequent first and, among equally frequent ones, the most
//! confident trend first.  Times are milliseconds since the Unix epoch.

use crate::logging::{categorize_error, error_category};
use crate::metrics::{trend_direction, AnalyzedEvent, TrendDirection};
use crate::text::str_eq;
use vstd::prelude::*;

verus! {

/// One hour, in milliseconds.
pub const HOUR_MS: i64 = 3600000;

/// Whether an event falls in the last hour before `now` (or later).
pub open spec fn in_last_hour(ts: i64, now: i64) -> bool {
    ts >= now - HOUR_MS
}

/// Whether an event falls in the hour before the last one.
pub open spec fn in_hour_before(ts: i64, now: i64) -> bool {
    !in_last_hour(ts, now) && ts >= now - 2 * HOUR_MS
}

/// The number of events of a category in the last hour (`current`) or in
/// the hour before.
pub open spec fn window_count(evs: Seq<AnalyzedEvent>, cat: Seq<char>, now: i64, current: bool) -> nat
    decreases evs.len(),
{
    if evs.len() == 0 {
        0
    } else {
        let e = evs.last();
        let inside = if current {
            in_last_hour(e.timestamp_ms, now)
        } else {
            in_hour_before(e.timestamp_ms, now)
        };
        window_count(evs.drop_last(), cat, now, current) + if inside && error_category(e.error)
            == cat {
            1nat
        } else {
            0nat
        }
    }
}

/// A category's error counts in the last two hours and their trend.
#[derive(Clone, Debug)]
pub struct TrendingError {
    pub error_type: String,
    pub current_count: u64,
    pub previous_count: u64,
    pub trend_direction: TrendDirection,
}

/// The confidence of a trend as a fraction (numerator, positive
/// denominator): one less the relative change when there was a previous
/// count, else one.
pub open spec fn confidence(current: int, previous: int) -> (int, int) {
    if previous > 0 {
        let change = if previous >= current {
            previous - current
        } else {
            current - previous
        };
        (previous - change, previous)
    } else {
        (1, 1)
    }
}

/// Whether the trend of `(c1, p1)` is at least as confident as that of
/// `(c2, p2)`.
pub open spec fn confidence_ge(c1: int, p1: int, c2: int, p2: int) -> bool {
    let (n1, d1) = confidence(c1, p1);
    let (n2, d2) = confidence(c2, p2);
    n1 * d2 >= n2 * d1
}

/// Whether `x` ranks at or before `y`: more current errors, or as many and
/// a trend at least as confident.
pub open spec fn ranks_before(x: TrendingError, y: TrendingError) -> bool {
    x.current_count > y.current_count || (x.current_count == y.current_count && confidence_ge(
        x.current_count as int,
        x.previous_count as int,
        y.current_count as int,
        y.previous_count as int,
    ))
}

proof fn lemma_fraction_transitive(n1: int, d1: int, n2: int, d2: int, n3: int, d3: int)
    by (nonlinear_arith)
    requires
        d1 > 0,
        d2 > 0,
        d3 > 0,
        n1 * d2 >= n2 * d1,
        n2 * d3 >= n3 * d2,
    ensures
        n1 * d3 >= n3 * d1,
{
    assert(n1 * d2 * d3 >= n2 * d1 * d3);
    assert(n2 * d3 * d1 >= n3 * d2 * d1);
    assert(n1 * d3 * d2 >= n3 * d1 * d2);
}

proof fn lemma_ranks_transitive(x: TrendingError, y: TrendingError, z: TrendingError)
    requires
        ranks_before(x, y),
        ranks_before(y, z),
    ensures
        ranks_before(x, z),
{
    if x.current_count == y.current_count && y.current_count == z.current_count {
        let (n1, d1) = confidence(x.current_count as int, x.previous_count as int);
        let (n2, d2) = confidence(y.current_count as int, y.previous_count as int);
        let (n3, d3) = confidence(z.current_count as int, z.previous_count as int);
        lemma_fraction_transitive(n1, d1, n2, d2, n3, d3);
    }
}

proof fn lemma_ranks_total(x: TrendingError, y: TrendingError)
    ensures
        ranks_before(x, y) || ranks_before(y, x),
{
    let (n1, d1) = confidence(x.current_count as int, x.previous_count as int);
    let (n2, d2) = confidence(y.current_count as int, y.previous_count as int);
    assert(n1 * d2 >= n2 * d1 || n2 * d1 >= n1 * d2) by (nonlinear_arith);
}

/// The trending errors of some events at `now`: every category with an
/// error in the last hour, once, with its counts and trend, in rank order.
pub open spec fn trending_of(evs: Seq<AnalyzedEvent>, now: i64, r: Seq<TrendingError>) -> bool {
    &&& forall|a: int|
        0 <= a < r.len() ==> {
            let t = #[trigger] r[a];
            &&& t.current_count == window_count(evs, t.error_type@, now, true)
            &&& t.current_count >= 1
            &&& t.previous_count == window_count(evs, t.error_type@, now, false)
            &&& t.trend_direction == trend_of(t.current_count, t.previous_count)
        }
    &&& forall|a: int, b: int|
        0 <= a < b < r.len() ==> (#[trigger] r[a]).error_type@ != (#[trigger] r[b]).error_type@
    &&& forall|a: int, b: int| 0 <= a < b < r.len() ==> ranks_before(#[trigger] r[a], #[trigger] r[b])
    &&& forall|c: Seq<char>|
        #[trigger] window_count(evs, c, now, true) >= 1 ==> exists|a: int|
            0 <= a < r.len() && (#[trigger] r[a]).error_type@ == c
}

/// The direction of a trend from the previous count to the current one.
pub open spec fn trend_of(current: u64, previous: u64) -> TrendDirection {
    if current > previous {
        TrendDirection::Increasing
    } else if current < previous {
        TrendDirection::Decreasing
    } else {
        TrendDirection::Stable
    }
}

proof fn lemma_window_step(evs: Seq<AnalyzedEvent>, j: int, c: Seq<char>, now: i64, current: bool)
    requires
        0 <= j < evs.len(),
    ensures
        window_count(evs.subrange(0, j + 1), c, now, current) == window_count(
            evs.subrange(0, j),
            c,
            now,
            current,
        ) + if (if current {
            in_last_hour(evs[j].timestamp_ms, now)
        } else {
            in_hour_before(evs[j].timestamp_ms, now)
        }) && error_category(evs[j].error) == c {
            1nat
        } else {
            0nat
        },
{
    assert(evs.subrange(0, j + 1).drop_last() =~= evs.subrange(0, j));
}

proof fn lemma_window_bound(evs: Seq<AnalyzedEvent>, c: Seq<char>, now: i64, current: bool)
    ensures
        window_count(evs, c, now, current) <= evs.len(),
    decreases evs.len(),
{
    if evs.len() > 0 {
        lemma_window_bound(evs.drop_last(), c, now, current);
    }
}

proof fn lemma_window_zero(evs: Seq<AnalyzedEvent>, c: Seq<char>, now: i64)
    requires
        forall|j: int|
            0 <= j < evs.len() ==> !(in_last_hour((#[trigger] evs[j]).timestamp_ms, now)
                && error_category(evs[j].error) == c),
    ensures
        window_count(evs, c, now, true) == 0,
    decreases evs.len(),
{
    if evs.len() > 0 {
        assert(!(in_last_hour(evs[evs.len() - 1].timestamp_ms, now) && error_category(
            evs[evs.len() - 1].error,
        ) == c));
        lemma_window_zero(evs.drop_last(), c, now);
    }
}

fn in_window(ts: i64, now: i64, current: bool) -> (r: bool)
    ensures
        r == if current {
            in_last_hour(ts, now)
        } else {
            in_hour_before(ts, now)
        },
{
    let t = ts as i128;
    let n = now as i128;
    let last = t >= n - 3600000;
    if current {
        last
    } else {
        !last && t >= n - 7200000
    }
}

/// How many events of a category fall in a window.
fn count_in_window(events: &Vec<AnalyzedEvent>, cat: &str, now: i64, current: bool) -> (r: u64)
    requires
        events@.len() <= u64::MAX,
    ensures
        r == window_count(events@, cat@, now, current),
{
    let ghost evs = events@;
    let mut n: u64 = 0;
    let mut j: usize = 0;
    while j < events.len()
        invariant
            0 <= j <= evs.len(),
            evs == events@,
            evs.len() <= u64::MAX,
            n == window_count(evs.subrange(0, j as int), cat@, now, current),
        decreases events.len() - j,
    {
        proof {
            lemma_window_step(evs, j as int, cat@, now, current);
            lemma_window_bound(evs.subrange(0, j as int), cat@, now, current);
        }
        if in_window(events[j].timestamp_ms, now, current) && str_eq(
            categorize_error(&events[j].error),
            cat,
        ) {
            n = n + 1;
        }
        j = j + 1;
    }
    proof {
        assert(evs.subrange(0, evs.len() as int) =~= evs);
    }
    n
}

fn confidence_ge_exec(x: &TrendingError, y: &TrendingError) -> (r: bool)
    ensures
        r == confidence_ge(
            x.current_count as int,
            x.previous_count as int,
            y.current_count as int,
            y.previous_count as int,
        ),
{
    let (neg1, m1, d1) = confidence_parts(x.current_count, x.previous_count);
    let (neg2, m2, d2) = confidence_parts(y.current_count, y.previous_count);
    let ghost (n1, e1) = confidence(x.current_count as int, x.previous_count as int);
    let ghost (n2, e2) = confidence(y.current_count as int, y.previous_count as int);
    proof {
        lemma_products(n1, e1, n2, e2, neg1, m1 as int, d1 as int, neg2, m2 as int, d2 as int);
    }
    assert(m1 as int * d2 as int <= 0xffff_ffff_ffff_ffff * 0xffff_ffff_ffff_ffff) by (nonlinear_arith)
        requires
            m1 <= 0xffff_ffff_ffff_ffff,
            d2 <= 0xffff_ffff_ffff_ffff,
    ;
    assert(m2 as int * d1 as int <= 0xffff_ffff_ffff_ffff * 0xffff_ffff_ffff_ffff) by (nonlinear_arith)
        requires
            m2 <= 0xffff_ffff_ffff_ffff,
            d1 <= 0xffff_ffff_ffff_ffff,
    ;
    if !neg1 && neg2 {
        true
    } else if neg1 && !neg2 {
        m1 == 0 && m2 == 0
    } else if !neg1 {
        m1 * d2 >= m2 * d1
    } else {
        m1 * d2 <= m2 * d1
    }
}

proof fn lemma_products(
    n1: int,
    e1: int,
    n2: int,
    e2: int,
    neg1: bool,
    m1: int,
    d1: int,
    neg2: bool,
    m2: int,
    d2: int,
)
    requires
        e1 == d1,
        e2 == d2,
        d1 > 0,
        d2 > 0,
        m1 >= 0,
        m2 >= 0,
        n1 == if neg1 { -m1 } else { m1 },
        n2 == if neg2 { -m2 } else { m2 },
        neg1 ==> m1 > 0,
        neg2 ==> m2 > 0,
    ensures
        (n1 * e2 >= n2 * e1) == (if !neg1 && neg2 {
            true
        } else if neg1 && !neg2 {
            false
        } else if !neg1 {
            m1 * d2 >= m2 * d1
        } else {
            m1 * d2 <= m2 * d1
        }),
{
    if !neg1 && neg2 {
        assert(n1 * e2 >= 0) by (nonlinear_arith)
            requires
                n1 >= 0,
                e2 > 0,
        ;
        assert(n2 * e1 < 0) by (nonlinear_arith)
            requires
                n2 < 0,
                e1 > 0,
        ;
    } else if neg1 && !neg2 {
        assert(n1 * e2 < 0) by (nonlinear_arith)
            requires
                n1 < 0,
                e2 > 0,
        ;
        assert(n2 * e1 >= 0) by (nonlinear_arith)
            requires
                n2 >= 0,
                e1 > 0,
        ;
    } else if neg1 {
        assert(n1 * e2 == -(m1 * d2)) by (nonlinear_arith)
            requires
                n1 == -m1,
                e2 == d2,
        ;
        assert(n2 * e1 == -(m2 * d1)) by (nonlinear_arith)
            requires
                n2 == -m2,
                e1 == d1,
        ;
    }
}

/// The confidence of a trend as a sign, a magnitude and a denominator.
fn confidence_parts(current: u64, previous: u64) -> (r: (bool, u128, u128))
    ensures
        confidence(current as int, previous as int).0 == if r.0 {
            -(r.1 as int)
        } else {
            r.1 as int
        },
        confidence(current as int, previous as int).1 == r.2 as int,
        r.0 ==> r.1 > 0,
        r.1 <= 0xffff_ffff_ffff_ffff,
        0 < r.2 <= 0xffff_ffff_ffff_ffff,
{
    if previous > 0 {
        let p = previous as u128;
        let c = current as u128;
        if p >= c {
            // The change is p - c, and p - (p - c) = c.
            (false, c, p)
        } else {
            let change = c - p;
            if p >= change {
                (false, p - change, p)
            } else {
                (true, change - p, p)
            }
        }
    } else {
        (false, 1, 1)
    }
}

/// Inserts an entry after all entries that rank at or before it.
fn insert_ranked(v: &mut Vec<TrendingError>, x: TrendingError)
    requires
        forall|a: int, b: int|
            0 <= a < b < old(v)@.len() ==> ranks_before(#[trigger] old(v)@[a], #[trigger] old(v)@[b]),
    ensures
        exists|k: int| 0 <= k <= old(v)@.len() && final(v)@ == old(v)@.insert(k, x),
        forall|a: int, b: int|
            0 <= a < b < final(v)@.len() ==> ranks_before(#[trigger] final(v)@[a], #[trigger] final(v)@[b]),
{
    let mut k: usize = 0;
    while k < v.len() && (v[k].current_count > x.current_count || (v[k].current_count
        == x.current_count && confidence_ge_exec(&v[k], &x)))
        invariant
            0 <= k <= v@.len(),
            v@ == old(v)@,
            forall|a: int| 0 <= a < k ==> ranks_before(#[trigger] v@[a], x),
        decreases v.len() - k,
    {
        k = k + 1;
    }
    let ghost before = v@;
    proof {
        if k < before.len() {
            lemma_ranks_total(before[k as int], x);
        }
    }
    v.insert(k, x);
    proof {
        assert(v@ == before.insert(k as int, x));
        assert forall|a: int, b: int| 0 <= a < b < v@.len() implies ranks_before(
            #[trigger] v@[a],
            #[trigger] v@[b],
        ) by {
            if b < k {
            } else if a < k && b == k {
            } else if a < k {
                assert(v@[b] == before[b - 1]);
                lemma_ranks_transitive(v@[a], x, before[k as int]);
                if b - 1 > k {
                    lemma_ranks_transitive(v@[a], before[k as int], before[b - 1]);
                }
            } else if a == k {
                assert(v@[b] == before[b - 1]);
                if b - 1 > k {
                    lemma_ranks_transitive(x, before[k as int], before[b - 1]);
                }
            } else {
                assert(v@[a] == before[a - 1]);
                assert(v@[b] == before[b - 1]);
            }
        }
    }
}

/// Whether a category already has an entry.
fn has_entry(v: &Vec<TrendingError>, cat: &str) -> (r: bool)
    ensures
        r == exists|a: int| 0 <= a < v@.len() && (#[trigger] v@[a]).error_type@ == cat@,
{
    let mut a: usize = 0;
    while a < v.len()
        invariant
            0 <= a <= v@.len(),
            forall|b: int| 0 <= b < a ==> (#[trigger] v@[b]).error_type@ != cat@,
        decreases v.len() - a,
    {
        if str_eq(v[a].error_type.as_str(), cat) {
            return true;
        }
        a = a + 1;
    }
    false
}

/// What the entries made from the first `i` events satisfy.
pub open spec fn trend_progress(evs: Seq<AnalyzedEvent>, now: i64, r: Seq<TrendingError>, i: int) -> bool {
    &&& forall|a: int|
        0 <= a < r.len() ==> {
            let t = #[trigger] r[a];
            &&& t.current_count == window_count(evs, t.error_type@, now, true)
            &&& t.current_count >= 1
            &&& t.previous_count == window_count(evs, t.error_type@, now, false)
            &&& t.trend_direction == trend_of(t.current_count, t.previous_count)
        }
    &&& forall|a: int, b: int|
        0 <= a < b < r.len() ==> (#[trigger] r[a]).error_type@ != (#[trigger] r[b]).error_type@
    &&& forall|a: int, b: int| 0 <= a < b < r.len() ==> ranks_before(#[trigger] r[a], #[trigger] r[b])
    &&& forall|j: int|
        0 <= j < i && in_last_hour((#[trigger] evs[j]).timestamp_ms, now) ==> exists|a: int|
            0 <= a < r.len() && (#[trigger] r[a]).error_type@ == error_category(evs[j].error)
}

proof fn lemma_trend_insert(
    evs: Seq<AnalyzedEvent>,
    now: i64,
    old_r: Seq<TrendingError>,
    r: Seq<TrendingError>,
    x: TrendingError,
    k: int,
    i: int,
)
    requires
        0 <= i < evs.len(),
        trend_progress(evs, now, old_r, i),
        x.error_type@ == error_category(evs[i].error),
        x.current_count == window_count(evs, x.error_type@, now, true),
        x.current_count >= 1,
        x.previous_count == window_count(evs, x.error_type@, now, false),
        x.trend_direction == trend_of(x.current_count, x.previous_count),
        forall|a: int| 0 <= a < old_r.len() ==> (#[trigger] old_r[a]).error_type@ != x.error_type@,
        0 <= k <= old_r.len(),
        r == old_r.insert(k, x),
        forall|a: int, b: int| 0 <= a < b < r.len() ==> ranks_before(#[trigger] r[a], #[trigger] r[b]),
    ensures
        trend_progress(evs, now, r, i + 1),
{
    assert forall|a: int| 0 <= a < r.len() implies {
        let t = #[trigger] r[a];
        &&& t.current_count == window_count(evs, t.error_type@, now, true)
        &&& t.current_count >= 1
        &&& t.previous_count == window_count(evs, t.error_type@, now, false)
        &&& t.trend_direction == trend_of(t.current_count, t.previous_count)
    } by {
        if a < k {
            assert(r[a] == old_r[a]);
        } else if a > k {
            assert(r[a] == old_r[a - 1]);
        }
    }
    assert forall|a: int, b: int| 0 <= a < b < r.len() implies (#[trigger] r[a]).error_type@
        != (#[trigger] r[b]).error_type@ by {
        if a == k {
            let o = if b < k { b } else { b - 1 };
            assert(r[b] == old_r[o]);
        } else if b == k {
            assert(r[a] == old_r[a]);
        } else {
            let a2 = if a < k { a } else { a - 1 };
            let b2 = if b < k { b } else { b - 1 };
            assert(r[a] == old_r[a2]);
            assert(r[b] == old_r[b2]);
        }
    }
    assert forall|j: int|
        0 <= j < i + 1 && in_last_hour((#[trigger] evs[j]).timestamp_ms, now) implies exists|a: int|
        0 <= a < r.len() && (#[trigger] r[a]).error_type@ == error_category(evs[j].error) by {
        if j == i {
            assert(r[k] == x);
        } else {
            let a2 = choose|a2: int| 0 <= a2 < old_r.len() && (#[trigger] old_r[a2]).error_type@ == error_category(evs[j].error);
            let a = if a2 < k { a2 } else { a2 + 1 };
            assert(r[a] == old_r[a2]);
        }
    }
}

proof fn lemma_trend_skip(evs: Seq<AnalyzedEvent>, now: i64, r: Seq<TrendingError>, i: int)
    requires
        0 <= i < evs.len(),
        trend_progress(evs, now, r, i),
        in_last_hour(evs[i].timestamp_ms, now) ==> exists|a: int|
            0 <= a < r.len() && (#[trigger] r[a]).error_type@ == error_category(evs[i].error),
    ensures
        trend_progress(evs, now, r, i + 1),
{
}

proof fn lemma_trend_done(evs: Seq<AnalyzedEvent>, now: i64, r: Seq<TrendingError>)
    requires
        trend_progress(evs, now, r, evs.len() as int),
    ensures
        trending_of(evs, now, r),
{
    assert forall|c: Seq<char>| #[trigger] window_count(evs, c, now, true) >= 1 implies exists|a: int|
        0 <= a < r.len() && (#[trigger] r[a]).error_type@ == c by {
        if forall|j: int|
            0 <= j < evs.len() ==> !(in_last_hour((#[trigger] evs[j]).timestamp_ms, now)
                && error_category(evs[j].error) == c) {
            lemma_window_zero(evs, c, now);
        }
        let j = choose|j: int|
            0 <= j < evs.len() && in_last_hour((#[trigger] evs[j]).timestamp_ms, now)
                && error_category(evs[j].error) == c;
        assert(in_last_hour(evs[j].timestamp_ms, now));
    }
}

/// The trending errors of some events at `now`.
pub fn calculate_trending_errors(events: &Vec<AnalyzedEvent>, now: i64) -> (r: Vec<TrendingError>)
    requires
        events@.len() <= u64::MAX,
    ensures
        trending_of(events@, now, r@),
{
    let ghost evs = events@;
    let mut r: Vec<TrendingError> = Vec::new();
    let mut i: usize = 0;
    while i < events.len()
        invariant
            0 <= i <= evs.len(),
            evs == events@,
            evs.len() <= u64::MAX,
            trend_progress(evs, now, r@, i as int),
        decreases events.len() - i,
    {
        if in_window(events[i].timestamp_ms, now, true) {
            let cat = categorize_error(&events[i].error);
            if !has_entry(&r, cat) {
                let current = count_in_window(events, cat, now, true);
                let previous = count_in_window(events, cat, now, false);
                proof {
                    lemma_window_step(evs, i as int, cat@, now, true);
                    lemma_window_positive(evs, i as int, cat@, now);
                }
                let x = TrendingError {
                    error_type: cat.to_string(),
                    current_count: current,
                    previous_count: previous,
                    trend_direction: trend_direction(current, previous),
                };
                let ghost old_r = r@;
                insert_ranked(&mut r, x);
                proof {
                    let k = choose|k: int| 0 <= k <= old_r.len() && r@ == old_r.insert(k, x);
                    lemma_trend_insert(evs, now, old_r, r@, x, k, i as int);
                }
            } else {
                proof {
                    lemma_trend_skip(evs, now, r@, i as int);
                }
            }
        } else {
            proof {
                lemma_trend_skip(evs, now, r@, i as int);
            }
        }
        i = i + 1;
    }
    proof {
        lemma_trend_done(evs, now, r@);
    }
    r
}

proof fn lemma_window_positive(evs: Seq<AnalyzedEvent>, i: int, c: Seq<char>, now: i64)
    requires
        0 <= i < evs.len(),
        in_last_hour(evs[i].timestamp_ms, now),
        error_category(evs[i].error) == c,
    ensures
        window_count(evs, c, now, true) >= 1,
    decreases evs.len(),
{
    if i < evs.len() - 1 {
        lemma_window_positive(evs.drop_last(), i, c, now);
    }
}

} // verus!
