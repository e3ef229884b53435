//! Error counts over time: the recorded events grouped by hour or by day,
//! each bucket with its total and its count per category, in time order.
//! An hour is named by its first second since the Unix epoch (the seconds
//! of the event divided by 3600, truncated, times 3600); a day by its
//! number since the epoch (UTC).

use crate::logging::{categorize_error, error_category};
use crate::metrics::AnalyzedEvent;
use crate::text::str_eq;
use vstd::prelude::*;

verus! {

/// `a / b` rounded toward zero, as Rust's integer division.
pub open spec fn trunc_div(a: int, b: int) -> int {
    if a >= 0 {
        a / b
    } else {
        -((-a) / b)
    }
}

/// The bucket of an event time: its hour (first second) or its day.
pub open spec fn bucket_of(ts_ms: i64, hourly: bool) -> int {
    if hourly {
        trunc_div(ts_ms as int / 1000, 3600) * 3600
    } else {
        ts_ms as int / 86400000
    }
}

/// How many events fall in a bucket, of any category (`cat` is `None`)
/// or of one.
pub open spec fn bucket_count(
    evs: Seq<AnalyzedEvent>,
    b: int,
    hourly: bool,
    cat: Option<Seq<char>>,
) -> nat
    decreases evs.len(),
{
    if evs.len() == 0 {
        0
    } else {
        let e = evs.last();
        let hit = bucket_of(e.timestamp_ms, hourly) == b && match cat {
            Some(c) => error_category(e.error) == c,
            None => true,
        };
        bucket_count(evs.drop_last(), b, hourly, cat) + if hit {
            1nat
        } else {
            0nat
        }
    }
}

/// The errors of one hour or one day.
#[derive(Clone, Debug)]
pub struct BucketCount {
    /// The hour (its first second since the epoch) or the day (its number
    /// since the epoch)
    pub bucket: i64,
    pub count: u64,
    /// The count of each category with errors in the bucket, each once
    pub categories: Vec<(String, u64)>,
}

/// A bucket entry is exact: its total, and each category with errors in
/// it, once, with its count.
pub open spec fn bucket_exact(evs: Seq<AnalyzedEvent>, hourly: bool, x: BucketCount) -> bool {
    &&& x.count == bucket_count(evs, x.bucket as int, hourly, None)
    &&& x.count >= 1
    &&& forall|a: int|
        0 <= a < x.categories@.len() ==> (#[trigger] x.categories@[a]).1 == bucket_count(
            evs,
            x.bucket as int,
            hourly,
            Some(x.categories@[a].0@),
        ) && x.categories@[a].1 >= 1
    &&& forall|a: int, b: int|
        0 <= a < b < x.categories@.len() ==> (#[trigger] x.categories@[a]).0@ != (
        #[trigger] x.categories@[b]).0@
    &&& forall|c: Seq<char>|
        #[trigger] bucket_count(evs, x.bucket as int, hourly, Some(c)) >= 1 ==> exists|a: int|
            0 <= a < x.categories@.len() && (#[trigger] x.categories@[a]).0@ == c
}

/// The buckets of some events: every bucket with an event, once, exact,
/// in ascending order.
pub open spec fn buckets_of(evs: Seq<AnalyzedEvent>, hourly: bool, r: Seq<BucketCount>) -> bool {
    &&& forall|a: int| 0 <= a < r.len() ==> bucket_exact(evs, hourly, #[trigger] r[a])
    &&& forall|a: int, b: int|
        0 <= a < b < r.len() ==> (#[trigger] r[a]).bucket < (#[trigger] r[b]).bucket
    &&& forall|b: int|
        #[trigger] bucket_count(evs, b, hourly, None) >= 1 ==> exists|a: int|
            0 <= a < r.len() && (#[trigger] r[a]).bucket == b
}

proof fn lemma_count_step(
    evs: Seq<AnalyzedEvent>,
    j: int,
    b: int,
    hourly: bool,
    cat: Option<Seq<char>>,
)
    requires
        0 <= j < evs.len(),
    ensures
        bucket_count(evs.subrange(0, j + 1), b, hourly, cat) == bucket_count(
            evs.subrange(0, j),
            b,
            hourly,
            cat,
        ) + if bucket_of(evs[j].timestamp_ms, hourly) == b && match cat {
            Some(c) => error_category(evs[j].error) == c,
            None => true,
        } {
            1nat
        } else {
            0nat
        },
{
    assert(evs.subrange(0, j + 1).drop_last() =~= evs.subrange(0, j));
}

proof fn lemma_count_bound(evs: Seq<AnalyzedEvent>, b: int, hourly: bool, cat: Option<Seq<char>>)
    ensures
        bucket_count(evs, b, hourly, cat) <= evs.len(),
    decreases evs.len(),
{
    if evs.len() > 0 {
        lemma_count_bound(evs.drop_last(), b, hourly, cat);
    }
}

proof fn lemma_count_positive(
    evs: Seq<AnalyzedEvent>,
    i: int,
    b: int,
    hourly: bool,
    cat: Option<Seq<char>>,
)
    requires
        0 <= i < evs.len(),
        bucket_of(evs[i].timestamp_ms, hourly) == b,
        match cat {
            Some(c) => error_category(evs[i].error) == c,
            None => true,
        },
    ensures
        bucket_count(evs, b, hourly, cat) >= 1,
    decreases evs.len(),
{
    if i < evs.len() - 1 {
        lemma_count_positive(evs.drop_last(), i, b, hourly, cat);
    }
}

proof fn lemma_count_zero(evs: Seq<AnalyzedEvent>, b: int, hourly: bool, cat: Option<Seq<char>>)
    requires
        forall|j: int|
            0 <= j < evs.len() ==> !(bucket_of((#[trigger] evs[j]).timestamp_ms, hourly) == b
                && match cat {
                Some(c) => error_category(evs[j].error) == c,
                None => true,
            }),
    ensures
        bucket_count(evs, b, hourly, cat) == 0,
    decreases evs.len(),
{
    if evs.len() > 0 {
        let j = evs.len() - 1;
        assert(!(bucket_of(evs[j].timestamp_ms, hourly) == b && match cat {
            Some(c) => error_category(evs[j].error) == c,
            None => true,
        }));
        lemma_count_zero(evs.drop_last(), b, hourly, cat);
    }
}

/// The bucket of an event time.
fn bucket(ts_ms: i64, hourly: bool) -> (r: i64)
    ensures
        r == bucket_of(ts_ms, hourly),
{
    let t = ts_ms as i128;
    let secs: i128 = if t >= 0 {
        t / 1000
    } else {
        -((-t + 999) / 1000)
    };
    proof {
        if t < 0 {
            assert(secs == t / 1000) by (nonlinear_arith)
                requires
                    t < 0,
                    secs == -((-t + 999) / 1000),
            ;
        }
    }
    if hourly {
        let h: i128 = if secs >= 0 {
            secs / 3600
        } else {
            -((-secs) / 3600)
        };
        assert(-0x8000_0000_0000_0000int <= h * 3600 <= 0x7fff_ffff_ffff_ffffint) by (nonlinear_arith)
            requires
                -9223372036854776int <= secs <= 9223372036854775int,
                secs >= 0 ==> h == secs / 3600,
                secs < 0 ==> h == -((-secs) / 3600),
        ;
        (h * 3600) as i64
    } else {
        let d: i128 = if t >= 0 {
            t / 86400000
        } else {
            -((-t + 86399999) / 86400000)
        };
        proof {
            if t < 0 {
                assert(d == t / 86400000) by (nonlinear_arith)
                    requires
                        t < 0,
                        d == -((-t + 86399999) / 86400000),
                ;
            }
        }
        d as i64
    }
}

/// How many events fall in a bucket (of one category, or any).
fn count_in_bucket(events: &Vec<AnalyzedEvent>, b: i64, hourly: bool, cat: Option<&str>) -> (r: u64)
    requires
        events@.len() <= u64::MAX,
    ensures
        r == bucket_count(
            events@,
            b as int,
            hourly,
            match cat {
                Some(c) => Some(c@),
                None => None,
            },
        ),
{
    let ghost evs = events@;
    let ghost gc = match cat {
        Some(c) => Some(c@),
        None => None,
    };
    let mut n: u64 = 0;
    let mut j: usize = 0;
    while j < events.len()
        invariant
            0 <= j <= evs.len(),
            evs == events@,
            evs.len() <= u64::MAX,
            gc == match cat {
                Some(c) => Some(c@),
                None => None,
            },
            n == bucket_count(evs.subrange(0, j as int), b as int, hourly, gc),
        decreases events.len() - j,
    {
        proof {
            lemma_count_step(evs, j as int, b as int, hourly, gc);
            lemma_count_bound(evs.subrange(0, j as int), b as int, hourly, gc);
        }
        let hit = bucket(events[j].timestamp_ms, hourly) == b && match cat {
            Some(c) => str_eq(categorize_error(&events[j].error), c),
            None => true,
        };
        if hit {
            n = n + 1;
        }
        j = j + 1;
    }
    proof {
        assert(evs.subrange(0, evs.len() as int) =~= evs);
    }
    n
}

/// Whether a category is already listed.
fn listed(v: &Vec<(String, u64)>, c: &str) -> (r: bool)
    ensures
        r == exists|a: int| 0 <= a < v@.len() && (#[trigger] v@[a]).0@ == c@,
{
    let mut a: usize = 0;
    while a < v.len()
        invariant
            0 <= a <= v@.len(),
            forall|k: int| 0 <= k < a ==> (#[trigger] v@[k]).0@ != c@,
        decreases v.len() - a,
    {
        if str_eq(v[a].0.as_str(), c) {
            return true;
        }
        a = a + 1;
    }
    false
}

/// The entry of one bucket.
fn bucket_entry(events: &Vec<AnalyzedEvent>, b: i64, hourly: bool) -> (r: BucketCount)
    requires
        events@.len() <= u64::MAX,
        bucket_count(events@, b as int, hourly, None) >= 1,
    ensures
        r.bucket == b,
        bucket_exact(events@, hourly, r),
{
    let ghost evs = events@;
    let count = count_in_bucket(events, b, hourly, None);
    let mut cats: Vec<(String, u64)> = Vec::new();
    let mut j: usize = 0;
    while j < events.len()
        invariant
            0 <= j <= evs.len(),
            evs == events@,
            evs.len() <= u64::MAX,
            forall|a: int|
                0 <= a < cats@.len() ==> (#[trigger] cats@[a]).1 == bucket_count(
                    evs,
                    b as int,
                    hourly,
                    Some(cats@[a].0@),
                ) && cats@[a].1 >= 1,
            forall|a: int, k: int|
                0 <= a < k < cats@.len() ==> (#[trigger] cats@[a]).0@ != (#[trigger] cats@[k]).0@,
            forall|m: int|
                0 <= m < j && bucket_of((#[trigger] evs[m]).timestamp_ms, hourly) == b ==> exists|a: int|
                    0 <= a < cats@.len() && (#[trigger] cats@[a]).0@ == error_category(evs[m].error),
        decreases events.len() - j,
    {
        if bucket(events[j].timestamp_ms, hourly) == b {
            let c = categorize_error(&events[j].error);
            if !listed(&cats, c) {
                let n = count_in_bucket(events, b, hourly, Some(c));
                proof {
                    lemma_count_positive(evs, j as int, b as int, hourly, Some(c@));
                }
                let ghost old_cats = cats@;
                cats.push((c.to_string(), n));
                proof {
                    assert forall|a: int, k: int|
                        0 <= a < k < cats@.len() implies (#[trigger] cats@[a]).0@ != (#[trigger] cats@[k]).0@ by {
                        assert(cats@[a] == old_cats[a]);
                        if k < old_cats.len() {
                            assert(cats@[k] == old_cats[k]);
                        }
                    }
                    assert forall|a: int| 0 <= a < cats@.len() implies (#[trigger] cats@[a]).1
                        == bucket_count(evs, b as int, hourly, Some(cats@[a].0@)) && cats@[a].1 >= 1 by {
                        if a < old_cats.len() {
                            assert(cats@[a] == old_cats[a]);
                        }
                    }
                    assert forall|m: int|
                        0 <= m < j + 1 && bucket_of((#[trigger] evs[m]).timestamp_ms, hourly) == b
                            implies exists|a: int|
                            0 <= a < cats@.len() && (#[trigger] cats@[a]).0@ == error_category(evs[m].error) by {
                        if m == j {
                            assert(cats@[old_cats.len() as int].0@ == c@);
                        } else {
                            let a = choose|a: int| 0 <= a < old_cats.len() && (#[trigger] old_cats[a]).0@ == error_category(evs[m].error);
                            assert(cats@[a] == old_cats[a]);
                        }
                    }
                }
            }
        }
        j = j + 1;
    }
    proof {
        assert forall|c: Seq<char>| #[trigger] bucket_count(evs, b as int, hourly, Some(c)) >= 1 implies exists|a: int|
            0 <= a < cats@.len() && (#[trigger] cats@[a]).0@ == c by {
            if forall|m: int|
                0 <= m < evs.len() ==> !(bucket_of((#[trigger] evs[m]).timestamp_ms, hourly) == b as int
                    && error_category(evs[m].error) == c) {
                lemma_count_zero(evs, b as int, hourly, Some(c));
            }
            let m = choose|m: int|
                0 <= m < evs.len() && bucket_of((#[trigger] evs[m]).timestamp_ms, hourly) == b as int
                    && error_category(evs[m].error) == c;
            assert(bucket_of(evs[m].timestamp_ms, hourly) == b);
        }
    }
    let r = BucketCount { bucket: b, count, categories: cats };
    proof {
        assert(r.categories@ == cats@);
        assert(r.count == bucket_count(evs, r.bucket as int, hourly, None));
        assert forall|c: Seq<char>| #[trigger] bucket_count(evs, r.bucket as int, hourly, Some(c)) >= 1 implies exists|a: int|
            0 <= a < r.categories@.len() && (#[trigger] r.categories@[a]).0@ == c by {
            assert(bucket_count(evs, b as int, hourly, Some(c)) >= 1);
        }
    }
    r
}

/// What the buckets made from the first `i` events satisfy.
pub open spec fn bucket_progress(evs: Seq<AnalyzedEvent>, hourly: bool, r: Seq<BucketCount>, i: int) -> bool {
    &&& forall|a: int| 0 <= a < r.len() ==> bucket_exact(evs, hourly, #[trigger] r[a])
    &&& forall|a: int, b: int|
        0 <= a < b < r.len() ==> (#[trigger] r[a]).bucket < (#[trigger] r[b]).bucket
    &&& forall|j: int|
        0 <= j < i ==> exists|a: int|
            0 <= a < r.len() && (#[trigger] r[a]).bucket == bucket_of((#[trigger] evs[j]).timestamp_ms, hourly)
}

/// Whether a bucket already has an entry.
fn has_bucket(v: &Vec<BucketCount>, b: i64) -> (r: bool)
    ensures
        r == exists|a: int| 0 <= a < v@.len() && (#[trigger] v@[a]).bucket == b,
{
    let mut a: usize = 0;
    while a < v.len()
        invariant
            0 <= a <= v@.len(),
            forall|k: int| 0 <= k < a ==> (#[trigger] v@[k]).bucket != b,
        decreases v.len() - a,
    {
        if v[a].bucket == b {
            return true;
        }
        a = a + 1;
    }
    false
}

/// Inserts a bucket in ascending order, keeping the order strict.
fn insert_bucket(v: &mut Vec<BucketCount>, x: BucketCount)
    requires
        forall|a: int, b: int| 0 <= a < b < old(v)@.len() ==> (#[trigger] old(v)@[a]).bucket < (#[trigger] old(v)@[b]).bucket,
        forall|a: int| 0 <= a < old(v)@.len() ==> (#[trigger] old(v)@[a]).bucket != x.bucket,
    ensures
        exists|k: int| 0 <= k <= old(v)@.len() && final(v)@ == old(v)@.insert(k, x),
        forall|a: int, b: int| 0 <= a < b < final(v)@.len() ==> (#[trigger] final(v)@[a]).bucket < (#[trigger] final(v)@[b]).bucket,
{
    let mut k: usize = 0;
    while k < v.len() && v[k].bucket < x.bucket
        invariant
            0 <= k <= v@.len(),
            v@ == old(v)@,
            forall|a: int| 0 <= a < k ==> (#[trigger] v@[a]).bucket < x.bucket,
        decreases v.len() - k,
    {
        k = k + 1;
    }
    let ghost before = v@;
    v.insert(k, x);
    proof {
        assert(v@ == before.insert(k as int, x));
        assert forall|a: int, b: int| 0 <= a < b < v@.len() implies (#[trigger] v@[a]).bucket < (#[trigger] v@[b]).bucket by {
            if b < k {
            } else if a < k && b == k {
            } else if a < k {
                assert(v@[b] == before[b - 1]);
            } else if a == k {
                assert(v@[b] == before[b - 1]);
                assert(before[k as int].bucket != x.bucket);
                if b - 1 > k {
                    assert(before[k as int].bucket < before[b - 1].bucket);
                }
            } else {
                assert(v@[a] == before[a - 1]);
                assert(v@[b] == before[b - 1]);
            }
        }
    }
}

proof fn lemma_bucket_insert(
    evs: Seq<AnalyzedEvent>,
    hourly: bool,
    old_r: Seq<BucketCount>,
    r: Seq<BucketCount>,
    x: BucketCount,
    k: int,
    i: int,
)
    requires
        0 <= i < evs.len(),
        bucket_progress(evs, hourly, old_r, i),
        x.bucket == bucket_of(evs[i].timestamp_ms, hourly),
        bucket_exact(evs, hourly, x),
        0 <= k <= old_r.len(),
        r == old_r.insert(k, x),
        forall|a: int, b: int| 0 <= a < b < r.len() ==> (#[trigger] r[a]).bucket < (#[trigger] r[b]).bucket,
    ensures
        bucket_progress(evs, hourly, r, i + 1),
{
    assert forall|a: int| 0 <= a < r.len() implies bucket_exact(evs, hourly, #[trigger] r[a]) by {
        if a < k {
            assert(r[a] == old_r[a]);
        } else if a > k {
            assert(r[a] == old_r[a - 1]);
        }
    }
    assert forall|j: int| 0 <= j < i + 1 implies exists|a: int|
        0 <= a < r.len() && (#[trigger] r[a]).bucket == bucket_of((#[trigger] evs[j]).timestamp_ms, hourly) by {
        if j == i {
            assert(r[k] == x);
        } else {
            let a2 = choose|a2: int| 0 <= a2 < old_r.len() && (#[trigger] old_r[a2]).bucket == bucket_of(evs[j].timestamp_ms, hourly);
            let a = if a2 < k { a2 } else { a2 + 1 };
            assert(r[a] == old_r[a2]);
        }
    }
}

proof fn lemma_bucket_done(evs: Seq<AnalyzedEvent>, hourly: bool, r: Seq<BucketCount>)
    requires
        bucket_progress(evs, hourly, r, evs.len() as int),
    ensures
        buckets_of(evs, hourly, r),
{
    assert forall|b: int| #[trigger] bucket_count(evs, b, hourly, None) >= 1 implies exists|a: int|
        0 <= a < r.len() && (#[trigger] r[a]).bucket == b by {
        if forall|j: int| 0 <= j < evs.len() ==> !(bucket_of((#[trigger] evs[j]).timestamp_ms, hourly) == b && true) {
            lemma_count_zero(evs, b, hourly, None);
        }
        let j = choose|j: int| 0 <= j < evs.len() && bucket_of((#[trigger] evs[j]).timestamp_ms, hourly) == b;
        assert(bucket_of(evs[j].timestamp_ms, hourly) == b);
    }
}

/// The error counts of some events per hour (`hourly`) or per day.
pub fn error_counts_by_bucket(events: &Vec<AnalyzedEvent>, hourly: bool) -> (r: Vec<BucketCount>)
    requires
        events@.len() <= u64::MAX,
    ensures
        buckets_of(events@, hourly, r@),
{
    let ghost evs = events@;
    let mut r: Vec<BucketCount> = Vec::new();
    let mut i: usize = 0;
    while i < events.len()
        invariant
            0 <= i <= evs.len(),
            evs == events@,
            evs.len() <= u64::MAX,
            bucket_progress(evs, hourly, r@, i as int),
        decreases events.len() - i,
    {
        let b = bucket(events[i].timestamp_ms, hourly);
        if !has_bucket(&r, b) {
            proof {
                lemma_count_positive(evs, i as int, b as int, hourly, None);
            }
            let x = bucket_entry(events, b, hourly);
            let ghost old_r = r@;
            insert_bucket(&mut r, x);
            proof {
                let k = choose|k: int| 0 <= k <= old_r.len() && r@ == old_r.insert(k, x);
                lemma_bucket_insert(evs, hourly, old_r, r@, x, k, i as int);
            }
        }
        i = i + 1;
    }
    proof {
        lemma_bucket_done(evs, hourly, r@);
    }
    r
}

} // verus!
