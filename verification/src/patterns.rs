//! Error patterns: the recorded error events grouped by pattern key, each
//! group seen at least twice becoming a pattern with its frequency, when it
//! was first and last seen, the tests it affected, a description and a
//! suggested fix; the patterns most frequent first.

use crate::metrics::{
    generate_pattern_description, generate_pattern_key, pattern_description_of, pattern_key_of,
    suggest_fix, fix_of, AnalyzedEvent,
};
use crate::text::str_eq;
use vstd::prelude::*;

verus! {

/// A recurring kind of error.
#[derive(Clone, Debug)]
pub struct ErrorPattern {
    /// The key its errors share
    pub pattern_key: String,
    pub description: String,
    /// How many events it groups
    pub frequency: u64,
    /// When its first and last events were recorded (milliseconds since
    /// the Unix epoch)
    pub first_seen_ms: i64,
    pub last_seen_ms: i64,
    /// The tests its events concern, each once
    pub affected_tests: Vec<String>,
    pub suggested_fix: Option<String>,
}

/// The events whose error has the pattern key `k`, in order.
pub open spec fn events_with_key(evs: Seq<AnalyzedEvent>, k: Seq<char>) -> Seq<AnalyzedEvent>
    decreases evs.len(),
{
    if evs.len() == 0 {
        Seq::empty()
    } else {
        let rest = events_with_key(evs.drop_last(), k);
        if pattern_key_of(evs.last().error) == k {
            rest.push(evs.last())
        } else {
            rest
        }
    }
}

/// Whether an event's context names the test `t`.
pub open spec fn concerns_test(e: AnalyzedEvent, t: Seq<char>) -> bool {
    e.context.test_name matches Some(n) && n@ == t
}

/// Whether a test is named in the context of one of the events.
pub open spec fn names_test(evs: Seq<AnalyzedEvent>, t: Seq<char>) -> bool {
    exists|i: int| 0 <= i < evs.len() && concerns_test(#[trigger] evs[i], t)
}

/// Whether some strings hold a text.
pub open spec fn lists_text(v: Seq<String>, t: Seq<char>) -> bool {
    exists|i: int| 0 <= i < v.len() && (#[trigger] v[i])@ == t
}

/// The texts of some strings hold no text twice.
pub open spec fn distinct_texts(s: Seq<String>) -> bool {
    forall|i: int, j: int| 0 <= i < j < s.len() ==> (#[trigger] s[i])@ != (#[trigger] s[j])@
}

/// A pattern describes the group of events of its key, seen at least
/// twice.
pub open spec fn describes_group(evs: Seq<AnalyzedEvent>, p: ErrorPattern) -> bool {
    let g = events_with_key(evs, p.pattern_key@);
    &&& g.len() >= 2
    &&& p.frequency == g.len()
    &&& p.first_seen_ms == g[0].timestamp_ms
    &&& p.last_seen_ms == g.last().timestamp_ms
    &&& p.description@ == pattern_description_of(g[0].error)
    &&& match fix_of(g[0].error) {
        Some(f) => p.suggested_fix matches Some(s) && s@ == f,
        None => p.suggested_fix is None,
    }
    &&& distinct_texts(p.affected_tests@)
    &&& forall|t: Seq<char>| names_test(g, t) <==> #[trigger] lists_text(p.affected_tests@, t)
}

/// The patterns of some events: one for each key seen at least twice, no
/// key twice, most frequent first.
pub open spec fn patterns_of(evs: Seq<AnalyzedEvent>, ps: Seq<ErrorPattern>) -> bool {
    &&& forall|i: int| 0 <= i < ps.len() ==> describes_group(evs, #[trigger] ps[i])
    &&& forall|i: int, j: int|
        0 <= i < j < ps.len() ==> (#[trigger] ps[i]).pattern_key@ != (#[trigger] ps[j]).pattern_key@
    &&& forall|i: int, j: int|
        0 <= i < j < ps.len() ==> (#[trigger] ps[i]).frequency >= (#[trigger] ps[j]).frequency
    &&& forall|k: Seq<char>|
        #[trigger] events_with_key(evs, k).len() >= 2 ==> exists|i: int|
            0 <= i < ps.len() && (#[trigger] ps[i]).pattern_key@ == k
}

proof fn lemma_group_step(evs: Seq<AnalyzedEvent>, j: int, k: Seq<char>)
    requires
        0 <= j < evs.len(),
    ensures
        events_with_key(evs.subrange(0, j + 1), k) == if pattern_key_of(evs[j].error) == k {
            events_with_key(evs.subrange(0, j), k).push(evs[j])
        } else {
            events_with_key(evs.subrange(0, j), k)
        },
{
    assert(evs.subrange(0, j + 1).drop_last() =~= evs.subrange(0, j));
}

proof fn lemma_group_members(evs: Seq<AnalyzedEvent>, k: Seq<char>, i: int)
    requires
        0 <= i < events_with_key(evs, k).len(),
    ensures
        pattern_key_of(events_with_key(evs, k)[i].error) == k,
    decreases evs.len(),
{
    let rest = events_with_key(evs.drop_last(), k);
    if i < rest.len() {
        lemma_group_members(evs.drop_last(), k, i);
    }
}

proof fn lemma_no_key_no_group(evs: Seq<AnalyzedEvent>, k: Seq<char>)
    requires
        forall|i: int| 0 <= i < evs.len() ==> pattern_key_of((#[trigger] evs[i]).error) != k,
    ensures
        events_with_key(evs, k).len() == 0,
    decreases evs.len(),
{
    if evs.len() > 0 {
        assert(pattern_key_of(evs[evs.len() - 1].error) != k);
        lemma_no_key_no_group(evs.drop_last(), k);
    }
}

/// Whether a list of strings holds a text.
fn holds_text(v: &Vec<String>, t: &str) -> (r: bool)
    ensures
        r == lists_text(v@, t@),
{
    let mut i: usize = 0;
    while i < v.len()
        invariant
            0 <= i <= v@.len(),
            forall|j: int| 0 <= j < i ==> (#[trigger] v@[j])@ != t@,
        decreases v.len() - i,
    {
        if str_eq(v[i].as_str(), t) {
            return true;
        }
        i = i + 1;
    }
    false
}

/// The pattern of the events of one key, from the group's first event on.
fn group_pattern(events: &Vec<AnalyzedEvent>, key: &str) -> (r: ErrorPattern)
    requires
        events_with_key(events@, key@).len() >= 2,
        events@.len() <= u64::MAX,
    ensures
        r.pattern_key@ == key@,
        describes_group(events@, r),
{
    let ghost evs = events@;
    let mut count: u64 = 0;
    let mut first: i64 = 0;
    let mut last: i64 = 0;
    let mut first_index: usize = 0;
    let mut tests: Vec<String> = Vec::new();
    let mut j: usize = 0;
    proof {
        assert(evs.subrange(0, 0) =~= Seq::<AnalyzedEvent>::empty());
    }
    while j < events.len()
        invariant
            0 <= j <= evs.len(),
            evs == events@,
            evs.len() <= u64::MAX,
            count == events_with_key(evs.subrange(0, j as int), key@).len(),
            count > 0 ==> first == events_with_key(evs.subrange(0, j as int), key@)[0].timestamp_ms,
            count > 0 ==> last == events_with_key(evs.subrange(0, j as int), key@).last().timestamp_ms,
            count > 0 ==> first_index < evs.len() && events_with_key(evs.subrange(0, j as int), key@)[0]
                == evs[first_index as int],
            distinct_texts(tests@),
            forall|t: Seq<char>|
                names_test(events_with_key(evs.subrange(0, j as int), key@), t) <==> #[trigger] lists_text(tests@, t),
        decreases events.len() - j,
    {
        let ghost before = events_with_key(evs.subrange(0, j as int), key@);
        proof {
            lemma_group_step(evs, j as int, key@);
        }
        let k = generate_pattern_key(&events[j].error);
        if str_eq(k, key) {
            let ghost after = before.push(evs[j as int]);
            assert(events_with_key(evs.subrange(0, j + 1), key@) == after);
            if count == 0 {
                first = events[j].timestamp_ms;
                first_index = j;
            }
            last = events[j].timestamp_ms;
            proof {
                lemma_count_bound(evs.subrange(0, j as int), key@);
            }
            count = count + 1;
            let ghost old_tests = tests@;
            match &events[j].context.test_name {
                Some(t) => {
                    if !holds_text(&tests, t.as_str()) {
                        tests.push(t.clone());
                        proof {
                            assert forall|a: int, b: int| 0 <= a < b < tests@.len() implies (#[trigger] tests@[a])@
                                != (#[trigger] tests@[b])@ by {
                                if b == tests@.len() - 1 {
                                    assert(tests@[a] == old_tests[a]);
                                } else {
                                    assert(tests@[a] == old_tests[a]);
                                    assert(tests@[b] == old_tests[b]);
                                }
                            }
                            assert forall|u: Seq<char>| #[trigger] lists_text(tests@, u)
                                == (lists_text(old_tests, u) || t@ == u) by {
                                if lists_text(old_tests, u) {
                                    let i = choose|i: int| 0 <= i < old_tests.len() && (#[trigger] old_tests[i])@ == u;
                                    assert(tests@[i] == old_tests[i]);
                                }
                                if t@ == u {
                                    assert(tests@[old_tests.len() as int] == *t);
                                }
                                if lists_text(tests@, u) {
                                    let i = choose|i: int| 0 <= i < tests@.len() && (#[trigger] tests@[i])@ == u;
                                    if i < old_tests.len() {
                                        assert(tests@[i] == old_tests[i]);
                                    }
                                }
                            }
                        }
                    }
                },
                None => {},
            }
            proof {
                lemma_names_push(before, evs[j as int]);
                assert forall|u: Seq<char>| names_test(after, u) <==> #[trigger] lists_text(tests@, u) by {
                    assert(names_test(after, u) == (names_test(before, u) || concerns_test(evs[j as int], u)));
                    assert(lists_text(tests@, u) == (lists_text(old_tests, u) || concerns_test(evs[j as int], u)));
                }
            }
        } else {
            assert(events_with_key(evs.subrange(0, j + 1), key@) == before);
        }
        j = j + 1;
    }
    proof {
        assert(evs.subrange(0, evs.len() as int) =~= evs);
        lemma_group_members(evs, key@, 0);
    }
    let description = generate_pattern_description(&events[first_index].error).to_string();
    let suggested_fix = match suggest_fix(&events[first_index].error) {
        Some(f) => Some(f.to_string()),
        None => None,
    };
    ErrorPattern {
        pattern_key: key.to_string(),
        description,
        frequency: count,
        first_seen_ms: first,
        last_seen_ms: last,
        affected_tests: tests,
        suggested_fix,
    }
}

proof fn lemma_names_push(evs: Seq<AnalyzedEvent>, e: AnalyzedEvent)
    ensures
        forall|t: Seq<char>| #[trigger] names_test(evs.push(e), t) <==> (names_test(evs, t) || concerns_test(e, t)),
{
    assert forall|t: Seq<char>| #[trigger] names_test(evs.push(e), t) <==> (names_test(evs, t) || concerns_test(e, t)) by {
        let s = evs.push(e);
        if names_test(s, t) {
            let i = choose|i: int| 0 <= i < s.len() && concerns_test(#[trigger] s[i], t);
            if i < evs.len() {
                assert(s[i] == evs[i]);
            }
        }
        if names_test(evs, t) {
            let i = choose|i: int| 0 <= i < evs.len() && concerns_test(#[trigger] evs[i], t);
            assert(s[i] == evs[i]);
        }
        if concerns_test(e, t) {
            assert(s[evs.len() as int] == e);
        }
    }
}

proof fn lemma_count_bound(evs: Seq<AnalyzedEvent>, k: Seq<char>)
    ensures
        events_with_key(evs, k).len() <= evs.len(),
    decreases evs.len(),
{
    if evs.len() > 0 {
        lemma_count_bound(evs.drop_last(), k);
    }
}

/// Inserts a pattern after all patterns at least as frequent.
fn insert_by_frequency(ps: &mut Vec<ErrorPattern>, p: ErrorPattern)
    requires
        forall|i: int, j: int|
            0 <= i < j < old(ps)@.len() ==> (#[trigger] old(ps)@[i]).frequency >= (
            #[trigger] old(ps)@[j]).frequency,
    ensures
        exists|k: int| 0 <= k <= old(ps)@.len() && final(ps)@ == old(ps)@.insert(k, p),
        forall|i: int, j: int|
            0 <= i < j < final(ps)@.len() ==> (#[trigger] final(ps)@[i]).frequency >= (
            #[trigger] final(ps)@[j]).frequency,
{
    let mut k: usize = 0;
    while k < ps.len() && ps[k].frequency >= p.frequency
        invariant
            0 <= k <= ps@.len(),
            ps@ == old(ps)@,
            forall|i: int| 0 <= i < k ==> (#[trigger] ps@[i]).frequency >= p.frequency,
        decreases ps.len() - k,
    {
        k = k + 1;
    }
    let ghost before = ps@;
    ps.insert(k, p);
    proof {
        assert(ps@ == before.insert(k as int, p));
        assert forall|i: int, j: int| 0 <= i < j < ps@.len() implies (#[trigger] ps@[i]).frequency
            >= (#[trigger] ps@[j]).frequency by {
            if j < k {
            } else if i < k && j == k {
            } else if i < k {
                assert(ps@[j] == before[j - 1]);
            } else if i == k {
                assert(ps@[j] == before[j - 1]);
                assert(before[k as int].frequency < p.frequency);
                if j - 1 > k {
                    assert(before[k as int].frequency >= before[j - 1].frequency);
                }
            } else {
                assert(ps@[i] == before[i - 1]);
                assert(ps@[j] == before[j - 1]);
            }
        }
    }
}

/// Whether a key already occurs before index `i`.
fn key_seen_before(events: &Vec<AnalyzedEvent>, i: usize, key: &str) -> (r: bool)
    requires
        i <= events@.len(),
    ensures
        r == exists|j: int| 0 <= j < i && pattern_key_of((#[trigger] events@[j]).error) == key@,
{
    let mut j: usize = 0;
    while j < i
        invariant
            0 <= j <= i,
            i <= events@.len(),
            forall|m: int| 0 <= m < j ==> pattern_key_of((#[trigger] events@[m]).error) != key@,
        decreases i - j,
    {
        if str_eq(generate_pattern_key(&events[j].error), key) {
            return true;
        }
        j = j + 1;
    }
    false
}

/// What the patterns found among the first `i` events satisfy.
pub open spec fn progress(evs: Seq<AnalyzedEvent>, ps: Seq<ErrorPattern>, i: int) -> bool {
    &&& forall|a: int| 0 <= a < ps.len() ==> describes_group(evs, #[trigger] ps[a])
    &&& forall|a: int, b: int|
        0 <= a < b < ps.len() ==> (#[trigger] ps[a]).pattern_key@ != (#[trigger] ps[b]).pattern_key@
    &&& forall|a: int, b: int|
        0 <= a < b < ps.len() ==> (#[trigger] ps[a]).frequency >= (#[trigger] ps[b]).frequency
    &&& forall|a: int|
        0 <= a < ps.len() ==> exists|j: int|
            0 <= j < i && pattern_key_of((#[trigger] evs[j]).error) == (#[trigger] ps[a]).pattern_key@
    &&& forall|j: int|
        0 <= j < i && #[trigger] events_with_key(evs, pattern_key_of(evs[j].error)).len() >= 2
            ==> exists|a: int|
            0 <= a < ps.len() && (#[trigger] ps[a]).pattern_key@ == pattern_key_of(evs[j].error)
}

proof fn lemma_progress_skip(evs: Seq<AnalyzedEvent>, ps: Seq<ErrorPattern>, i: int)
    requires
        0 <= i < evs.len(),
        progress(evs, ps, i),
        (exists|j: int| 0 <= j < i && pattern_key_of((#[trigger] evs[j]).error) == pattern_key_of(evs[i].error))
            || events_with_key(evs, pattern_key_of(evs[i].error)).len() < 2,
    ensures
        progress(evs, ps, i + 1),
{
    assert forall|a: int| 0 <= a < ps.len() implies exists|j: int|
        0 <= j < i + 1 && pattern_key_of((#[trigger] evs[j]).error) == (#[trigger] ps[a]).pattern_key@ by {
        let jj = choose|jj: int| 0 <= jj < i && pattern_key_of((#[trigger] evs[jj]).error) == ps[a].pattern_key@;
        assert(pattern_key_of(evs[jj].error) == ps[a].pattern_key@);
    }
    assert forall|j: int|
        0 <= j < i + 1 && #[trigger] events_with_key(evs, pattern_key_of(evs[j].error)).len() >= 2
            implies exists|a: int|
            0 <= a < ps.len() && (#[trigger] ps[a]).pattern_key@ == pattern_key_of(evs[j].error) by {
        if j == i {
            let jj = choose|jj: int| 0 <= jj < i && pattern_key_of((#[trigger] evs[jj]).error) == pattern_key_of(evs[i].error);
            assert(events_with_key(evs, pattern_key_of(evs[jj].error)).len() >= 2);
        }
    }
}

proof fn lemma_insert_describes(
    evs: Seq<AnalyzedEvent>,
    old_ps: Seq<ErrorPattern>,
    ps: Seq<ErrorPattern>,
    p: ErrorPattern,
    k: int,
)
    requires
        forall|a: int| 0 <= a < old_ps.len() ==> describes_group(evs, #[trigger] old_ps[a]),
        describes_group(evs, p),
        0 <= k <= old_ps.len(),
        ps == old_ps.insert(k, p),
    ensures
        forall|a: int| 0 <= a < ps.len() ==> describes_group(evs, #[trigger] ps[a]),
{
    assert forall|a: int| 0 <= a < ps.len() implies describes_group(evs, #[trigger] ps[a]) by {
        if a < k {
            assert(ps[a] == old_ps[a]);
        } else if a > k {
            assert(ps[a] == old_ps[a - 1]);
        }
    }
}

proof fn lemma_insert_keys(
    evs: Seq<AnalyzedEvent>,
    old_ps: Seq<ErrorPattern>,
    ps: Seq<ErrorPattern>,
    p: ErrorPattern,
    k: int,
    i: int,
)
    requires
        0 <= i < evs.len(),
        forall|a: int, b: int|
            0 <= a < b < old_ps.len() ==> (#[trigger] old_ps[a]).pattern_key@ != (#[trigger] old_ps[b]).pattern_key@,
        forall|a: int|
            0 <= a < old_ps.len() ==> exists|j: int|
                0 <= j < i && pattern_key_of((#[trigger] evs[j]).error) == (#[trigger] old_ps[a]).pattern_key@,
        forall|j: int| 0 <= j < i ==> pattern_key_of((#[trigger] evs[j]).error) != pattern_key_of(evs[i].error),
        p.pattern_key@ == pattern_key_of(evs[i].error),
        0 <= k <= old_ps.len(),
        ps == old_ps.insert(k, p),
    ensures
        forall|a: int, b: int|
            0 <= a < b < ps.len() ==> (#[trigger] ps[a]).pattern_key@ != (#[trigger] ps[b]).pattern_key@,
        forall|a: int|
            0 <= a < ps.len() ==> exists|j: int|
                0 <= j < i + 1 && pattern_key_of((#[trigger] evs[j]).error) == (#[trigger] ps[a]).pattern_key@,
{
    assert forall|a: int| 0 <= a < ps.len() implies exists|j: int|
        0 <= j < i + 1 && pattern_key_of((#[trigger] evs[j]).error) == (#[trigger] ps[a]).pattern_key@ by {
        if a == k {
            assert(pattern_key_of(evs[i].error) == ps[a].pattern_key@);
        } else {
            let a2 = if a < k { a } else { a - 1 };
            assert(ps[a] == old_ps[a2]);
            let jj = choose|jj: int| 0 <= jj < i && pattern_key_of((#[trigger] evs[jj]).error) == old_ps[a2].pattern_key@;
            assert(pattern_key_of(evs[jj].error) == ps[a].pattern_key@);
        }
    }
    assert forall|a: int, b: int| 0 <= a < b < ps.len() implies (#[trigger] ps[a]).pattern_key@
        != (#[trigger] ps[b]).pattern_key@ by {
        if a == k || b == k {
            let other = if a == k { b } else { a };
            let o = if other < k { other } else { other - 1 };
            assert(ps[other] == old_ps[o]);
            let jj = choose|jj: int| 0 <= jj < i && pattern_key_of((#[trigger] evs[jj]).error) == old_ps[o].pattern_key@;
            assert(pattern_key_of(evs[jj].error) == old_ps[o].pattern_key@);
        } else {
            let a2 = if a < k { a } else { a - 1 };
            let b2 = if b < k { b } else { b - 1 };
            assert(ps[a] == old_ps[a2]);
            assert(ps[b] == old_ps[b2]);
        }
    }
}

proof fn lemma_insert_covers(
    evs: Seq<AnalyzedEvent>,
    old_ps: Seq<ErrorPattern>,
    ps: Seq<ErrorPattern>,
    p: ErrorPattern,
    k: int,
    i: int,
)
    requires
        0 <= i < evs.len(),
        forall|j: int|
            0 <= j < i && #[trigger] events_with_key(evs, pattern_key_of(evs[j].error)).len() >= 2
                ==> exists|a: int|
                0 <= a < old_ps.len() && (#[trigger] old_ps[a]).pattern_key@ == pattern_key_of(evs[j].error),
        p.pattern_key@ == pattern_key_of(evs[i].error),
        0 <= k <= old_ps.len(),
        ps == old_ps.insert(k, p),
    ensures
        forall|j: int|
            0 <= j < i + 1 && #[trigger] events_with_key(evs, pattern_key_of(evs[j].error)).len() >= 2
                ==> exists|a: int|
                0 <= a < ps.len() && (#[trigger] ps[a]).pattern_key@ == pattern_key_of(evs[j].error),
{
    assert forall|j: int|
        0 <= j < i + 1 && #[trigger] events_with_key(evs, pattern_key_of(evs[j].error)).len() >= 2
            implies exists|a: int|
            0 <= a < ps.len() && (#[trigger] ps[a]).pattern_key@ == pattern_key_of(evs[j].error) by {
        if j == i {
            assert(ps[k].pattern_key@ == pattern_key_of(evs[j].error));
        } else {
            let a2 = choose|a2: int| 0 <= a2 < old_ps.len() && (#[trigger] old_ps[a2]).pattern_key@ == pattern_key_of(evs[j].error);
            let a = if a2 < k { a2 } else { a2 + 1 };
            assert(ps[a] == old_ps[a2]);
        }
    }
}

proof fn lemma_progress_insert(
    evs: Seq<AnalyzedEvent>,
    old_ps: Seq<ErrorPattern>,
    ps: Seq<ErrorPattern>,
    p: ErrorPattern,
    k: int,
    i: int,
)
    requires
        0 <= i < evs.len(),
        progress(evs, old_ps, i),
        forall|j: int| 0 <= j < i ==> pattern_key_of((#[trigger] evs[j]).error) != pattern_key_of(evs[i].error),
        p.pattern_key@ == pattern_key_of(evs[i].error),
        describes_group(evs, p),
        0 <= k <= old_ps.len(),
        ps == old_ps.insert(k, p),
        forall|a: int, b: int|
            0 <= a < b < ps.len() ==> (#[trigger] ps[a]).frequency >= (#[trigger] ps[b]).frequency,
    ensures
        progress(evs, ps, i + 1),
{
    lemma_insert_describes(evs, old_ps, ps, p, k);
    lemma_insert_keys(evs, old_ps, ps, p, k, i);
    lemma_insert_covers(evs, old_ps, ps, p, k, i);
}

proof fn lemma_progress_done(evs: Seq<AnalyzedEvent>, ps: Seq<ErrorPattern>)
    requires
        progress(evs, ps, evs.len() as int),
    ensures
        patterns_of(evs, ps),
{
    assert forall|k: Seq<char>| #[trigger] events_with_key(evs, k).len() >= 2 implies exists|a: int|
        0 <= a < ps.len() && (#[trigger] ps[a]).pattern_key@ == k by {
        if forall|j: int| 0 <= j < evs.len() ==> pattern_key_of((#[trigger] evs[j]).error) != k {
            lemma_no_key_no_group(evs, k);
        }
        let j = choose|j: int| 0 <= j < evs.len() && pattern_key_of((#[trigger] evs[j]).error) == k;
        assert(events_with_key(evs, pattern_key_of(evs[j].error)).len() >= 2);
    }
}

/// The error patterns of some events: every key seen at least twice, each
/// once, most frequent first (keys equally frequent in the order they were
/// first seen).
pub fn identify_error_patterns(events: &Vec<AnalyzedEvent>) -> (r: Vec<ErrorPattern>)
    requires
        events@.len() <= u64::MAX,
    ensures
        patterns_of(events@, r@),
{
    let ghost evs = events@;
    let mut ps: Vec<ErrorPattern> = Vec::new();
    let mut i: usize = 0;
    while i < events.len()
        invariant
            0 <= i <= evs.len(),
            evs == events@,
            evs.len() <= u64::MAX,
            progress(evs, ps@, i as int),
        decreases events.len() - i,
    {
        let key = generate_pattern_key(&events[i].error);
        let seen = key_seen_before(events, i, key);
        if !seen && count_key(events, key) >= 2 {
            let p = group_pattern(events, key);
            let ghost old_ps = ps@;
            insert_by_frequency(&mut ps, p);
            proof {
                let k = choose|k: int| 0 <= k <= old_ps.len() && ps@ == old_ps.insert(k, p);
                lemma_progress_insert(evs, old_ps, ps@, p, k, i as int);
            }
        } else {
            proof {
                lemma_progress_skip(evs, ps@, i as int);
            }
        }
        i = i + 1;
    }
    proof {
        lemma_progress_done(evs, ps@);
    }
    ps
}

/// How many events have the pattern key.
fn count_key(events: &Vec<AnalyzedEvent>, key: &str) -> (r: usize)
    ensures
        r == events_with_key(events@, key@).len(),
{
    let ghost evs = events@;
    let mut n: usize = 0;
    let mut j: usize = 0;
    proof {
        assert(evs.subrange(0, 0) =~= Seq::<AnalyzedEvent>::empty());
    }
    while j < events.len()
        invariant
            0 <= j <= evs.len(),
            evs == events@,
            n == events_with_key(evs.subrange(0, j as int), key@).len(),
        decreases events.len() - j,
    {
        proof {
            lemma_group_step(evs, j as int, key@);
            lemma_count_bound(evs.subrange(0, j as int), key@);
        }
        if str_eq(generate_pattern_key(&events[j].error), key) {
            n = n + 1;
        }
        j = j + 1;
    }
    proof {
        assert(evs.subrange(0, evs.len() as int) =~= evs);
    }
    n
}

} // verus!
