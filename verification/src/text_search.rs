//! Search inside indexed content: every occurrence of the search term,
//! or every match of its regular expression, where it stands (byte
//! offset, line and column) and the lines around it.  Lines are those of
//! `str::lines`: split at `\n`, a `\r` before the `\n` dropped, no empty
//! line after a final `\n`.  Offsets and columns count UTF-8 bytes.  Also
//! which files a search covers, by its include and exclude patterns.

use crate::content::SearchQuery;
use crate::validation::{regex_is_match, regex_match_result};
use crate::text::{chars_of, chars_occur_at, contains_seq, lowercase_of, occurs_at, push_char, to_lowercase};
use vstd::prelude::*;

verus! {

/// The number of bytes of a character in UTF-8.
pub open spec fn char_bytes(c: char) -> nat {
    if (c as u32) < 0x80 {
        1
    } else if (c as u32) < 0x800 {
        2
    } else if (c as u32) < 0x10000 {
        3
    } else {
        4
    }
}

/// The number of bytes of a text in UTF-8.
pub open spec fn text_bytes(s: Seq<char>) -> nat
    decreases s.len(),
{
    if s.len() == 0 {
        0
    } else {
        text_bytes(s.drop_last()) + char_bytes(s.last())
    }
}

/// A line without the `\r` that ended it.
pub open spec fn strip_cr(l: Seq<char>) -> Seq<char> {
    if l.len() > 0 && l.last() == '\r' {
        l.drop_last()
    } else {
        l
    }
}

/// The lines completed so far and the line being read, after reading `s`.
pub open spec fn split_state(s: Seq<char>) -> (Seq<Seq<char>>, Seq<char>)
    decreases s.len(),
{
    if s.len() == 0 {
        (Seq::empty(), Seq::empty())
    } else {
        let (done, cur) = split_state(s.drop_last());
        if s.last() == '\n' {
            (done.push(strip_cr(cur)), Seq::empty())
        } else {
            (done, cur.push(s.last()))
        }
    }
}

/// The lines of a text, as `str::lines` gives them.
pub open spec fn lines_of(s: Seq<char>) -> Seq<Seq<char>> {
    let (done, cur) = split_state(s);
    if cur.len() > 0 {
        done.push(cur)
    } else {
        done
    }
}

/// The line number and the column (in bytes, from one) of the position
/// after the text `before`: the number of its lines, and the length of
/// its last line plus one.
pub open spec fn line_info(before: Seq<char>) -> (nat, nat) {
    let ls = lines_of(before);
    if ls.len() == 0 {
        (0, 1)
    } else {
        (ls.len(), text_bytes(ls.last()) + 1)
    }
}

/// The text of an optional string.
pub open spec fn opt_text(r: Option<String>) -> Option<Seq<char>> {
    match r {
        Some(s) => Some(s@),
        None => None,
    }
}

/// Lines joined with `\n`.
pub open spec fn join_lines(ls: Seq<Seq<char>>) -> Seq<char>
    decreases ls.len(),
{
    if ls.len() == 0 {
        Seq::empty()
    } else if ls.len() == 1 {
        ls[0]
    } else {
        join_lines(ls.drop_last()) + seq!['\n'] + ls.last()
    }
}

/// The lines before a position (given by the text before it): the line of
/// the position and up to `ctx` lines above it.
pub open spec fn context_before(content: Seq<char>, before: Seq<char>, ctx: nat) -> Option<Seq<char>> {
    let ls = lines_of(content);
    let n = line_info(before).0;
    if ctx == 0 || n == 0 {
        None
    } else {
        let start: int = if n >= ctx + 1 {
            n - (ctx + 1)
        } else {
            0
        };
        let end: int = n - 1;
        if start >= ls.len() || end >= ls.len() || start > end {
            None
        } else {
            Some(join_lines(ls.subrange(start, end + 1)))
        }
    }
}

/// The lines after a position: up to `ctx + 1` lines from the one after
/// the position's line.
pub open spec fn context_after(content: Seq<char>, before: Seq<char>, ctx: nat) -> Option<Seq<char>> {
    let ls = lines_of(content);
    let n = line_info(before).0;
    let last: int = if ls.len() > 0 {
        ls.len() - 1
    } else {
        0
    };
    let end: int = if n + ctx <= last {
        (n + ctx) as int
    } else {
        last
    };
    if ctx == 0 || n >= ls.len() || n > end {
        None
    } else {
        Some(join_lines(ls.subrange(n as int, end + 1)))
    }
}

proof fn lemma_split_step(s: Seq<char>, i: int)
    requires
        0 <= i < s.len(),
    ensures
        split_state(s.subrange(0, i + 1)) == if s[i] == '\n' {
            (split_state(s.subrange(0, i)).0.push(strip_cr(split_state(s.subrange(0, i)).1)), Seq::<char>::empty())
        } else {
            (split_state(s.subrange(0, i)).0, split_state(s.subrange(0, i)).1.push(s[i]))
        },
{
    assert(s.subrange(0, i + 1).drop_last() =~= s.subrange(0, i));
}

proof fn lemma_bytes_step(s: Seq<char>, i: int)
    requires
        0 <= i < s.len(),
    ensures
        text_bytes(s.subrange(0, i + 1)) == text_bytes(s.subrange(0, i)) + char_bytes(s[i]),
{
    assert(s.subrange(0, i + 1).drop_last() =~= s.subrange(0, i));
}

fn char_len(c: char) -> (r: usize)
    ensures
        r == char_bytes(c),
{
    let u = c as u32;
    if u < 0x80 {
        1
    } else if u < 0x800 {
        2
    } else if u < 0x10000 {
        3
    } else {
        4
    }
}

fn text_len(s: &Vec<char>) -> (r: usize)
    requires
        text_bytes(s@) <= usize::MAX,
    ensures
        r == text_bytes(s@),
{
    let mut n: usize = 0;
    let mut i: usize = 0;
    while i < s.len()
        invariant
            0 <= i <= s@.len(),
            text_bytes(s@) <= usize::MAX,
            n == text_bytes(s@.subrange(0, i as int)),
        decreases s.len() - i,
    {
        proof {
            lemma_bytes_step(s@, i as int);
            lemma_bytes_prefix(s@, i + 1);
        }
        n = n + char_len(s[i]);
        i = i + 1;
    }
    proof {
        assert(s@.subrange(0, s@.len() as int) =~= s@);
    }
    n
}

proof fn lemma_bytes_prefix(s: Seq<char>, i: int)
    requires
        0 <= i <= s.len(),
    ensures
        text_bytes(s.subrange(0, i)) <= text_bytes(s),
    decreases s.len() - i,
{
    if i < s.len() {
        lemma_bytes_prefix(s, i + 1);
        lemma_bytes_step(s, i);
    } else {
        assert(s.subrange(0, i) =~= s);
    }
}

/// The lines of the first `k` characters of a text.
fn split_lines(s: &Vec<char>, k: usize) -> (r: Vec<Vec<char>>)
    requires
        k <= s@.len(),
    ensures
        r@.len() == lines_of(s@.subrange(0, k as int)).len(),
        forall|a: int| 0 <= a < r@.len() ==> (#[trigger] r@[a])@ == lines_of(s@.subrange(0, k as int))[a],
{
    let mut done: Vec<Vec<char>> = Vec::new();
    let mut cur: Vec<char> = Vec::new();
    let mut i: usize = 0;
    proof {
        assert(s@.subrange(0, 0) =~= Seq::<char>::empty());
    }
    while i < k
        invariant
            0 <= i <= k,
            k <= s@.len(),
            done@.len() == split_state(s@.subrange(0, i as int)).0.len(),
            forall|a: int| 0 <= a < done@.len() ==> (#[trigger] done@[a])@ == split_state(s@.subrange(0, i as int)).0[a],
            cur@ == split_state(s@.subrange(0, i as int)).1,
        decreases k - i,
    {
        proof {
            lemma_split_step(s@, i as int);
        }
        let c = s[i];
        if c == '\n' {
            let n = cur.len();
            if n > 0 && cur[n - 1] == '\r' {
                cur.pop();
            }
            let ghost old_done = done@;
            let line = cur;
            done.push(line);
            cur = Vec::new();
            proof {
                assert forall|a: int| 0 <= a < done@.len() implies (#[trigger] done@[a])@ == split_state(
                    s@.subrange(0, i + 1),
                ).0[a] by {
                    if a < old_done.len() {
                        assert(done@[a] == old_done[a]);
                    }
                }
            }
        } else {
            cur.push(c);
        }
        i = i + 1;
    }
    if cur.len() > 0 {
        let ghost old_done = done@;
        done.push(cur);
        proof {
            assert forall|a: int| 0 <= a < done@.len() implies (#[trigger] done@[a])@ == lines_of(
                s@.subrange(0, k as int),
            )[a] by {
                if a < old_done.len() {
                    assert(done@[a] == old_done[a]);
                }
            }
        }
    }
    done
}

proof fn lemma_split_bytes(s: Seq<char>)
    ensures
        text_bytes(split_state(s).1) <= text_bytes(s),
        forall|a: int| 0 <= a < split_state(s).0.len() ==> text_bytes(#[trigger] split_state(s).0[a]) <= text_bytes(s),
        split_state(s).0.len() <= s.len(),
    decreases s.len(),
{
    if s.len() > 0 {
        let t = s.drop_last();
        lemma_split_bytes(t);
        let (done, cur) = split_state(t);
        if s.last() == '\n' {
            let l = strip_cr(cur);
            if cur.len() > 0 && cur.last() == '\r' {
                assert(cur.drop_last() == l);
            }
            assert forall|a: int| 0 <= a < split_state(s).0.len() implies text_bytes(#[trigger] split_state(s).0[a]) <= text_bytes(s) by {
                if a < done.len() {
                    assert(split_state(s).0[a] == done[a]);
                }
            }
        } else {
            assert(cur.push(s.last()).drop_last() == cur);
        }
    }
}

proof fn lemma_lines_bytes(s: Seq<char>)
    ensures
        forall|a: int| 0 <= a < lines_of(s).len() ==> text_bytes(#[trigger] lines_of(s)[a]) <= text_bytes(s),
        lines_of(s).len() <= s.len(),
{
    lemma_split_bytes(s);
    lemma_split_cur_len(s);
    let (done, cur) = split_state(s);
    if cur.len() > 0 {
        assert forall|a: int| 0 <= a < lines_of(s).len() implies text_bytes(#[trigger] lines_of(s)[a]) <= text_bytes(s) by {
            if a < done.len() {
                assert(lines_of(s)[a] == done[a]);
            }
        }
        assert(cur.len() <= s.len()) by {
            lemma_split_cur_len(s);
        }
    }
}

proof fn lemma_split_cur_len(s: Seq<char>)
    ensures
        split_state(s).1.len() + split_state(s).0.len() <= s.len(),
    decreases s.len(),
{
    if s.len() > 0 {
        lemma_split_cur_len(s.drop_last());
    }
}

/// The line number and column of the position after the first `i`
/// characters.
fn line_info_at(cs: &Vec<char>, i: usize) -> (r: (usize, usize))
    requires
        i <= cs@.len(),
        text_bytes(cs@) < usize::MAX,
    ensures
        r.0 == line_info(cs@.subrange(0, i as int)).0,
        r.1 == line_info(cs@.subrange(0, i as int)).1,
{
    let ls = split_lines(cs, i);
    let n = ls.len();
    if n == 0 {
        (0, 1)
    } else {
        proof {
            let b = cs@.subrange(0, i as int);
            lemma_lines_bytes(b);
            lemma_bytes_prefix(cs@, i as int);
            assert(text_bytes(lines_of(b)[n - 1]) <= text_bytes(cs@));
        }
        let len = text_len(&ls[n - 1]);
        (n, len + 1)
    }
}

/// The lines `start..=end` joined with `\n`.
fn join_range(ls: &Vec<Vec<char>>, start: usize, end: usize) -> (r: String)
    requires
        start <= end < ls@.len(),
    ensures
        r@ == join_lines(ls@.map_values(|l: Vec<char>| l@).subrange(start as int, end + 1)),
{
    let ghost views = ls@.map_values(|l: Vec<char>| l@);
    let mut out = String::new();
    let mut k: usize = start;
    let total = ls.len();
    while k <= end
        invariant
            start <= k <= end + 1,
            end < total,
            total == ls@.len(),
            views == ls@.map_values(|l: Vec<char>| l@),
            k > start ==> out@ == join_lines(views.subrange(start as int, k as int)),
            k == start ==> out@.len() == 0,
        decreases end + 1 - k,
    {
        let ghost before = out@;
        if k > start {
            push_char(&mut out, '\n');
        }
        let line = &ls[k];
        let mut j: usize = 0;
        let ghost mid = out@;
        while j < line.len()
            invariant
                0 <= j <= line@.len(),
                out@ == mid + line@.subrange(0, j as int),
            decreases line.len() - j,
        {
            push_char(&mut out, line[j]);
            proof {
                assert(line@.subrange(0, j + 1) == line@.subrange(0, j as int).push(line@[j as int]));
            }
            j = j + 1;
        }
        proof {
            assert(line@.subrange(0, line@.len() as int) =~= line@);
            let piece = views.subrange(start as int, k + 1);
            assert(piece.drop_last() =~= views.subrange(start as int, k as int));
            assert(piece.last() == views[k as int]);
            assert(views[k as int] == ls@[k as int]@);
            if k == start {
                assert(piece.len() == 1);
                assert(out@ =~= piece[0]);
            } else {
                assert(out@ =~= before + seq!['\n'] + line@);
            }
        }
        k = k + 1;
    }
    out
}

/// The lines of the content before a position, as `context_before` gives
/// them, for a position after `i` characters.
fn context_before_at(cs: &Vec<char>, ls: &Vec<Vec<char>>, i: usize, ctx: usize) -> (r: Option<String>)
    requires
        i <= cs@.len(),
        text_bytes(cs@) < usize::MAX,
        ctx < usize::MAX,
        ls@.len() == lines_of(cs@).len(),
        forall|a: int| 0 <= a < ls@.len() ==> (#[trigger] ls@[a])@ == lines_of(cs@)[a],
    ensures
        opt_text(r) == context_before(cs@, cs@.subrange(0, i as int), ctx as nat),
{
    if ctx == 0 {
        return None;
    }
    let (n, _) = line_info_at(cs, i);
    if n == 0 {
        return None;
    }
    let start = if n >= ctx + 1 {
        n - (ctx + 1)
    } else {
        0
    };
    let end = n - 1;
    if start >= ls.len() || end >= ls.len() || start > end {
        return None;
    }
    proof {
        assert(ls@.map_values(|l: Vec<char>| l@) =~= lines_of(cs@));
    }
    Some(join_range(ls, start, end))
}

/// The lines of the content after a position, as `context_after` gives
/// them, for a position after `i` characters.
fn context_after_at(cs: &Vec<char>, ls: &Vec<Vec<char>>, i: usize, ctx: usize) -> (r: Option<String>)
    requires
        i <= cs@.len(),
        text_bytes(cs@) < usize::MAX,
        ctx + cs@.len() <= usize::MAX,
        ls@.len() == lines_of(cs@).len(),
        forall|a: int| 0 <= a < ls@.len() ==> (#[trigger] ls@[a])@ == lines_of(cs@)[a],
    ensures
        opt_text(r) == context_after(cs@, cs@.subrange(0, i as int), ctx as nat),
{
    if ctx == 0 {
        return None;
    }
    let (n, _) = line_info_at(cs, i);
    proof {
        lemma_lines_bytes(cs@.subrange(0, i as int));
    }
    let last = if ls.len() > 0 {
        ls.len() - 1
    } else {
        0
    };
    let end = if n + ctx <= last {
        n + ctx
    } else {
        last
    };
    if n >= ls.len() || n > end {
        return None;
    }
    proof {
        assert(ls@.map_values(|l: Vec<char>| l@) =~= lines_of(cs@));
    }
    Some(join_range(ls, n, end))
}

/// The char indices at which `p` occurs in `s`, among the first `k`
/// positions, in increasing order.
pub open spec fn occurrences(s: Seq<char>, p: Seq<char>, k: int) -> Seq<int>
    decreases k,
{
    if k <= 0 {
        Seq::empty()
    } else {
        let rest = occurrences(s, p, k - 1);
        if occurs_at(s, p, k - 1) {
            rest.push(k - 1)
        } else {
            rest
        }
    }
}

/// A match of the search term in indexed content.
#[derive(Clone, Debug)]
pub struct SearchMatch {
    /// The text matched
    pub text: String,
    /// Its byte offset in the content
    pub position: usize,
    pub line_number: usize,
    /// Its column in bytes, from one
    pub column_number: usize,
    pub context_before: Option<String>,
    pub context_after: Option<String>,
}

/// A match describes the occurrence at char index `i`.
pub open spec fn describes_match(
    content: Seq<char>,
    term: Seq<char>,
    include_context: bool,
    ctx: nat,
    i: int,
    m: SearchMatch,
) -> bool {
    let before = content.subrange(0, i);
    &&& m.text@ == term
    &&& m.position == text_bytes(before)
    &&& m.line_number == line_info(before).0
    &&& m.column_number == line_info(before).1
    &&& opt_text(m.context_before) == if include_context {
        context_before(content, before, ctx)
    } else {
        None
    }
    &&& opt_text(m.context_after) == if include_context {
        context_after(content, content.subrange(0, i + term.len()), ctx)
    } else {
        None
    }
}

/// The matches of a term in some content: one per occurrence, in order.
pub open spec fn text_matches_of(
    content: Seq<char>,
    term: Seq<char>,
    include_context: bool,
    ctx: nat,
    r: Seq<SearchMatch>,
) -> bool {
    let occ = occurrences(content, term, content.len() as int);
    &&& r.len() == occ.len()
    &&& forall|j: int|
        0 <= j < r.len() ==> describes_match(content, term, include_context, ctx, occ[j], #[trigger] r[j])
}

/// Every occurrence of `term` in `content`, with its byte offset, line and
/// column, and (when asked) the lines around it.
pub fn text_matches(content: &str, term: &str, include_context: bool, context_lines: usize) -> (r: Vec<SearchMatch>)
    requires
        text_bytes(content@) < usize::MAX,
        context_lines + content@.len() < usize::MAX,
    ensures
        text_matches_of(content@, term@, include_context, context_lines as nat, r@),
{
    let cs = chars_of(content);
    let ts = chars_of(term);
    let ls = split_lines(&cs, cs.len());
    proof {
        assert(cs@.subrange(0, cs@.len() as int) =~= cs@);
    }
    let ghost occ_all = occurrences(cs@, ts@, cs@.len() as int);
    let mut r: Vec<SearchMatch> = Vec::new();
    let mut i: usize = 0;
    let mut bytes: usize = 0;
    while i < cs.len()
        invariant
            0 <= i <= cs@.len(),
            cs@ == content@,
            ts@ == term@,
            text_bytes(cs@) < usize::MAX,
            context_lines + cs@.len() < usize::MAX,
            bytes == text_bytes(cs@.subrange(0, i as int)),
            ls@.len() == lines_of(cs@).len(),
            forall|a: int| 0 <= a < ls@.len() ==> (#[trigger] ls@[a])@ == lines_of(cs@)[a],
            r@.len() == occurrences(cs@, ts@, i as int).len(),
            forall|j: int|
                0 <= j < r@.len() ==> describes_match(
                    cs@,
                    ts@,
                    include_context,
                    context_lines as nat,
                    occurrences(cs@, ts@, i as int)[j],
                    #[trigger] r@[j],
                ),
        decreases cs.len() - i,
    {
        let ghost old_r = r@;
        if chars_occur_at(cs.as_slice(), ts.as_slice(), i) {
            let (line, col) = line_info_at(&cs, i);
            let before = if include_context {
                context_before_at(&cs, &ls, i, context_lines)
            } else {
                None
            };
            let after = if include_context {
                context_after_at(&cs, &ls, i + ts.len(), context_lines)
            } else {
                None
            };
            let m = SearchMatch {
                text: term.to_string(),
                position: bytes,
                line_number: line,
                column_number: col,
                context_before: before,
                context_after: after,
            };
            r.push(m);
            proof {
                assert forall|j: int| 0 <= j < r@.len() implies describes_match(
                    cs@,
                    ts@,
                    include_context,
                    context_lines as nat,
                    occurrences(cs@, ts@, i + 1)[j],
                    #[trigger] r@[j],
                ) by {
                    if j < old_r.len() {
                        assert(r@[j] == old_r[j]);
                    }
                }
            }
        }
        proof {
            lemma_bytes_step(cs@, i as int);
            lemma_bytes_prefix(cs@, i + 1);
        }
        bytes = bytes + char_len(cs[i]);
        i = i + 1;
    }
    r
}

proof fn lemma_bytes_bound(s: Seq<char>)
    ensures
        s.len() <= text_bytes(s) <= 4 * s.len(),
    decreases s.len(),
{
    if s.len() > 0 {
        lemma_bytes_bound(s.drop_last());
    }
}

/// The UTF-8 length of a text, if it is below `usize::MAX`.
fn text_len_below_max(s: &Vec<char>) -> (r: Option<usize>)
    ensures
        match r {
            Some(n) => n == text_bytes(s@) && text_bytes(s@) < usize::MAX,
            None => text_bytes(s@) >= usize::MAX,
        },
{
    let mut n: u128 = 0;
    let mut i: usize = 0;
    while i < s.len()
        invariant
            0 <= i <= s@.len(),
            n == text_bytes(s@.subrange(0, i as int)),
            n <= 4 * i,
        decreases s.len() - i,
    {
        proof {
            lemma_bytes_step(s@, i as int);
        }
        n = n + char_len(s[i]) as u128;
        i = i + 1;
    }
    proof {
        assert(s@.subrange(0, s@.len() as int) =~= s@);
    }
    if n < usize::MAX as u128 {
        Some(n as usize)
    } else {
        None
    }
}

/// The text a query searches: the content, lowercased unless the query
/// respects case.
pub open spec fn searched_text(content: Seq<char>, q: SearchQuery) -> Seq<char> {
    if q.case_sensitive {
        content
    } else {
        lowercase_of(content)
    }
}

/// The term a query searches for, lowercased unless it respects case.
pub open spec fn searched_term(q: SearchQuery) -> Seq<char> {
    if q.case_sensitive {
        q.query@
    } else {
        lowercase_of(q.query@)
    }
}

/// Whether a plain-text search of `t` in `c` cannot be made: the term is
/// empty, or it starts with a multi-byte character and occurs (stepping
/// past a match by one byte would split that character), or the byte
/// offsets or context line numbers would not fit in `usize`.
pub open spec fn search_refused(c: Seq<char>, t: Seq<char>, include_context: bool, ctx: nat) -> bool {
    ||| t.len() == 0
    ||| ((t[0] as u32) >= 0x80 && contains_seq(c, t))
    ||| text_bytes(c) >= usize::MAX
    ||| (include_context && ctx + c.len() >= usize::MAX)
}

/// The plain-text matches of a query in some content (the path of a
/// search that does not use a regular expression): `None` when the search
/// cannot be made (see `search_refused`).
pub fn find_text_matches(content: &str, query: &SearchQuery) -> (r: Option<Vec<SearchMatch>>)
    ensures
        match r {
            Some(ms) => !search_refused(
                searched_text(content@, *query),
                searched_term(*query),
                query.include_context,
                query.context_lines as nat,
            ) && text_matches_of(
                searched_text(content@, *query),
                searched_term(*query),
                query.include_context,
                query.context_lines as nat,
                ms@,
            ),
            None => search_refused(
                searched_text(content@, *query),
                searched_term(*query),
                query.include_context,
                query.context_lines as nat,
            ),
        },
{
    let (c, t) = if query.case_sensitive {
        (content.to_string(), query.query.clone())
    } else {
        (to_lowercase(content), to_lowercase(query.query.as_str()))
    };
    let cs = chars_of(c.as_str());
    let ts = chars_of(t.as_str());
    if ts.len() == 0 {
        return None;
    }
    if (ts[0] as u32) >= 0x80 && crate::text::chars_contains(cs.as_slice(), ts.as_slice()) {
        return None;
    }
    if text_len_below_max(&cs).is_none() {
        return None;
    }
    if query.include_context && (query.context_lines >= usize::MAX - cs.len()) {
        return None;
    }
    let ctx = if query.include_context {
        query.context_lines
    } else {
        0
    };
    proof {
        lemma_bytes_bound(cs@);
    }
    let ms = text_matches(c.as_str(), t.as_str(), query.include_context, ctx);
    proof {
        assert(query.include_context ==> ctx == query.context_lines);
        if !query.include_context {
            assert forall|j: int| 0 <= j < ms@.len() implies describes_match(
                c@,
                t@,
                query.include_context,
                query.context_lines as nat,
                occurrences(c@, t@, c@.len() as int)[j],
                #[trigger] ms@[j],
            ) by {
                assert(describes_match(c@, t@, query.include_context, ctx as nat, occurrences(c@, t@, c@.len() as int)[j], ms@[j]));
            }
        }
    }
    Some(ms)
}

/// The byte spans (start, end) of the successive matches of a regular
/// expression in a text, `None` when the pattern does not compile.
pub uninterp spec fn regex_find_spans(pattern: Seq<char>, text: Seq<char>) -> Option<Seq<(usize, usize)>>;

/// Compiles `pattern` with `regex::Regex::new` and lists the byte spans of
/// `Regex::find_iter` over `text`.  The contract names the result only:
/// which spans come out is a function of the two strings.
#[verifier::external_body]
fn regex_find_all(pattern: &str, text: &str) -> (r: Option<Vec<(usize, usize)>>)
    ensures
        match r {
            Some(v) => regex_find_spans(pattern@, text@) == Some(v@),
            None => regex_find_spans(pattern@, text@) is None,
        },
{
    regex::Regex::new(pattern).ok().map(|re| re.find_iter(text).map(|m| (m.start(), m.end())).collect())
}

/// A byte offset of a text falls after a whole number of its characters:
/// the first `i`.
pub open spec fn at_char(content: Seq<char>, b: int, i: int) -> bool {
    0 <= i <= content.len() && text_bytes(content.subrange(0, i)) == b
}

/// A match describes the span of bytes `span`, which starts after `i` and
/// ends after `j` characters.
pub open spec fn describes_span(
    content: Seq<char>,
    include_context: bool,
    ctx: nat,
    i: int,
    j: int,
    m: SearchMatch,
) -> bool {
    let before = content.subrange(0, i);
    &&& m.text@ == content.subrange(i, j)
    &&& m.position == text_bytes(before)
    &&& m.line_number == line_info(before).0
    &&& m.column_number == line_info(before).1
    &&& opt_text(m.context_before) == if include_context {
        context_before(content, before, ctx)
    } else {
        None
    }
    &&& opt_text(m.context_after) == if include_context {
        context_after(content, content.subrange(0, j), ctx)
    } else {
        None
    }
}

/// A span starts and ends between characters, its start before its end.
pub open spec fn span_ok(content: Seq<char>, span: (usize, usize)) -> bool {
    exists|i: int, j: int| i <= j && at_char(content, span.0 as int, i) && at_char(content, span.1 as int, j)
}

/// Every span starts and ends between characters, its start before its
/// end.
pub open spec fn spans_valid(content: Seq<char>, spans: Seq<(usize, usize)>) -> bool {
    forall|k: int| 0 <= k < spans.len() ==> span_ok(content, #[trigger] spans[k])
}

/// A match describes a span.
pub open spec fn matches_span(
    content: Seq<char>,
    span: (usize, usize),
    include_context: bool,
    ctx: nat,
    m: SearchMatch,
) -> bool {
    exists|i: int, j: int|
        i <= j && at_char(content, span.0 as int, i) && at_char(content, span.1 as int, j)
            && describes_span(content, include_context, ctx, i, j, m)
}

/// The matches of some spans: one per span, in order.
pub open spec fn span_matches_of(
    content: Seq<char>,
    spans: Seq<(usize, usize)>,
    include_context: bool,
    ctx: nat,
    r: Seq<SearchMatch>,
) -> bool {
    &&& r.len() == spans.len()
    &&& forall|k: int|
        0 <= k < r.len() ==> matches_span(content, spans[k], include_context, ctx, #[trigger] r[k])
}

proof fn lemma_bytes_strict(s: Seq<char>, a: int, b: int)
    requires
        0 <= a < b <= s.len(),
    ensures
        text_bytes(s.subrange(0, a)) < text_bytes(s.subrange(0, b)),
    decreases b - a,
{
    lemma_bytes_step(s, b - 1);
    if a < b - 1 {
        lemma_bytes_strict(s, a, b - 1);
    }
}

/// The number of characters after which a byte offset falls, if it falls
/// between characters.
fn char_index_of_byte(cs: &Vec<char>, b: usize) -> (r: Option<usize>)
    requires
        text_bytes(cs@) < usize::MAX,
    ensures
        match r {
            Some(i) => at_char(cs@, b as int, i as int),
            None => forall|i: int| !at_char(cs@, b as int, i),
        },
{
    let mut n: usize = 0;
    let mut i: usize = 0;
    while i < cs.len() && n < b
        invariant
            0 <= i <= cs@.len(),
            text_bytes(cs@) < usize::MAX,
            n == text_bytes(cs@.subrange(0, i as int)),
            forall|k: int| 0 <= k < i ==> text_bytes(#[trigger] cs@.subrange(0, k)) < b,
        decreases cs.len() - i,
    {
        proof {
            lemma_bytes_step(cs@, i as int);
            lemma_bytes_prefix(cs@, i + 1);
            assert forall|k: int| 0 <= k < i + 1 implies text_bytes(#[trigger] cs@.subrange(0, k)) < b by {
                if k == i {
                    assert(n < b);
                }
            }
        }
        n = n + char_len(cs[i]);
        i = i + 1;
    }
    if n == b {
        Some(i)
    } else {
        proof {
            assert forall|k: int| !at_char(cs@, b as int, k) by {
                if 0 <= k <= cs@.len() && k > i {
                    lemma_bytes_strict(cs@, i as int, k);
                }
            }
        }
        None
    }
}

/// The matches of the spans of bytes that a regular expression found in
/// some content: each with the text it spans, its byte offset, line and
/// column, and (when asked) the lines around it.  `None` when a span does
/// not fall between characters or ends before it starts.
pub fn span_matches(
    content: &str,
    spans: &Vec<(usize, usize)>,
    include_context: bool,
    context_lines: usize,
) -> (r: Option<Vec<SearchMatch>>)
    requires
        text_bytes(content@) < usize::MAX,
        context_lines + content@.len() < usize::MAX,
    ensures
        match r {
            Some(ms) => spans_valid(content@, spans@) && span_matches_of(
                content@,
                spans@,
                include_context,
                context_lines as nat,
                ms@,
            ),
            None => !spans_valid(content@, spans@),
        },
{
    let cs = chars_of(content);
    let ls = split_lines(&cs, cs.len());
    proof {
        assert(cs@.subrange(0, cs@.len() as int) =~= cs@);
    }
    let mut r: Vec<SearchMatch> = Vec::new();
    let ghost mut idx: Seq<(int, int)> = Seq::empty();
    let mut k: usize = 0;
    while k < spans.len()
        invariant
            0 <= k <= spans@.len(),
            cs@ == content@,
            text_bytes(cs@) < usize::MAX,
            context_lines + cs@.len() < usize::MAX,
            ls@.len() == lines_of(cs@).len(),
            forall|a: int| 0 <= a < ls@.len() ==> (#[trigger] ls@[a])@ == lines_of(cs@)[a],
            r@.len() == k,
            idx.len() == k,
            forall|q: int|
                0 <= q < k ==> {
                    let (a, b) = #[trigger] idx[q];
                    &&& a <= b
                    &&& at_char(cs@, spans@[q].0 as int, a)
                    &&& at_char(cs@, spans@[q].1 as int, b)
                    &&& describes_span(cs@, include_context, context_lines as nat, a, b, r@[q])
                },
        decreases spans.len() - k,
    {
        let (start, end) = spans[k];
        let i = match char_index_of_byte(&cs, start) {
            Some(i) => i,
            None => {
                proof {
                    let sp = spans@[k as int];
                    assert(sp.0 == start);
                }
                return None;
            },
        };
        let j = match char_index_of_byte(&cs, end) {
            Some(j) => j,
            None => {
                proof {
                    let sp = spans@[k as int];
                    assert(sp.1 == end);
                }
                return None;
            },
        };
        if j < i {
            proof {
                let sp = spans@[k as int];
                assert(sp.0 == start && sp.1 == end);
                assert forall|a: int, b: int|
                    a <= b && at_char(cs@, start as int, a) implies !at_char(cs@, end as int, b) by {
                    if a != i as int {
                        if a < i {
                            lemma_bytes_strict(cs@, a, i as int);
                        } else {
                            lemma_bytes_strict(cs@, i as int, a);
                        }
                    }
                    if at_char(cs@, end as int, b) && b != j as int {
                        if b < j {
                            lemma_bytes_strict(cs@, b, j as int);
                        } else {
                            lemma_bytes_strict(cs@, j as int, b);
                        }
                    }
                }
            }
            return None;
        }
        let (line, col) = line_info_at(&cs, i);
        let before = if include_context {
            context_before_at(&cs, &ls, i, context_lines)
        } else {
            None
        };
        let after = if include_context {
            context_after_at(&cs, &ls, j, context_lines)
        } else {
            None
        };
        let text = crate::text::string_from_chars(&cs.as_slice()[i..j]);
        let m = SearchMatch {
            text,
            position: start,
            line_number: line,
            column_number: col,
            context_before: before,
            context_after: after,
        };
        let ghost old_r = r@;
        let ghost old_idx = idx;
        r.push(m);
        proof {
            idx = idx.push((i as int, j as int));
            assert forall|q: int|
                0 <= q < k + 1 implies {
                    let (a, b) = #[trigger] idx[q];
                    &&& a <= b
                    &&& at_char(cs@, spans@[q].0 as int, a)
                    &&& at_char(cs@, spans@[q].1 as int, b)
                    &&& describes_span(cs@, include_context, context_lines as nat, a, b, r@[q])
                } by {
                if q < k {
                    assert(r@[q] == old_r[q]);
                    assert(idx[q] == old_idx[q]);
                }
            }
        }
        k = k + 1;
    }
    proof {
        assert forall|q: int| 0 <= q < spans@.len() implies span_ok(content@, #[trigger] spans@[q]) by {
            let (a, b) = idx[q];
            assert(at_char(content@, spans@[q].0 as int, a));
            assert(at_char(content@, spans@[q].1 as int, b));
        }
        assert forall|q: int| 0 <= q < r@.len() implies matches_span(
            content@,
            spans@[q],
            include_context,
            context_lines as nat,
            #[trigger] r@[q],
        ) by {
            let (a, b) = idx[q];
            assert(at_char(content@, spans@[q].0 as int, a));
            assert(at_char(content@, spans@[q].1 as int, b));
            assert(describes_span(content@, include_context, context_lines as nat, a, b, r@[q]));
        }
        assert(spans_valid(content@, spans@));
        assert(span_matches_of(content@, spans@, include_context, context_lines as nat, r@));
    }
    Some(r)
}

/// The matches of a query's regular expression in some content (the
/// content lowercased unless the query respects case; the pattern as
/// given): `None` when the pattern does not compile, or when the byte
/// offsets or context line numbers would not fit in `usize`.
pub fn find_regex_matches(content: &str, query: &SearchQuery) -> (r: Option<Vec<SearchMatch>>)
    ensures
        match regex_find_spans(query.query@, searched_text(content@, *query)) {
            None => r is None,
            Some(spans) => {
                let c = searched_text(content@, *query);
                let ctx: nat = if query.include_context {
                    query.context_lines as nat
                } else {
                    0
                };
                if text_bytes(c) >= usize::MAX || ctx + c.len() >= usize::MAX {
                    r is None
                } else {
                    match r {
                        Some(ms) => spans_valid(c, spans) && span_matches_of(
                            c,
                            spans,
                            query.include_context,
                            query.context_lines as nat,
                            ms@,
                        ),
                        None => !spans_valid(c, spans),
                    }
                }
            },
        },
{
    let c = if query.case_sensitive {
        content.to_string()
    } else {
        to_lowercase(content)
    };
    let spans = match regex_find_all(query.query.as_str(), c.as_str()) {
        Some(v) => v,
        None => return None,
    };
    let cs = chars_of(c.as_str());
    if text_len_below_max(&cs).is_none() {
        return None;
    }
    let ctx = if query.include_context {
        query.context_lines
    } else {
        0
    };
    if ctx >= usize::MAX - cs.len() {
        return None;
    }
    let r = span_matches(c.as_str(), &spans, query.include_context, ctx);
    proof {
        if !query.include_context && r is Some {
            let ms = r->Some_0;
            assert forall|k: int| 0 <= k < ms@.len() implies matches_span(
                c@,
                spans@[k],
                query.include_context,
                query.context_lines as nat,
                #[trigger] ms@[k],
            ) by {
                assert(matches_span(c@, spans@[k], query.include_context, ctx as nat, ms@[k]));
                let (i, j) = choose|i: int, j: int|
                    i <= j && at_char(c@, spans@[k].0 as int, i) && at_char(c@, spans@[k].1 as int, j)
                        && describes_span(c@, query.include_context, ctx as nat, i, j, ms@[k]);
                assert(describes_span(c@, query.include_context, query.context_lines as nat, i, j, ms@[k]));
            }
        }
    }
    r
}

/// The matches of a query in some content: by its regular expression when
/// the query uses one, else by plain text.
pub fn find_matches(content: &str, query: &SearchQuery) -> (r: Option<Vec<SearchMatch>>)
    ensures
        query.use_regex ==> match regex_find_spans(query.query@, searched_text(content@, *query)) {
            None => r is None,
            Some(spans) => {
                let c = searched_text(content@, *query);
                let ctx: nat = if query.include_context {
                    query.context_lines as nat
                } else {
                    0
                };
                if text_bytes(c) >= usize::MAX || ctx + c.len() >= usize::MAX {
                    r is None
                } else {
                    match r {
                        Some(ms) => spans_valid(c, spans) && span_matches_of(
                            c,
                            spans,
                            query.include_context,
                            query.context_lines as nat,
                            ms@,
                        ),
                        None => !spans_valid(c, spans),
                    }
                }
            },
        },
        !query.use_regex ==> match r {
            Some(ms) => !search_refused(
                searched_text(content@, *query),
                searched_term(*query),
                query.include_context,
                query.context_lines as nat,
            ) && text_matches_of(
                searched_text(content@, *query),
                searched_term(*query),
                query.include_context,
                query.context_lines as nat,
                ms@,
            ),
            None => search_refused(
                searched_text(content@, *query),
                searched_term(*query),
                query.include_context,
                query.context_lines as nat,
            ),
        },
{
    if query.use_regex {
        find_regex_matches(content, query)
    } else {
        find_text_matches(content, query)
    }
}

/// What the exclude patterns decide of a path, in order: the first that
/// does not compile is an error (`Err` with the pattern), the first that
/// matches excludes the path; `None` when none decides.
pub open spec fn exclude_verdict(path: Seq<char>, ex: Seq<String>) -> Option<Result<bool, Seq<char>>>
    decreases ex.len(),
{
    if ex.len() == 0 {
        None
    } else {
        match regex_match_result(ex[0]@, path) {
            None => Some(Err(ex[0]@)),
            Some(true) => Some(Ok(false)),
            Some(false) => exclude_verdict(path, ex.drop_first()),
        }
    }
}

/// What the include patterns decide of a path, in order: the first that
/// does not compile is an error, the first that matches includes it; no
/// match excludes it.
pub open spec fn include_verdict(path: Seq<char>, inc: Seq<String>) -> Result<bool, Seq<char>>
    decreases inc.len(),
{
    if inc.len() == 0 {
        Ok(false)
    } else {
        match regex_match_result(inc[0]@, path) {
            None => Err(inc[0]@),
            Some(true) => Ok(true),
            Some(false) => include_verdict(path, inc.drop_first()),
        }
    }
}

/// Whether a file is searched: exclude patterns first, then, if there are
/// include patterns, one of them must match.
pub open spec fn file_pattern_verdict(path: Seq<char>, inc: Seq<String>, ex: Seq<String>) -> Result<bool, Seq<char>> {
    match exclude_verdict(path, ex) {
        Some(v) => v,
        None => if inc.len() == 0 {
            Ok(true)
        } else {
            include_verdict(path, inc)
        },
    }
}

/// Whether a file path passes a query's include and exclude patterns
/// (regular expressions); `Err` carries a pattern that does not compile.
pub fn matches_file_patterns(
    file_path: &str,
    include_patterns: &Vec<String>,
    exclude_patterns: &Vec<String>,
) -> (r: Result<bool, String>)
    ensures
        match r {
            Ok(b) => file_pattern_verdict(file_path@, include_patterns@, exclude_patterns@) == Ok::<bool, Seq<char>>(b),
            Err(p) => file_pattern_verdict(file_path@, include_patterns@, exclude_patterns@) == Err::<bool, Seq<char>>(p@),
        },
{
    let mut i: usize = 0;
    proof {
        assert(exclude_patterns@.subrange(0, exclude_patterns@.len() as int) =~= exclude_patterns@);
    }
    while i < exclude_patterns.len()
        invariant
            0 <= i <= exclude_patterns@.len(),
            exclude_verdict(file_path@, exclude_patterns@) == exclude_verdict(
                file_path@,
                exclude_patterns@.subrange(i as int, exclude_patterns@.len() as int),
            ),
        decreases exclude_patterns.len() - i,
    {
        let ghost rest = exclude_patterns@.subrange(i as int, exclude_patterns@.len() as int);
        proof {
            assert(rest[0] == exclude_patterns@[i as int]);
            assert(rest.drop_first() =~= exclude_patterns@.subrange(i + 1, exclude_patterns@.len() as int));
        }
        match regex_is_match(exclude_patterns[i].as_str(), file_path) {
            None => return Err(exclude_patterns[i].clone()),
            Some(true) => return Ok(false),
            Some(false) => {},
        }
        i = i + 1;
    }
    proof {
        assert(exclude_patterns@.subrange(i as int, exclude_patterns@.len() as int).len() == 0);
    }
    if include_patterns.len() == 0 {
        return Ok(true);
    }
    let mut j: usize = 0;
    proof {
        assert(include_patterns@.subrange(0, include_patterns@.len() as int) =~= include_patterns@);
    }
    while j < include_patterns.len()
        invariant
            0 <= j <= include_patterns@.len(),
            include_patterns@.len() > 0,
            exclude_verdict(file_path@, exclude_patterns@) is None,
            include_verdict(file_path@, include_patterns@) == include_verdict(
                file_path@,
                include_patterns@.subrange(j as int, include_patterns@.len() as int),
            ),
        decreases include_patterns.len() - j,
    {
        let ghost rest = include_patterns@.subrange(j as int, include_patterns@.len() as int);
        proof {
            assert(rest[0] == include_patterns@[j as int]);
            assert(rest.drop_first() =~= include_patterns@.subrange(j + 1, include_patterns@.len() as int));
        }
        match regex_is_match(include_patterns[j].as_str(), file_path) {
            None => return Err(include_patterns[j].clone()),
            Some(true) => return Ok(true),
            Some(false) => {},
        }
        j = j + 1;
    }
    Ok(false)
}

} // verus!
