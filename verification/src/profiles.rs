//! Configuration profiles, kept as YAML files in a profiles directory:
//! where a profile's file lies, which directory entries are profiles and in
//! what order they are listed, and how a configuration directory under `~`
//! expands.  Reading and writing the files is the caller's part.

use crate::environment::{join, join_path};
use crate::text::{chars_of, push_str};
use vstd::prelude::*;
use vstd::seq_lib::to_multiset_insert;

verus! {

/// The file name of a profile: its name with the extension `.yaml`.
pub open spec fn profile_file_name(name: Seq<char>) -> Seq<char> {
    name + ".yaml"@
}

/// The profile name of a file name: the stem of a name whose extension is
/// `yaml` (as `Path::file_stem` and `Path::extension` split a plain file
/// name: the stem must not be empty).
pub open spec fn profile_stem(file_name: Seq<char>) -> Option<Seq<char>> {
    if file_name.len() > 5 && file_name.subrange(file_name.len() - 5, file_name.len() as int)
        == ".yaml"@ {
        Some(file_name.subrange(0, file_name.len() - 5))
    } else {
        None
    }
}

/// The profile names among directory entries (file name, whether it is a
/// regular file), in the order of the entries.
pub open spec fn profile_stems(entries: Seq<(String, bool)>) -> Seq<Seq<char>>
    decreases entries.len(),
{
    if entries.len() == 0 {
        Seq::empty()
    } else {
        let rest = profile_stems(entries.drop_last());
        let (name, is_file) = entries.last();
        match profile_stem(name@) {
            Some(stem) => if is_file {
                rest.push(stem)
            } else {
                rest
            },
            None => rest,
        }
    }
}

/// Lexicographic order of character sequences by code point, the order of
/// `String`.
pub open spec fn text_le(a: Seq<char>, b: Seq<char>) -> bool
    decreases a.len(),
{
    if a.len() == 0 {
        true
    } else if b.len() == 0 {
        false
    } else if a[0] < b[0] {
        true
    } else if a[0] > b[0] {
        false
    } else {
        text_le(a.drop_first(), b.drop_first())
    }
}

/// Whether a sequence of texts is in ascending order.
pub open spec fn sorted_texts(s: Seq<Seq<char>>) -> bool {
    forall|i: int, j: int| 0 <= i < j < s.len() ==> text_le(#[trigger] s[i], #[trigger] s[j])
}

/// Any two texts are ordered one way or the other.
pub proof fn lemma_text_le_total(a: Seq<char>, b: Seq<char>)
    ensures
        text_le(a, b) || text_le(b, a),
    decreases a.len(),
{
    if a.len() > 0 && b.len() > 0 && a[0] == b[0] {
        lemma_text_le_total(a.drop_first(), b.drop_first());
    }
}

/// The order is transitive.
pub proof fn lemma_text_le_transitive(a: Seq<char>, b: Seq<char>, c: Seq<char>)
    requires
        text_le(a, b),
        text_le(b, c),
    ensures
        text_le(a, c),
    decreases a.len(),
{
    if a.len() > 0 && b.len() > 0 && c.len() > 0 && a[0] == b[0] && b[0] == c[0] {
        lemma_text_le_transitive(a.drop_first(), b.drop_first(), c.drop_first());
    }
}

/// Compares two character sequences in the order of `text_le`.
fn chars_le(a: &Vec<char>, b: &Vec<char>) -> (r: bool)
    ensures
        r == text_le(a@, b@),
{
    let mut i: usize = 0;
    proof {
        assert(a@.subrange(0, a@.len() as int) =~= a@);
        assert(b@.subrange(0, b@.len() as int) =~= b@);
    }
    while i < a.len() && i < b.len()
        invariant
            0 <= i <= a@.len(),
            i <= b@.len(),
            a@.subrange(0, i as int) == b@.subrange(0, i as int),
            text_le(a@, b@) == text_le(a@.subrange(i as int, a@.len() as int), b@.subrange(i as int, b@.len() as int)),
        decreases a.len() - i,
    {
        let x = a[i];
        let y = b[i];
        let ghost sa = a@.subrange(i as int, a@.len() as int);
        let ghost sb = b@.subrange(i as int, b@.len() as int);
        if x < y {
            return true;
        }
        if x > y {
            return false;
        }
        proof {
            assert(sa[0] == x && sb[0] == y);
            assert(sa.drop_first() =~= a@.subrange(i + 1, a@.len() as int));
            assert(sb.drop_first() =~= b@.subrange(i + 1, b@.len() as int));
            assert(x == y);
            assert(a@.subrange(0, i + 1) =~= a@.subrange(0, i as int).push(x));
            assert(b@.subrange(0, i + 1) =~= b@.subrange(0, i as int).push(y));
        }
        i = i + 1;
    }
    i == a.len()
}

fn text_le_exec(a: &String, b: &String) -> (r: bool)
    ensures
        r == text_le(a@, b@),
{
    let ca = chars_of(a.as_str());
    let cb = chars_of(b.as_str());
    chars_le(&ca, &cb)
}

/// The profile name of a directory entry's file name, if it is a YAML file.
pub fn profile_stem_of(file_name: &str) -> (r: Option<String>)
    ensures
        match profile_stem(file_name@) {
            Some(s) => r matches Some(t) && t@ == s,
            None => r is None,
        },
{
    proof {
        reveal_strlit(".yaml");
    }
    let n = file_name.unicode_len();
    if n <= 5 {
        return None;
    }
    let tail = file_name.substring_char(n - 5, n);
    if !crate::text::str_eq(tail, ".yaml") {
        return None;
    }
    let stem = file_name.substring_char(0, n - 5);
    Some(stem.to_string())
}

/// Keeps the profiles directory.
pub struct ProfileManager {
    profiles_directory: String,
}

impl ProfileManager {
    /// A manager over a profiles directory (the caller creates it).
    pub fn new(profiles_directory: String) -> (r: Self)
        ensures
            r.directory() == profiles_directory@,
    {
        ProfileManager { profiles_directory }
    }

    /// The profiles directory.
    pub closed spec fn directory(&self) -> Seq<char> {
        self.profiles_directory@
    }

    /// The profiles directory.
    pub fn profiles_directory(&self) -> (r: &str)
        ensures
            r@ == self.directory(),
    {
        self.profiles_directory.as_str()
    }

    /// Where the profile of a name is kept: `<name>.yaml` in the profiles
    /// directory.
    pub fn profile_path(&self, name: &str) -> (r: String)
        ensures
            r@ == join_path(self.directory(), profile_file_name(name@)),
    {
        let mut file = String::new();
        push_str(&mut file, name);
        push_str(&mut file, ".yaml");
        proof {
            reveal_strlit(".yaml");
        }
        join(self.profiles_directory.as_str(), file.as_str())
    }

    /// The names of the profiles among the entries of the profiles
    /// directory (file name, whether it is a regular file), sorted.
    pub fn select_profiles(&self, entries: &Vec<(String, bool)>) -> (r: Vec<String>)
        ensures
            r@.map_values(|s: String| s@).to_multiset() == profile_stems(entries@).to_multiset(),
            sorted_texts(r@.map_values(|s: String| s@)),
    {
        let mut result: Vec<String> = Vec::new();
        let mut i: usize = 0;
        proof {
            assert(entries@.subrange(0, 0) =~= Seq::<(String, bool)>::empty());
            assert(result@.map_values(|s: String| s@) =~= Seq::<Seq<char>>::empty());
            assert(profile_stems(Seq::<(String, bool)>::empty()) =~= Seq::<Seq<char>>::empty());
        }
        while i < entries.len()
            invariant
                0 <= i <= entries@.len(),
                result@.map_values(|s: String| s@).to_multiset() == profile_stems(
                    entries@.subrange(0, i as int),
                ).to_multiset(),
                sorted_texts(result@.map_values(|s: String| s@)),
            decreases entries.len() - i,
        {
            proof {
                assert(entries@.subrange(0, i + 1).drop_last() =~= entries@.subrange(0, i as int));
            }
            let ghost old_views = result@.map_values(|s: String| s@);
            let ghost prev = profile_stems(entries@.subrange(0, i as int));
            let (name, is_file) = &entries[i];
            proof {
                assert(entries@.subrange(0, i + 1).last() == entries@[i as int]);
            }
            if *is_file {
                if let Some(stem) = profile_stem_of(name.as_str()) {
                    let ghost sv = stem@;
                    insert_sorted(&mut result, stem);
                    proof {
                        assert(profile_stems(entries@.subrange(0, i + 1)) == prev.push(sv));
                        vstd::seq_lib::to_multiset_build(prev, sv);
                    }
                } else {
                    proof {
                        assert(profile_stems(entries@.subrange(0, i + 1)) == prev);
                    }
                }
            } else {
                proof {
                    assert(profile_stems(entries@.subrange(0, i + 1)) == prev);
                }
            }
            i = i + 1;
        }
        proof {
            assert(entries@.subrange(0, entries@.len() as int) =~= entries@);
        }
        result
    }
}

/// Inserts a text into a sorted vector, keeping it sorted.
fn insert_sorted(v: &mut Vec<String>, x: String)
    requires
        sorted_texts(old(v)@.map_values(|s: String| s@)),
    ensures
        final(v)@.map_values(|s: String| s@).to_multiset() == old(v)@.map_values(
            |s: String| s@,
        ).to_multiset().insert(x@),
        sorted_texts(final(v)@.map_values(|s: String| s@)),
{
    let ghost before = v@.map_values(|s: String| s@);
    let mut k: usize = 0;
    while k < v.len()
        invariant
            0 <= k <= v@.len(),
            v@.map_values(|s: String| s@) == before,
            sorted_texts(before),
            forall|j: int| 0 <= j < k ==> text_le(#[trigger] before[j], x@),
        ensures
            0 <= k <= v@.len(),
            v@.map_values(|s: String| s@) == before,
            forall|j: int| 0 <= j < k ==> text_le(#[trigger] before[j], x@),
            k < v@.len() ==> !text_le(before[k as int], x@),
        decreases v.len() - k,
    {
        if !text_le_exec(&v[k], &x) {
            break;
        }
        k = k + 1;
    }
    proof {
        assert forall|j: int| k <= j < before.len() implies text_le(x@, #[trigger] before[j]) by {
            if k < before.len() {
                lemma_text_le_total(before[k as int], x@);
                if j > k {
                    lemma_text_le_transitive(x@, before[k as int], before[j]);
                }
            }
        }
    }
    let ghost xv = x@;
    v.insert(k, x);
    proof {
        let after = v@.map_values(|s: String| s@);
        assert(after =~= before.insert(k as int, xv));
        to_multiset_insert(before, k as int, xv);
        assert forall|a: int, b: int| 0 <= a < b < after.len() implies text_le(
            #[trigger] after[a],
            #[trigger] after[b],
        ) by {
            if b < k {
            } else if a < k && b == k {
            } else if a < k && b > k {
                lemma_text_le_transitive(after[a], xv, after[b]);
            } else if a == k {
            } else {
            }
        }
    }
}

/// A path under `~` with `~` replaced by the home directory, when one is
/// known; any other path unchanged.  (`Path::starts_with("~")` holds when
/// the first component is `~`.)
pub open spec fn expanded_path(path: Seq<char>, home: Option<Seq<char>>) -> Seq<char> {
    if path.len() > 0 && path[0] == '~' && (path.len() == 1 || path[1] == '/') {
        match home {
            Some(h) => h + path.drop_first(),
            None => path,
        }
    } else {
        path
    }
}

/// Expands a leading `~` component of a configuration path to the home
/// directory `home` (the value of `HOME`, when set).
pub fn expand_config_path(path: &str, home: Option<&str>) -> (r: String)
    ensures
        r@ == expanded_path(path@, match home {
            Some(h) => Some(h@),
            None => None,
        }),
{
    let n = path.unicode_len();
    let under_home = n > 0 && path.get_char(0) == '~' && (n == 1 || path.get_char(1) == '/');
    match home {
        Some(h) => {
            if under_home {
                let mut r = String::new();
                push_str(&mut r, h);
                push_str(&mut r, path.substring_char(1, n));
                proof {
                    assert(path@.subrange(1, n as int) =~= path@.drop_first());
                }
                r
            } else {
                path.to_string()
            }
        },
        None => path.to_string(),
    }
}

} // verus!
