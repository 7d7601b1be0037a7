//! Whitespace trimming and the most-recently-used list of profile paths.

use vstd::prelude::*;

verus! {

/// Unicode `White_Space` characters (the whitespace that `str::trim` removes).
pub open spec fn is_unicode_white_space(c: char) -> bool {
    ||| ('\u{9}' <= c && c <= '\u{d}')
    ||| c == ' '
    ||| c == '\u{85}'
    ||| c == '\u{a0}'
    ||| c == '\u{1680}'
    ||| ('\u{2000}' <= c && c <= '\u{200a}')
    ||| c == '\u{2028}'
    ||| c == '\u{2029}'
    ||| c == '\u{202f}'
    ||| c == '\u{205f}'
    ||| c == '\u{3000}'
}

/// Number of leading whitespace characters.
pub open spec fn leading_white_space(s: Seq<char>) -> nat
    decreases s.len(),
{
    if s.len() == 0 {
        0
    } else if is_unicode_white_space(s[0]) {
        1 + leading_white_space(s.drop_first())
    } else {
        0
    }
}

/// Number of trailing whitespace characters.
pub open spec fn trailing_white_space(s: Seq<char>) -> nat
    decreases s.len(),
{
    if s.len() == 0 {
        0
    } else if is_unicode_white_space(s.last()) {
        1 + trailing_white_space(s.drop_last())
    } else {
        0
    }
}

proof fn lemma_leading_le(s: Seq<char>)
    ensures
        leading_white_space(s) <= s.len(),
    decreases s.len(),
{
    if s.len() > 0 {
        lemma_leading_le(s.drop_first());
    }
}

proof fn lemma_trailing_le(s: Seq<char>)
    ensures
        trailing_white_space(s) <= s.len(),
    decreases s.len(),
{
    if s.len() > 0 {
        lemma_trailing_le(s.drop_last());
    }
}

/// The text without its leading and trailing whitespace.
pub open spec fn trimmed(s: Seq<char>) -> Seq<char> {
    let t = s.skip(leading_white_space(s) as int);
    t.take(t.len() - trailing_white_space(t))
}

/// `str::trim`: the text with leading and trailing Unicode whitespace removed.
#[verifier::external_body]
pub(crate) fn trim_str(s: &str) -> (r: &str)
    ensures
        r@ == trimmed(s@),
{
    s.trim()
}

/// Views of a list of strings.
pub open spec fn string_views(v: Seq<String>) -> Seq<Seq<char>> {
    v.map_values(|s: String| s@)
}

/// The list without the entries equal to `t`, in their order.
pub open spec fn without(v: Seq<Seq<char>>, t: Seq<char>) -> Seq<Seq<char>>
    decreases v.len(),
{
    if v.len() == 0 {
        seq![]
    } else if v.last() == t {
        without(v.drop_last(), t)
    } else {
        without(v.drop_last(), t).push(v.last())
    }
}

/// Most-recently-used list after using `t`: `t` first, then the other
/// entries in their previous order, at most `cap` entries in all.
pub open spec fn mru_insert(v: Seq<Seq<char>>, t: Seq<char>, cap: int) -> Seq<Seq<char>> {
    let full = seq![t] + without(v, t);
    if full.len() <= cap {
        full
    } else {
        full.take(cap)
    }
}

proof fn lemma_without(v: Seq<Seq<char>>, t: Seq<char>)
    ensures
        !without(v, t).contains(t),
        forall|x: Seq<char>| #[trigger] without(v, t).contains(x) ==> v.contains(x),
        v.no_duplicates() ==> without(v, t).no_duplicates(),
    decreases v.len(),
{
    if v.len() > 0 {
        let p = v.drop_last();
        lemma_without(p, t);
        assert forall|x: Seq<char>| #[trigger] without(v, t).contains(x) implies v.contains(x) by {
            if without(p, t).contains(x) {
                let j = choose|j: int| 0 <= j < without(p, t).len() && without(p, t)[j] == x;
                assert(p.contains(x));
                let k = choose|k: int| 0 <= k < p.len() && p[k] == x;
                assert(v[k] == x);
            } else {
                assert(x == v.last());
                assert(v[v.len() - 1] == x);
            }
        }
        if v.last() != t {
            let w = without(p, t);
            assert(w.push(v.last()).last() == v.last());
            assert forall|j: int| 0 <= j < w.len() implies #[trigger] w.push(v.last())[j] == w[j] by {}
            if v.no_duplicates() {
                assert(p.no_duplicates()) by {
                    assert forall|i: int, j: int| 0 <= i < p.len() && 0 <= j < p.len() && i != j implies p[i] != p[j] by {
                        assert(p[i] == v[i] && p[j] == v[j]);
                    }
                }
                assert(!p.contains(v.last())) by {
                    if p.contains(v.last()) {
                        let k = choose|k: int| 0 <= k < p.len() && p[k] == v.last();
                        assert(v[k] == v[v.len() - 1]);
                    }
                }
                assert(!w.contains(v.last()));
                assert forall|i: int, j: int| 0 <= i < w.push(v.last()).len() && 0 <= j < w.push(v.last()).len() && i != j
                    implies w.push(v.last())[i] != w.push(v.last())[j] by {
                    if i < w.len() && j < w.len() {
                    } else if i < w.len() {
                        assert(w.contains(w[i]));
                    } else {
                        assert(w.contains(w[j]));
                    }
                }
            }
            assert forall|j: int| 0 <= j < w.len() + 1 implies #[trigger] w.push(v.last())[j] != t by {
                if j < w.len() {
                    assert(w.contains(w[j]));
                }
            }
        } else if v.no_duplicates() {
            assert(p.no_duplicates()) by {
                assert forall|i: int, j: int| 0 <= i < p.len() && 0 <= j < p.len() && i != j implies p[i] != p[j] by {
                    assert(p[i] == v[i] && p[j] == v[j]);
                }
            }
        }
    }
}

/// Recording a path keeps the recent list short and free of repeats: after
/// any use of a nonempty path the list holds at most five entries, none
/// twice, the path itself first, and every other entry was in the list before.
pub proof fn law_recent_paths_bounded_and_distinct(v: Seq<Seq<char>>, t: Seq<char>)
    requires
        v.no_duplicates(),
    ensures
        ({
            let r = mru_insert(v, t, 5);
            &&& r.len() <= 5
            &&& r.no_duplicates()
            &&& r[0] == t
            &&& forall|j: int| 1 <= j < r.len() ==> v.contains(#[trigger] r[j]) && r[j] != t
        }),
{
    lemma_without(v, t);
    let w = without(v, t);
    let full = seq![t] + w;
    assert forall|j: int| 1 <= j < full.len() implies v.contains(#[trigger] full[j]) && full[j] != t by {
        assert(full[j] == w[j - 1]);
        assert(w.contains(w[j - 1]));
    }
    assert(full.no_duplicates()) by {
        assert forall|i: int, j: int| 0 <= i < full.len() && 0 <= j < full.len() && i != j implies full[i] != full[j] by {
            if i == 0 {
                assert(full[j] == w[j - 1]);
                assert(w.contains(w[j - 1]));
            } else if j == 0 {
                assert(full[i] == w[i - 1]);
                assert(w.contains(w[i - 1]));
            } else {
                assert(full[i] == w[i - 1] && full[j] == w[j - 1]);
            }
        }
    }
    if full.len() > 5 {
        let r = full.take(5);
        assert forall|i: int, j: int| 0 <= i < r.len() && 0 <= j < r.len() && i != j implies r[i] != r[j] by {
            assert(r[i] == full[i] && r[j] == full[j]);
        }
        assert forall|j: int| 1 <= j < r.len() implies v.contains(#[trigger] r[j]) && r[j] != t by {
            assert(r[j] == full[j]);
        }
    }
}

/// Profile paths used most recently, newest first, without repeats.
pub struct RecentProfilePaths {
    pub paths: Vec<String>,
}

impl RecentProfilePaths {
    /// Longest the list gets.
    pub const RECENT_PROFILE_PATHS_MAX: usize = 5;

    pub open spec fn view_paths(&self) -> Seq<Seq<char>> {
        string_views(self.paths@)
    }

    pub fn new() -> (r: Self)
        ensures
            r.view_paths().len() == 0,
    {
        RecentProfilePaths { paths: Vec::new() }
    }

    /// Records that `path` (trimmed) was used: it moves to the front, other
    /// copies of it are dropped and the list is cut to five entries. A path
    /// that is empty after trimming changes nothing.
    pub fn record_recent_profile_path(&mut self, path: &str)
        ensures
            trimmed(path@).len() == 0 ==> final(self).view_paths() == old(self).view_paths(),
            trimmed(path@).len() > 0 ==> final(self).view_paths() == mru_insert(
                old(self).view_paths(),
                trimmed(path@),
                5,
            ),
    {
        let t = trim_str(path);
        if t.is_empty() {
            return;
        }
        let owned: String = t.to_owned();
        let ghost old_v = self.view_paths();
        let mut kept: Vec<String> = Vec::new();
        kept.push(owned.clone());
        let n = self.paths.len();
        let mut i: usize = 0;
        assert(old_v.take(0) =~= Seq::<Seq<char>>::empty());
        assert(string_views(kept@) =~= seq![owned@] + without(old_v.take(0), owned@));
        while i < n
            invariant
                n == self.paths@.len(),
                old_v == string_views(self.paths@),
                i <= n,
                string_views(kept@) == seq![owned@] + without(old_v.take(i as int), owned@),
            decreases n - i,
        {
            let p = &self.paths[i];
            assert(old_v.take(i + 1).drop_last() =~= old_v.take(i as int));
            assert(old_v[i as int] == p@);
            assert(old_v.take(i + 1).last() == p@);
            if !p.eq(&owned) {
                let ghost before = string_views(kept@);
                kept.push(p.clone());
                assert(string_views(kept@) =~= before.push(p@));
                assert(string_views(kept@) =~= seq![owned@] + without(old_v.take(i + 1), owned@));
            } else {
                assert(string_views(kept@) =~= seq![owned@] + without(old_v.take(i + 1), owned@));
            }
            i = i + 1;
        }
        assert(old_v.take(n as int) =~= old_v);
        kept.truncate(Self::RECENT_PROFILE_PATHS_MAX);
        assert(string_views(kept@) =~= mru_insert(old_v, owned@, 5));
        self.paths = kept;
    }
}

} // verus!
