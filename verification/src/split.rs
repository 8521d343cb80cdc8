//! Splitting text on separator characters, as the connection-string and
//! duration formats need it.

use vstd::prelude::*;
use vstd::string::*;

verus! {

/// The split of `s` on the characters of `seps`, with `cur` the piece
/// accumulated so far. Splitting keeps empty pieces: a separator at either
/// end, or two in a row, yield empty strings, and the empty input yields
/// one empty piece.
pub open spec fn spec_split_rec(s: Seq<char>, seps: Seq<char>, cur: Seq<char>) -> Seq<Seq<char>>
    decreases s.len(),
{
    if s.len() == 0 {
        seq![cur]
    } else if seps.contains(s[0]) {
        seq![cur] + spec_split_rec(s.drop_first(), seps, Seq::empty())
    } else {
        spec_split_rec(s.drop_first(), seps, cur.push(s[0]))
    }
}

/// The pieces of `s` between occurrences of the characters of `seps`.
pub open spec fn spec_split_on(s: Seq<char>, seps: Seq<char>) -> Seq<Seq<char>> {
    spec_split_rec(s, seps, Seq::empty())
}

/// Whether `c` occurs in `s`.
fn str_contains_char(s: &str, c: char) -> (r: bool)
    ensures
        r == s@.contains(c),
{
    let n = s.unicode_len();
    let mut i: usize = 0;
    while i < n
        invariant
            0 <= i <= n,
            n == s@.len(),
            forall|k: int| 0 <= k < i ==> s@[k] != c,
        decreases n - i,
    {
        if s.get_char(i) == c {
            assert(s@[i as int] == c);
            return true;
        }
        i = i + 1;
    }
    false
}

/// Splits `s` on the characters of `seps`, keeping empty pieces.
pub fn split_on(s: &str, seps: &str) -> (r: Vec<String>)
    ensures
        r@.map_values(|p: String| p@) == spec_split_on(s@, seps@),
{
    let n = s.unicode_len();
    let mut parts: Vec<String> = Vec::new();
    let mut cur: String = String::new();
    let mut i: usize = 0;
    proof {
        assert(s@.subrange(0, n as int) =~= s@);
        assert(parts@.map_values(|p: String| p@) + spec_split_rec(s@, seps@, cur@)
            =~= spec_split_rec(s@, seps@, cur@));
    }
    while i < n
        invariant
            0 <= i <= n,
            n == s@.len(),
            spec_split_on(s@, seps@) == parts@.map_values(|p: String| p@) + spec_split_rec(
                s@.subrange(i as int, n as int),
                seps@,
                cur@,
            ),
        decreases n - i,
    {
        let ghost rest = s@.subrange(i as int, n as int);
        assert(rest[0] == s@[i as int]);
        assert(rest.drop_first() =~= s@.subrange(i as int + 1, n as int));
        let c = s.get_char(i);
        if str_contains_char(seps, c) {
            let ghost old_parts = parts@;
            let ghost old_cur = cur@;
            parts.push(cur);
            cur = String::new();
            proof {
                assert(parts@.map_values(|p: String| p@) =~= old_parts.map_values(
                    |p: String| p@,
                ).push(old_cur));
                assert(old_parts.map_values(|p: String| p@) + (seq![old_cur] + spec_split_rec(
                    rest.drop_first(),
                    seps@,
                    Seq::empty(),
                )) =~= parts@.map_values(|p: String| p@) + spec_split_rec(
                    rest.drop_first(),
                    seps@,
                    Seq::empty(),
                ));
            }
        } else {
            let ghost cur_before = cur@;
            cur.append(s.substring_char(i, i + 1));
            proof {
                assert(s@.subrange(i as int, i as int + 1) =~= seq![s@[i as int]]);
                assert(cur@ =~= cur_before.push(s@[i as int]));
            }
        }
        i = i + 1;
    }
    assert(s@.subrange(n as int, n as int) =~= Seq::<char>::empty());
    let ghost old_parts = parts@;
    let ghost old_cur = cur@;
    parts.push(cur);
    proof {
        assert(parts@.map_values(|p: String| p@) =~= old_parts.map_values(|p: String| p@).push(
            old_cur,
        ));
        assert(old_parts.map_values(|p: String| p@) + seq![old_cur] =~= parts@.map_values(
            |p: String| p@,
        ));
    }
    parts
}

/// The position of the first occurrence of `c` in `p`.
pub open spec fn spec_find_char(p: Seq<char>, c: char) -> Option<int>
    decreases p.len(),
{
    if p.len() == 0 {
        None
    } else if p[0] == c {
        Some(0)
    } else {
        match spec_find_char(p.drop_first(), c) {
            Some(i) => Some(i + 1),
            None => None,
        }
    }
}

proof fn lemma_find_char_at(p: Seq<char>, c: char, i: int)
    requires
        0 <= i < p.len(),
        p[i] == c,
        forall|k: int| 0 <= k < i ==> p[k] != c,
    ensures
        spec_find_char(p, c) == Some(i),
    decreases i,
{
    if i > 0 {
        lemma_find_char_at(p.drop_first(), c, i - 1);
    }
}

proof fn lemma_find_char_none(p: Seq<char>, c: char)
    requires
        forall|k: int| 0 <= k < p.len() ==> p[k] != c,
    ensures
        spec_find_char(p, c) is None,
    decreases p.len(),
{
    if p.len() > 0 {
        lemma_find_char_none(p.drop_first(), c);
    }
}

/// Finds the first occurrence of `c` in `s`.
pub fn find_char(s: &str, c: char) -> (r: Option<usize>)
    ensures
        match r {
            Some(i) => i < s@.len() && s@[i as int] == c && spec_find_char(s@, c) == Some(
                i as int,
            ),
            None => spec_find_char(s@, c) is None,
        },
{
    let n = s.unicode_len();
    let mut i: usize = 0;
    while i < n
        invariant
            0 <= i <= n,
            n == s@.len(),
            forall|k: int| 0 <= k < i ==> s@[k] != c,
        decreases n - i,
    {
        if s.get_char(i) == c {
            proof {
                lemma_find_char_at(s@, c, i as int);
            }
            return Some(i);
        }
        i = i + 1;
    }
    proof {
        lemma_find_char_none(s@, c);
    }
    None
}

} // verus!
