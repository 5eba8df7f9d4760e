//! Verified text utilities: whitespace trimming and lexicographic order.
//!
//! These are the string operations the tag machinery needs, each specified
//! over sequences of characters.

use vstd::prelude::*;
use vstd::string::{StrSliceExecFns, StringExecFns};

verus! {

/// Whether a character has the White_Space property.
pub open spec fn is_space(c: char) -> bool {
    ||| c == ' '
    ||| c == '\t'
    ||| c == '\n'
    ||| c == '\u{b}'
    ||| c == '\u{c}'
    ||| c == '\r'
    ||| c == '\u{85}'
    ||| c == '\u{a0}'
    ||| c == '\u{1680}'
    ||| (c as u32 >= 0x2000 && c as u32 <= 0x200a)
    ||| c == '\u{2028}'
    ||| c == '\u{2029}'
    ||| c == '\u{202f}'
    ||| c == '\u{205f}'
    ||| c == '\u{3000}'
}

/// The executable form of `is_space`.
pub fn is_space_char(c: char) -> (r: bool)
    ensures
        r == is_space(c),
{
    c == ' ' || c == '\t' || c == '\n' || c == '\u{b}' || c == '\u{c}' || c == '\r'
        || c == '\u{85}' || c == '\u{a0}' || c == '\u{1680}'
        || (c as u32 >= 0x2000 && c as u32 <= 0x200a)
        || c == '\u{2028}' || c == '\u{2029}' || c == '\u{202f}' || c == '\u{205f}'
        || c == '\u{3000}'
}

/// A sequence with its leading whitespace removed.
pub open spec fn trim_front(s: Seq<char>) -> Seq<char>
    decreases s.len(),
{
    if s.len() > 0 && is_space(s[0]) {
        trim_front(s.skip(1))
    } else {
        s
    }
}

/// A sequence with its trailing whitespace removed.
pub open spec fn trim_back(s: Seq<char>) -> Seq<char>
    decreases s.len(),
{
    if s.len() > 0 && is_space(s.last()) {
        trim_back(s.drop_last())
    } else {
        s
    }
}

/// A sequence with whitespace removed from both ends.
pub open spec fn trimmed(s: Seq<char>) -> Seq<char> {
    trim_back(trim_front(s))
}

/// When the first `i` characters are whitespace and the next one is not,
/// trimming the front removes exactly those `i` characters.
proof fn lemma_trim_front_at(s: Seq<char>, i: int)
    requires
        0 <= i <= s.len(),
        forall|j: int| 0 <= j < i ==> is_space(#[trigger] s[j]),
        i < s.len() ==> !is_space(s[i]),
    ensures
        trim_front(s) =~= s.subrange(i, s.len() as int),
    decreases i,
{
    if i == 0 {
        if s.len() > 0 && is_space(s[0]) {
            assert(false);
        }
        assert(trim_front(s) == s);
        assert(s =~= s.subrange(0, s.len() as int));
    } else {
        let t = s.skip(1);
        lemma_trim_front_at(t, i - 1);
        assert(trim_front(s) == trim_front(t));
        assert(t.subrange(i - 1, t.len() as int) =~= s.subrange(i, s.len() as int));
    }
}

/// When everything from position `e` on is whitespace and the character
/// before `e` is not, trimming the back cuts exactly at `e`.
proof fn lemma_trim_back_at(s: Seq<char>, e: int)
    requires
        0 <= e <= s.len(),
        forall|j: int| e <= j < s.len() ==> is_space(#[trigger] s[j]),
        e > 0 ==> !is_space(s[e - 1]),
    ensures
        trim_back(s) =~= s.subrange(0, e),
    decreases s.len(),
{
    if e == s.len() {
        // Nothing is cut: the sequence is empty or ends in a non-space.
        if s.len() > 0 {
            assert(!is_space(s.last()));
        }
        assert(trim_back(s) == s);
        assert(s =~= s.subrange(0, e));
    } else {
        assert(is_space(s.last()));
        lemma_trim_back_at(s.drop_last(), e);
        assert(s.drop_last().subrange(0, e) =~= s.subrange(0, e));
    }
}

/// Trims whitespace from both ends of a string.
pub fn trim_str(s: &str) -> (r: String)
    ensures
        r@ == trimmed(s@),
{
    let n: usize = s.unicode_len();
    let mut start: usize = 0;
    while start < n && is_space_char(s.get_char(start))
        invariant
            start <= n,
            n == s@.len(),
            forall|j: int| 0 <= j < start ==> is_space(#[trigger] s@[j]),
        decreases n - start,
    {
        start = start + 1;
    }
    proof {
        lemma_trim_front_at(s@, start as int);
    }
    if start == n {
        proof {
            assert(trim_front(s@) =~= Seq::<char>::empty());
            assert(trimmed(s@) =~= Seq::<char>::empty());
        }
        return String::new();
    }
    let mut end: usize = n;
    while end > start && is_space_char(s.get_char(end - 1))
        invariant
            start <= end <= n,
            n == s@.len(),
            forall|j: int| end <= j < n ==> is_space(#[trigger] s@[j]),
        decreases end,
    {
        end = end - 1;
    }
    proof {
        let front = s@.subrange(start as int, n as int);
        if end == start {
            assert(!is_space(s@[start as int]));
            assert(is_space(s@[start as int]));
        }
        assert(!is_space(s@[end as int - 1]));
        lemma_trim_back_at(front, end as int - start as int);
        assert(front.subrange(0, end - start) =~= s@.subrange(start as int, end as int));
    }
    let piece: &str = s.substring_char(start, end);
    piece.to_owned()
}

/// Lexicographic order on character sequences, by code point.
pub open spec fn lex_le(a: Seq<char>, b: Seq<char>) -> bool
    decreases a.len(),
{
    if a.len() == 0 {
        true
    } else if b.len() == 0 {
        false
    } else if (a[0] as int) < (b[0] as int) {
        true
    } else if (a[0] as int) > (b[0] as int) {
        false
    } else {
        lex_le(a.skip(1), b.skip(1))
    }
}

/// The order is reflexive.
pub proof fn lemma_lex_reflexive(a: Seq<char>)
    ensures
        lex_le(a, a),
    decreases a.len(),
{
    if a.len() > 0 {
        lemma_lex_reflexive(a.skip(1));
    }
}

/// The order is total.
pub proof fn lemma_lex_total(a: Seq<char>, b: Seq<char>)
    ensures
        lex_le(a, b) || lex_le(b, a),
    decreases a.len(),
{
    if a.len() > 0 && b.len() > 0 && (a[0] as int) == (b[0] as int) {
        lemma_lex_total(a.skip(1), b.skip(1));
    }
}

/// The order is transitive.
pub proof fn lemma_lex_transitive(a: Seq<char>, b: Seq<char>, c: Seq<char>)
    requires
        lex_le(a, b),
        lex_le(b, c),
    ensures
        lex_le(a, c),
    decreases a.len(),
{
    if a.len() > 0 && b.len() > 0 && c.len() > 0 && (a[0] as int) == (b[0] as int)
        && (b[0] as int) == (c[0] as int) {
        lemma_lex_transitive(a.skip(1), b.skip(1), c.skip(1));
    }
}

/// Compares two strings in lexicographic order.
pub fn str_lex_le(a: &str, b: &str) -> (r: bool)
    ensures
        r == lex_le(a@, b@),
{
    let na: usize = a.unicode_len();
    let nb: usize = b.unicode_len();
    let mut i: usize = 0;
    proof {
        assert(a@.skip(0) =~= a@);
        assert(b@.skip(0) =~= b@);
    }
    while i < na && i < nb
        invariant
            i <= na,
            i <= nb,
            na == a@.len(),
            nb == b@.len(),
            lex_le(a@, b@) == lex_le(a@.skip(i as int), b@.skip(i as int)),
            forall|j: int| 0 <= j < i ==> a@[j] == b@[j],
        decreases na - i,
    {
        let ca: char = a.get_char(i);
        let cb: char = b.get_char(i);
        if (ca as u32) < (cb as u32) {
            return true;
        }
        if (ca as u32) > (cb as u32) {
            return false;
        }
        proof {
            assert(ca == cb);
            assert(a@.skip(i as int).skip(1) =~= a@.skip(i as int + 1));
            assert(b@.skip(i as int).skip(1) =~= b@.skip(i as int + 1));
        }
        i = i + 1;
    }
    proof {
        if i == na {
            assert(a@.skip(i as int) =~= Seq::<char>::empty());
        } else {
            assert(b@.skip(i as int) =~= Seq::<char>::empty());
            assert(a@.skip(i as int).len() > 0);
        }
    }
    na <= nb
}

/// The views of a sequence of strings.
pub open spec fn views_of(v: Seq<String>) -> Seq<Seq<char>> {
    v.map_values(|t: String| t@)
}

/// Sorts strings into lexicographic order by selection: the multiset of
/// views is preserved and the result is ordered.
pub fn sort_strings(input: Vec<String>) -> (r: Vec<String>)
    ensures
        views_of(r@).to_multiset() == views_of(input@).to_multiset(),
        forall|i: int, j: int| 0 <= i <= j < r@.len()
            ==> lex_le(#[trigger] r@[i]@, #[trigger] r@[j]@),
{
    broadcast use vstd::seq_lib::group_to_multiset_ensures;
    broadcast use vstd::multiset::group_multiset_axioms;

    let ghost orig = views_of(input@);
    let mut rest: Vec<String> = input;
    let mut out: Vec<String> = Vec::new();
    while rest.len() > 0
        invariant
            views_of(out@).to_multiset().add(views_of(rest@).to_multiset())
                =~= orig.to_multiset(),
            forall|i: int, j: int| 0 <= i <= j < out@.len()
                ==> lex_le(#[trigger] out@[i]@, #[trigger] out@[j]@),
            forall|i: int, j: int| 0 <= i < out@.len() && 0 <= j < rest@.len()
                ==> lex_le(#[trigger] out@[i]@, #[trigger] rest@[j]@),
        decreases rest@.len(),
    {
        // Find the least remaining string.
        let n: usize = rest.len();
        let mut m: usize = 0;
        let mut j: usize = 1;
        proof {
            lemma_lex_reflexive(rest@[0]@);
        }
        while j < n
            invariant
                m < j <= n,
                n == rest@.len(),
                forall|idx: int| 0 <= idx < j ==> lex_le(rest@[m as int]@, #[trigger] rest@[idx]@),
            decreases n - j,
        {
            if str_lex_le(rest[j].as_str(), rest[m].as_str()) {
                proof {
                    assert forall|idx: int| 0 <= idx < j
                        implies lex_le(rest@[j as int]@, #[trigger] rest@[idx]@) by {
                        lemma_lex_transitive(rest@[j as int]@, rest@[m as int]@, rest@[idx]@);
                    }
                }
                m = j;
                proof {
                    lemma_lex_reflexive(rest@[j as int]@);
                }
            } else {
                proof {
                    lemma_lex_total(rest@[j as int]@, rest@[m as int]@);
                }
            }
            proof {
                assert(lex_le(rest@[m as int]@, rest@[j as int]@));
            }
            j = j + 1;
        }

        let ghost rest_before = rest@;
        let ghost out_before = out@;
        let s: String = rest.remove(m);
        out.push(s);
        proof {
            // The views follow the removal and the push.
            assert(views_of(rest@) =~= views_of(rest_before).remove(m as int));
            assert(views_of(out@) =~= views_of(out_before).push(rest_before[m as int]@));
            assert(views_of(rest_before)[m as int] == rest_before[m as int]@);
            assert(views_of(rest_before).contains(views_of(rest_before)[m as int]));
            vstd::seq_lib::to_multiset_contains(views_of(rest_before), rest_before[m as int]@);
            vstd::seq_lib::to_multiset_remove(views_of(rest_before), m as int);
            vstd::seq_lib::to_multiset_build(views_of(out_before), rest_before[m as int]@);
            assert(views_of(rest_before).to_multiset().count(rest_before[m as int]@) > 0);
            assert(views_of(out@).to_multiset().add(views_of(rest@).to_multiset())
                =~= orig.to_multiset());
            // The chosen string stays below everything still unsorted.
            assert forall|i2: int, j2: int|
                0 <= i2 < out@.len() && 0 <= j2 < rest@.len()
                implies lex_le(#[trigger] out@[i2]@, #[trigger] rest@[j2]@) by {
                if i2 < out@.len() - 1 {
                    if j2 < m {
                        assert(rest@[j2]@ == rest_before[j2]@);
                    } else {
                        assert(rest@[j2]@ == rest_before[j2 + 1]@);
                    }
                } else {
                    if j2 < m {
                        assert(rest@[j2]@ == rest_before[j2]@);
                    } else {
                        assert(rest@[j2]@ == rest_before[j2 + 1]@);
                    }
                }
            }
        }
    }
    out
}

/// Whether two strings hold the same characters.
pub fn str_eq(a: &str, b: &str) -> (r: bool)
    ensures
        r == (a@ == b@),
{
    let na: usize = a.unicode_len();
    let nb: usize = b.unicode_len();
    if na != nb {
        return false;
    }
    let mut i: usize = 0;
    while i < na
        invariant
            i <= na,
            na == a@.len(),
            na == b@.len(),
            forall|j: int| 0 <= j < i ==> a@[j] == b@[j],
        decreases na - i,
    {
        let ca: char = a.get_char(i);
        let cb: char = b.get_char(i);
        if !(ca == cb) {
            proof {
                assert(a@[i as int] != b@[i as int]);
            }
            return false;
        }
        i = i + 1;
    }
    proof {
        assert(a@ =~= b@);
    }
    true
}

} // verus!
