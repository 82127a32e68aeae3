//! Text helpers: case folding and case-insensitive substring search, the
//! matching semantics behind free-text name queries.  The fold is
//! ASCII-only: `'a'` and `'A'` are one letter, while accented or
//! full-width letters, and every non-Latin script, match exactly.

use vstd::prelude::*;

verus! {

/// Character code with ASCII upper-case letters folded to lower case;
/// every other character, including accented and full-width letters, is
/// left as it is.
pub open spec fn lower_code(c: char) -> u32 {
    if 65 <= c as u32 && c as u32 <= 90 {
        (c as u32 + 32) as u32
    } else {
        c as u32
    }
}

/// The two sequences have the same length and agree character by character
/// up to ASCII case.
pub open spec fn chars_eq_ci(a: Seq<char>, b: Seq<char>) -> bool {
    a.len() == b.len() && forall|i: int| 0 <= i < a.len() ==> lower_code(a[i]) == lower_code(b[i])
}

/// `needle` occurs in `hay` as a contiguous substring, up to ASCII case.
pub open spec fn contains_ci(hay: Seq<char>, needle: Seq<char>) -> bool {
    exists|k: int|
        0 <= k && k + needle.len() <= hay.len() && #[trigger] chars_eq_ci(
            hay.subrange(k, k + needle.len() as int),
            needle,
        )
}

/// Case-folded character code, computed.
pub fn char_lower_code(c: char) -> (r: u32)
    ensures
        r == lower_code(c),
{
    let x = c as u32;
    if 65 <= x && x <= 90 {
        x + 32
    } else {
        x
    }
}

/// Case-insensitive substring test over character sequences.
pub fn str_contains_ci(hay: &str, needle: &str) -> (r: bool)
    ensures
        r == contains_ci(hay@, needle@),
{
    let hay_len = hay.unicode_len();
    let needle_len = needle.unicode_len();
    if needle_len > hay_len {
        assert(!contains_ci(hay@, needle@));
        return false;
    }
    let mut k: usize = 0;
    while k <= hay_len - needle_len
        invariant
            needle_len <= hay_len,
            hay_len == hay@.len(),
            needle_len == needle@.len(),
            0 <= k <= hay_len - needle_len + 1,
            forall|kk: int|
                0 <= kk < k ==> !(#[trigger] chars_eq_ci(
                    hay@.subrange(kk, kk + needle@.len() as int),
                    needle@,
                )),
        decreases hay_len - needle_len - k + 1,
    {
        let mut j: usize = 0;
        let mut all_eq: bool = true;
        while j < needle_len
            invariant
                needle_len <= hay_len,
                hay_len == hay@.len(),
                needle_len == needle@.len(),
                0 <= k <= hay_len - needle_len,
                0 <= j <= needle_len,
                all_eq == (forall|jj: int|
                    0 <= jj < j ==> lower_code(hay@[k + jj]) == #[trigger] lower_code(needle@[jj])),
            decreases needle_len - j,
        {
            let hc = char_lower_code(hay.get_char(k + j));
            let nc = char_lower_code(needle.get_char(j));
            if hc != nc {
                all_eq = false;
                assert(lower_code(hay@[k + j]) != lower_code(needle@[j as int]));
                j = needle_len;
            } else {
                assert(lower_code(hay@[k + j]) == lower_code(needle@[j as int]));
                j = j + 1;
            }
        }
        if all_eq {
            assert(chars_eq_ci(hay@.subrange(k as int, k + needle@.len() as int), needle@)) by {
                let sub = hay@.subrange(k as int, k + needle@.len() as int);
                assert(forall|i: int|
                    0 <= i < sub.len() ==> lower_code(sub[i]) == lower_code(needle@[i]));
            }
            return true;
        }
        k = k + 1;
    }
    assert(!contains_ci(hay@, needle@));
    false
}

/// Case-insensitive substring test against an optional field; an absent
/// field matches nothing.
pub fn opt_contains_ci(field: &Option<String>, needle: &str) -> (r: bool)
    ensures
        r == (field is Some && contains_ci(field->0@, needle@)),
{
    match field {
        Some(s) => str_contains_ci(s.as_str(), needle),
        None => false,
    }
}

/// Free-text matching is insensitive to the case of the query: two queries
/// that agree up to ASCII case match exactly the same haystacks.
pub proof fn lemma_contains_ci_case_fold(hay: Seq<char>, q1: Seq<char>, q2: Seq<char>)
    requires
        chars_eq_ci(q1, q2),
    ensures
        contains_ci(hay, q1) == contains_ci(hay, q2),
{
    if contains_ci(hay, q1) {
        let k = choose|k: int|
            0 <= k && k + q1.len() <= hay.len() && #[trigger] chars_eq_ci(
                hay.subrange(k, k + q1.len() as int),
                q1,
            );
        assert(chars_eq_ci(hay.subrange(k, k + q2.len() as int), q2));
    }
    if contains_ci(hay, q2) {
        let k = choose|k: int|
            0 <= k && k + q2.len() <= hay.len() && #[trigger] chars_eq_ci(
                hay.subrange(k, k + q2.len() as int),
                q2,
            );
        assert(chars_eq_ci(hay.subrange(k, k + q1.len() as int), q1));
    }
}

/// The decimal digit character for one digit value.
pub open spec fn digit_char(d: int) -> char {
    if d == 0 {
        '0'
    } else if d == 1 {
        '1'
    } else if d == 2 {
        '2'
    } else if d == 3 {
        '3'
    } else if d == 4 {
        '4'
    } else if d == 5 {
        '5'
    } else if d == 6 {
        '6'
    } else if d == 7 {
        '7'
    } else if d == 8 {
        '8'
    } else {
        '9'
    }
}

/// The decimal representation of a number, most significant digit first,
/// without leading zeros (a single zero for zero).
pub open spec fn dec_rep(n: nat) -> Seq<char>
    decreases n,
{
    if n < 10 {
        seq![digit_char(n as int)]
    } else {
        dec_rep(n / 10) + seq![digit_char((n % 10) as int)]
    }
}

/// Append one decimal digit character.
fn push_digit(s: &mut String, d: u32)
    requires
        d < 10,
    ensures
        final(s)@ == old(s)@ + seq![digit_char(d as int)],
{
    if d == 0 {
        s.append("0");
        proof {
            reveal_strlit("0");
            assert(final(s)@ =~= old(s)@ + seq![digit_char(d as int)]);
        }
    } else if d == 1 {
        s.append("1");
        proof {
            reveal_strlit("1");
            assert(final(s)@ =~= old(s)@ + seq![digit_char(d as int)]);
        }
    } else if d == 2 {
        s.append("2");
        proof {
            reveal_strlit("2");
            assert(final(s)@ =~= old(s)@ + seq![digit_char(d as int)]);
        }
    } else if d == 3 {
        s.append("3");
        proof {
            reveal_strlit("3");
            assert(final(s)@ =~= old(s)@ + seq![digit_char(d as int)]);
        }
    } else if d == 4 {
        s.append("4");
        proof {
            reveal_strlit("4");
            assert(final(s)@ =~= old(s)@ + seq![digit_char(d as int)]);
        }
    } else if d == 5 {
        s.append("5");
        proof {
            reveal_strlit("5");
            assert(final(s)@ =~= old(s)@ + seq![digit_char(d as int)]);
        }
    } else if d == 6 {
        s.append("6");
        proof {
            reveal_strlit("6");
            assert(final(s)@ =~= old(s)@ + seq![digit_char(d as int)]);
        }
    } else if d == 7 {
        s.append("7");
        proof {
            reveal_strlit("7");
            assert(final(s)@ =~= old(s)@ + seq![digit_char(d as int)]);
        }
    } else if d == 8 {
        s.append("8");
        proof {
            reveal_strlit("8");
            assert(final(s)@ =~= old(s)@ + seq![digit_char(d as int)]);
        }
    } else {
        s.append("9");
        proof {
            reveal_strlit("9");
            assert(final(s)@ =~= old(s)@ + seq![digit_char(d as int)]);
        }
    }
}

/// Append the decimal representation of a number.
pub fn push_decimal(s: &mut String, n: u32)
    ensures
        final(s)@ == old(s)@ + dec_rep(n as nat),
    decreases n,
{
    if n >= 10 {
        push_decimal(s, n / 10);
        push_digit(s, n % 10);
        assert(final(s)@ =~= old(s)@ + dec_rep(n as nat));
    } else {
        push_digit(s, n);
    }
}

} // verus!
