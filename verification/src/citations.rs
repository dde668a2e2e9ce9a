//! Citation markers in answer text.
//!
//! Answer text may embed citation markers: a left black lenticular bracket
//! (U+3010), one or more ASCII digits, and a right black lenticular bracket
//! (U+3011). When the caller does not want references shown, every such
//! marker is removed; all other text is kept unchanged.

use vstd::prelude::*;
use vstd::string::*;

verus! {

/// Opening bracket of a citation marker.
pub open spec fn open_mark() -> char {
    '\u{3010}'
}

/// Closing bracket of a citation marker.
pub open spec fn close_mark() -> char {
    '\u{3011}'
}

/// ASCII decimal digit.
pub open spec fn is_digit(c: char) -> bool {
    '0' <= c && c <= '9'
}

/// First index at or after `i` holding a non-digit, or `s.len()` when the
/// digits run to the end.
pub open spec fn digit_run_end(s: Seq<char>, i: int) -> int
    decreases s.len() - i when 0 <= i <= s.len()
{
    if i >= s.len() {
        i
    } else if is_digit(s[i]) {
        digit_run_end(s, i + 1)
    } else {
        i
    }
}

pub proof fn lemma_digit_run_end_bounds(s: Seq<char>, i: int)
    requires
        0 <= i <= s.len(),
    ensures
        i <= digit_run_end(s, i) <= s.len(),
    decreases s.len() - i,
{
    if i < s.len() && is_digit(s[i]) {
        lemma_digit_run_end_bounds(s, i + 1);
    }
}

/// The run end does not depend on where inside the run the scan stands.
proof fn lemma_digit_run_shift(s: Seq<char>, k: int, i: int)
    requires
        0 <= k,
        k <= k + i <= s.len(),
        0 <= i,
    ensures
        digit_run_end(s.skip(k), i) == digit_run_end(s, k + i) - k,
    decreases s.len() - k - i,
{
    let t = s.skip(k);
    if k + i < s.len() {
        assert(t[i] == s[k + i]);
        if is_digit(s[k + i]) {
            lemma_digit_run_shift(s, k, i + 1);
        }
    }
}

/// True when `s` begins with a whole citation marker: the opening bracket,
/// at least one digit, and the closing bracket.
pub open spec fn starts_with_cite(s: Seq<char>) -> bool {
    &&& s.len() >= 3
    &&& s[0] == open_mark()
    &&& digit_run_end(s, 1) > 1
    &&& digit_run_end(s, 1) < s.len()
    &&& s[digit_run_end(s, 1)] == close_mark()
}

/// Length of the citation marker at the head of `s`.
pub open spec fn cite_len(s: Seq<char>) -> int {
    digit_run_end(s, 1) + 1
}

/// `s` with every citation marker removed, scanning left to right.
pub open spec fn strip_cites(s: Seq<char>) -> Seq<char>
    decreases s.len(),
    via strip_cites_decreases
{
    if s.len() == 0 {
        s
    } else if starts_with_cite(s) {
        strip_cites(s.skip(cite_len(s)))
    } else {
        seq![s[0]] + strip_cites(s.drop_first())
    }
}

#[via_fn]
proof fn strip_cites_decreases(s: Seq<char>) {
    if s.len() > 0 && starts_with_cite(s) {
        lemma_digit_run_end_bounds(s, 1);
    }
}

/// Digit test on one character.
fn is_digit_char(c: char) -> (r: bool)
    ensures
        r == is_digit(c),
{
    '0' <= c && c <= '9'
}

/// A copy of `s` with every citation marker removed.
pub fn strip_citations(s: &str) -> (r: String)
    ensures
        r@ == strip_cites(s@),
{
    let len = s.unicode_len();
    let mut out = String::new();
    let mut i: usize = 0;
    proof {
        assert(s@.skip(0) =~= s@);
        assert(out@ + strip_cites(s@) =~= strip_cites(s@));
    }
    while i < len
        invariant
            i <= len,
            len == s@.len(),
            strip_cites(s@) =~= out@ + strip_cites(s@.skip(i as int)),
        decreases len - i,
    {
        let ghost t = s@.skip(i as int);
        proof {
            assert(t.len() == len - i);
            assert(t[0] == s@[i as int]);
        }
        let c = s.get_char(i);
        if c == '\u{3010}' {
            let mut j = i + 1;
            while j < len && is_digit_char(s.get_char(j))
                invariant
                    i + 1 <= j <= len,
                    len == s@.len(),
                    digit_run_end(s@, i as int + 1) == digit_run_end(s@, j as int),
                decreases len - j,
            {
                j = j + 1;
            }
            proof {
                assert(digit_run_end(s@, j as int) == j);
                lemma_digit_run_shift(s@, i as int, 1);
                assert(digit_run_end(t, 1) == j - i);
            }
            if j > i + 1 && j < len && s.get_char(j) == '\u{3011}' {
                proof {
                    assert(starts_with_cite(t));
                    assert(strip_cites(t) == strip_cites(t.skip(j - i + 1)));
                    assert(t.skip(j - i + 1) =~= s@.skip(j as int + 1));
                }
                i = j + 1;
            } else {
                proof {
                    assert(!starts_with_cite(t));
                    assert(strip_cites(t) == seq![t[0]] + strip_cites(t.drop_first()));
                    assert(t.drop_first() =~= s@.skip(i as int + 1));
                }
                let piece = s.substring_char(i, i + 1);
                proof {
                    assert(piece@ =~= seq![s@[i as int]]);
                }
                out.append(piece);
                i = i + 1;
            }
        } else {
            proof {
                assert(!starts_with_cite(t));
                assert(strip_cites(t) == seq![t[0]] + strip_cites(t.drop_first()));
                assert(t.drop_first() =~= s@.skip(i as int + 1));
            }
            let piece = s.substring_char(i, i + 1);
            proof {
                assert(piece@ =~= seq![s@[i as int]]);
            }
            out.append(piece);
            i = i + 1;
        }
    }
    proof {
        assert(s@.skip(len as int) =~= Seq::<char>::empty());
        assert(strip_cites(s@) =~= out@);
    }
    out
}

/// The text shown for an answer: unchanged when references are displayed,
/// with citation markers removed when they are not.
pub fn display_output(output: &str, show_references: bool) -> (r: String)
    ensures
        show_references ==> r@ == output@,
        !show_references ==> r@ == strip_cites(output@),
{
    if show_references {
        output.to_owned()
    } else {
        strip_citations(output)
    }
}

}
