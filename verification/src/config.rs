//! Session configuration, and the small decisions of the interactive
//! configuration dialogue: judging a typed credential, reading a yes/no
//! reply, and masking a credential for display.

use vstd::prelude::*;
use vstd::string::*;

verus! {

/// The resolved client configuration a session runs with. How it was
/// obtained (flags, a stored file) is the caller's concern.
pub struct SessionConfig {
    /// Opaque bearer credential for the service.
    pub api_key: String,
    /// Whether cached answers are acceptable.
    pub cache: bool,
    /// Whether answers are rendered as raw structured output.
    pub json_mode: bool,
    /// Whether reference lists and citation markers are shown.
    pub show_references: bool,
}

/// A credential shorter than this draws a confirmation question.
pub const MIN_PLAUSIBLE_KEY_CHARS: usize = 10;

/// Judgement on a typed credential.
#[derive(Debug, Clone, Copy, PartialEq, Eq, Structural)]
pub enum KeyCheck {
    /// Nothing was typed; ask again.
    Empty,
    /// Suspiciously short; ask for confirmation.
    Suspicious,
    /// Long enough to accept as typed.
    Acceptable,
}

/// Judge a typed credential (already trimmed by the prompt loop).
pub fn check_api_key(key: &str) -> (r: KeyCheck)
    ensures
        key@.len() == 0 ==> r == KeyCheck::Empty,
        0 < key@.len() < MIN_PLAUSIBLE_KEY_CHARS ==> r == KeyCheck::Suspicious,
        key@.len() >= MIN_PLAUSIBLE_KEY_CHARS ==> r == KeyCheck::Acceptable,
{
    let len = key.unicode_len();
    if len == 0 {
        KeyCheck::Empty
    } else if len < MIN_PLAUSIBLE_KEY_CHARS {
        KeyCheck::Suspicious
    } else {
        KeyCheck::Acceptable
    }
}

/// True when a (trimmed) reply starts with `y` in either case.
pub fn is_affirmative(line: &str) -> (r: bool)
    ensures
        r == (line@.len() > 0 && (line@[0] == 'y' || line@[0] == 'Y')),
{
    if line.unicode_len() == 0 {
        return false;
    }
    let c = line.get_char(0);
    c == 'y' || c == 'Y'
}

/// A yes/no reply as the configuration dialogue reads it.
#[derive(Debug, Clone, Copy, PartialEq, Eq, Structural)]
pub enum YesNoAnswer {
    Yes,
    No,
    Unrecognized,
}

/// Read a (trimmed) yes/no reply: an empty reply means yes, a reply
/// starting with `y` or `n` in either case decides, anything else asks
/// again.
pub fn parse_yes_no(line: &str) -> (r: YesNoAnswer)
    ensures
        line@.len() == 0 ==> r == YesNoAnswer::Yes,
        line@.len() > 0 && (line@[0] == 'y' || line@[0] == 'Y') ==> r == YesNoAnswer::Yes,
        line@.len() > 0 && (line@[0] == 'n' || line@[0] == 'N') ==> r == YesNoAnswer::No,
        line@.len() > 0 && !(line@[0] == 'y' || line@[0] == 'Y') && !(line@[0] == 'n' || line@[0]
            == 'N') ==> r == YesNoAnswer::Unrecognized,
{
    if line.unicode_len() == 0 {
        return YesNoAnswer::Yes;
    }
    let c = line.get_char(0);
    if c == 'y' || c == 'Y' {
        YesNoAnswer::Yes
    } else if c == 'n' || c == 'N' {
        YesNoAnswer::No
    } else {
        YesNoAnswer::Unrecognized
    }
}

/// `n` copies of one character.
pub open spec fn char_repeat(c: char, n: int) -> Seq<char>
    decreases n,
{
    if n <= 0 {
        Seq::empty()
    } else {
        char_repeat(c, n - 1).push(c)
    }
}

/// How a stored credential is shown: first and last four characters
/// around an ellipsis when it is long enough, else one star per
/// character.
pub open spec fn masked_key_spec(k: Seq<char>) -> Seq<char> {
    if k.len() > 8 {
        k.take(4) + "..."@ + k.skip(k.len() - 4)
    } else {
        char_repeat('*', k.len() as int)
    }
}

/// Mask a credential for display.
pub fn masked_key(key: &str) -> (r: String)
    ensures
        r@ == masked_key_spec(key@),
{
    let len = key.unicode_len();
    if len > 8 {
        let mut out = key.substring_char(0, 4).to_owned();
        out.append("...");
        out.append(key.substring_char(len - 4, len));
        proof {
            assert(out@ =~= masked_key_spec(key@));
        }
        out
    } else {
        let mut out = String::new();
        let mut i: usize = 0;
        proof {
            reveal_strlit("*");
            assert(out@ =~= char_repeat('*', 0));
        }
        while i < len
            invariant
                i <= len,
                len == key@.len(),
                len <= 8,
                out@ == char_repeat('*', i as int),
                "*"@ == seq!['*'],
            decreases len - i,
        {
            out.append("*");
            proof {
                assert(out@ =~= char_repeat('*', i as int + 1));
            }
            i = i + 1;
        }
        out
    }
}

}
