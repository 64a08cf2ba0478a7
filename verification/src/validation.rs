//! Checks on names that come from outside: file names and theme names.

use vstd::prelude::*;
use vstd::string::*;
use crate::text::same_text;

verus! {

/// The largest number of characters that a file name may have.
pub const MAX_FILENAME_CHARS: usize = 100;

/// Whether `c` is an ASCII letter or digit.
pub open spec fn is_alnum(c: char) -> bool {
    ('a' <= c && c <= 'z') || ('A' <= c && c <= 'Z') || ('0' <= c && c <= '9')
}

/// Whether `c` may stand in the stem of a file name: an ASCII letter or
/// digit, an underscore or a dash.
pub open spec fn is_stem_char(c: char) -> bool {
    is_alnum(c) || c == '_' || c == '-'
}

/// Whether every character of `s` may stand in a stem.
pub open spec fn all_stem(s: Seq<char>) -> bool {
    forall|i: int| 0 <= i < s.len() ==> is_stem_char(#[trigger] s[i])
}

/// Whether every character of `s` is an ASCII letter or digit.
pub open spec fn all_alnum(s: Seq<char>) -> bool {
    forall|i: int| 0 <= i < s.len() ==> is_alnum(#[trigger] s[i])
}

/// Whether `s` is a plain file name: a stem of one or more stem characters,
/// alone or followed by one dot and an extension of one or more ASCII letters
/// or digits.
pub open spec fn is_plain_filename(s: Seq<char>) -> bool {
    ||| s.len() > 0 && all_stem(s)
    ||| exists|dot: int|
        {
            &&& 0 < dot < s.len() - 1
            &&& all_stem(s.subrange(0, dot))
            &&& #[trigger] s[dot] == '.'
            &&& all_alnum(s.subrange(dot + 1, s.len() as int))
        }
}

/// What the file name check answers for `s`.
pub open spec fn filename_verdict(s: Seq<char>) -> Result<(), Seq<char>> {
    if s.len() == 0 {
        Err("Filename cannot be empty"@)
    } else if s.len() > MAX_FILENAME_CHARS {
        Err("Filename too long (max 100 characters)"@)
    } else if !is_plain_filename(s) {
        Err(
            "Invalid filename: only alphanumeric characters, dashes, underscores, and dots allowed"@,
        )
    } else {
        Ok(())
    }
}

/// Whether `s` names a theme.
pub open spec fn is_theme(s: Seq<char>) -> bool {
    s == "light"@ || s == "dark"@ || s == "system"@
}

/// What the theme check answers for `s`.
pub open spec fn theme_verdict(s: Seq<char>) -> Result<(), Seq<char>> {
    if is_theme(s) {
        Ok(())
    } else {
        Err("Invalid theme: must be 'light', 'dark', or 'system'"@)
    }
}

/// The value of a check's answer.
pub open spec fn verdict(r: Result<(), String>) -> Result<(), Seq<char>> {
    match r {
        Ok(_) => Ok(()),
        Err(message) => Err(message@),
    }
}

fn alnum(c: char) -> (r: bool)
    ensures
        r == is_alnum(c),
{
    ('a' <= c && c <= 'z') || ('A' <= c && c <= 'Z') || ('0' <= c && c <= '9')
}

fn stem_char(c: char) -> (r: bool)
    ensures
        r == is_stem_char(c),
{
    alnum(c) || c == '_' || c == '-'
}

fn invalid_filename() -> (r: Result<(), String>)
    ensures
        verdict(r) == Err::<(), Seq<char>>(
            "Invalid filename: only alphanumeric characters, dashes, underscores, and dots allowed"@,
        ),
{
    Err(
        "Invalid filename: only alphanumeric characters, dashes, underscores, and dots allowed".to_owned(),
    )
}

/// A stem that ends before position `i`, where a character stands that is no
/// stem character, leaves one place for the dot: `i` itself.
proof fn lemma_dot_is_at_stem_end(s: Seq<char>, i: int, dot: int)
    requires
        0 <= i < s.len(),
        all_stem(s.subrange(0, i)),
        !is_stem_char(s[i]),
        0 < dot < s.len() - 1,
        all_stem(s.subrange(0, dot)),
        s[dot] == '.',
    ensures
        dot == i,
{
    if dot < i {
        assert(s.subrange(0, i)[dot] == s[dot]);
    } else if dot > i {
        assert(s.subrange(0, dot)[i] == s[i]);
    }
}

/// Accepts a file name that is safe to use in a path: not empty, at most
/// [`MAX_FILENAME_CHARS`] characters, and a plain file name.
pub fn validate_filename(filename: &str) -> (r: Result<(), String>)
    ensures
        verdict(r) == filename_verdict(filename@),
{
    let n = filename.unicode_len();
    if n == 0 {
        return Err("Filename cannot be empty".to_owned());
    }
    if n > MAX_FILENAME_CHARS {
        return Err("Filename too long (max 100 characters)".to_owned());
    }
    let ghost s = filename@;
    let mut i: usize = 0;
    while i < n
        invariant
            i <= n,
            n == s.len(),
            s == filename@,
            all_stem(s.subrange(0, i as int)),
        ensures
            i < n ==> !is_stem_char(s[i as int]),
        decreases n - i,
    {
        if !stem_char(filename.get_char(i)) {
            break ;
        }
        assert forall|k: int| 0 <= k < i + 1 implies is_stem_char(
            #[trigger] s.subrange(0, i + 1)[k],
        ) by {
            if k < i {
                assert(s.subrange(0, i as int)[k] == s[k]);
            }
        }
        i += 1;
    }
    if i == n {
        assert(s.subrange(0, n as int) =~= s);
        return Ok(());
    }
    assert(!is_stem_char(s[i as int]));
    assert(!all_stem(s));
    if i == 0 || filename.get_char(i) != '.' || i + 1 == n {
        proof {
            assert forall|dot: int|
                0 < dot < s.len() - 1 && all_stem(s.subrange(0, dot)) && s[dot] == '.' implies false by {
                lemma_dot_is_at_stem_end(s, i as int, dot);
            }
        }
        return invalid_filename();
    }
    let mut j: usize = i + 1;
    while j < n
        invariant
            i + 1 <= j <= n,
            n == s.len(),
            s == filename@,
            0 < i,
            0 < n <= MAX_FILENAME_CHARS,
            all_stem(s.subrange(0, i as int)),
            !is_stem_char(s[i as int]),
            all_alnum(s.subrange(i + 1, j as int)),
        decreases n - j,
    {
        if !alnum(filename.get_char(j)) {
            proof {
                assert forall|dot: int|
                    0 < dot < s.len() - 1 && all_stem(s.subrange(0, dot)) && s[dot] == '.'
                        && all_alnum(s.subrange(dot + 1, s.len() as int)) implies false by {
                    lemma_dot_is_at_stem_end(s, i as int, dot);
                    assert(s.subrange(dot + 1, s.len() as int)[j - dot - 1] == s[j as int]);
                }
                assert(!all_stem(s));
            }
            return invalid_filename();
        }
        assert forall|k: int| 0 <= k < j - i implies is_alnum(
            #[trigger] s.subrange(i + 1, j + 1)[k],
        ) by {
            if k < j - i - 1 {
                assert(s.subrange(i + 1, j as int)[k] == s[i + 1 + k]);
            }
        }
        j += 1;
    }
    assert(s[i as int] == '.');
    Ok(())
}

/// Accepts exactly the theme names `light`, `dark` and `system`.
pub fn validate_theme(theme: &str) -> (r: Result<(), String>)
    ensures
        verdict(r) == theme_verdict(theme@),
{
    if same_text(theme, "light") || same_text(theme, "dark") || same_text(theme, "system") {
        Ok(())
    } else {
        Err("Invalid theme: must be 'light', 'dark', or 'system'".to_owned())
    }
}

} // verus!
