//! Ampersands in markup: one that stands alone before whitespace is
//! written out as an entity, so that the backend reads it as a character.

use vstd::prelude::*;
use regex::Regex;

verus! {

/// Whether the regular expression `pattern` matches anywhere in
/// `haystack`; `None` where `pattern` is no regular expression.
pub uninterp spec fn regex_is_match(pattern: Seq<char>, haystack: Seq<char>) -> Option<bool>;

/// `haystack` with every match of the regular expression `pattern`
/// replaced by the expansion of `replacement`; `None` where `pattern` is no
/// regular expression.
pub uninterp spec fn regex_replace_all(pattern: Seq<char>, haystack: Seq<char>, replacement: Seq<char>) -> Option<
    Seq<char>,
>;

/// `Regex::new` and `Regex::is_match` of the crate `regex`: compiles
/// `pattern` and says whether it matches anywhere in `haystack`. The
/// contract gives the answer a name and claims no more than that it
/// depends on the two texts alone.
#[verifier::external_body]
fn is_match(pattern: &str, haystack: &str) -> (r: Option<bool>)
    ensures
        r == regex_is_match(pattern@, haystack@),
{
    match Regex::new(pattern) {
        Ok(re) => Some(re.is_match(haystack)),
        Err(_) => None,
    }
}

/// `Regex::new` and `Regex::replace_all` of the crate `regex`: compiles
/// `pattern` and replaces each of its matches in `haystack`. The contract
/// gives the new text a name and claims no more than that it depends on
/// the three texts alone.
#[verifier::external_body]
fn replace_all(pattern: &str, haystack: &str, replacement: &str) -> (r: Option<String>)
    ensures
        match r {
            Some(text) => regex_replace_all(pattern@, haystack@, replacement@) == Some(text@),
            None => regex_replace_all(pattern@, haystack@, replacement@) is None,
        },
{
    match Regex::new(pattern) {
        Ok(re) => Some(re.replace_all(haystack, replacement).into_owned()),
        Err(_) => None,
    }
}

/// An ampersand followed by whitespace, as a regular expression; the
/// whitespace is kept under the name `w`.
pub open spec fn isolated_ampersand() -> Seq<char> {
    "&(?P<w>\\s+)"@
}

/// What an isolated ampersand is replaced by: the entity, and the
/// whitespace that followed.
pub open spec fn ampersand_entity() -> Seq<char> {
    "&amp;$w"@
}

/// The text that is kept of `clean` and `raw`: `raw` with its isolated
/// ampersands written as entities, where `clean` holds an ampersand and
/// `raw` an isolated one; else `clean`.
pub open spec fn with_ampersands_escaped(clean: Seq<char>, raw: Seq<char>) -> Seq<char> {
    kept_text(
        clean,
        clean.contains('&'),
        regex_is_match(isolated_ampersand(), raw),
        regex_replace_all(isolated_ampersand(), raw, ampersand_entity()),
    )
}

/// The text that is kept, given what the search for isolated ampersands
/// found: the replaced text where an ampersand is there, a match was found
/// and a replaced text was made; else `clean`.
pub open spec fn kept_text(
    clean: Seq<char>,
    has_ampersand: bool,
    found: Option<bool>,
    replaced: Option<Seq<char>>,
) -> Seq<char> {
    if has_ampersand && found == Some(true) && replaced is Some {
        replaced->0
    } else {
        clean
    }
}

/// Chooses between a text and what its isolated ampersands were replaced
/// in, given what the search for them found.
pub fn keep_text(clean: String, has_ampersand: bool, found: Option<bool>, replaced: Option<String>) -> (r: String)
    ensures
        r@ == kept_text(
            clean@,
            has_ampersand,
            found,
            match replaced {
                Some(text) => Some(text@),
                None => None,
            },
        ),
{
    if !has_ampersand {
        return clean;
    }
    match found {
        Some(true) => match replaced {
            Some(text) => text,
            None => clean,
        },
        _ => clean,
    }
}

/// Writes the isolated ampersands of `raw` as entities, where `clean`
/// holds an ampersand at all; else hands back `clean`.
pub fn escape_isolated_ampersands(clean: &str, raw: &str) -> (r: String)
    ensures
        r@ == with_ampersands_escaped(clean@, raw@),
{
    let chars = crate::text::chars_of(clean);
    let has_ampersand = crate::text::contains_char(&chars, '&');
    if !has_ampersand {
        return keep_text(clean.to_owned(), false, None, None);
    }
    let found = is_match("&(?P<w>\\s+)", raw);
    let replaced = match found {
        Some(true) => replace_all("&(?P<w>\\s+)", raw, "&amp;$w"),
        _ => None,
    };
    proof {
        if found != Some(true) {
            assert(with_ampersands_escaped(clean@, raw@) == clean@);
        }
    }
    keep_text(clean.to_owned(), true, found, replaced)
}


/// `trial_parse`, handed the text `text`, can answer `answer`.
pub open spec fn trial_answers<F: Fn(&str) -> bool>(trial_parse: F, text: Seq<char>, answer: bool) -> bool {
    exists|handed: &str| handed@ == text && #[trigger] call_ensures(trial_parse, (handed,), answer)
}

/// `trial_parse` may be handed any text.
pub open spec fn takes_any_text<F: Fn(&str) -> bool>(trial_parse: F) -> bool {
    forall|handed: &str| #[trigger] call_requires(trial_parse, (handed,))
}

/// Why a text cannot be markup, whatever the backend says of it.
#[derive(Debug, Clone, Copy, PartialEq, Eq, Structural)]
pub enum Unfit {
    /// The text holds nothing but whitespace, or nothing at all.
    Whitespace,
    /// The text holds a NUL.
    BadChar,
}

/// What is wrong with a text, if anything: whitespace alone comes first.
pub open spec fn unfit(s: Seq<char>) -> Option<Unfit> {
    if crate::text::all_whitespace(s) {
        Some(Unfit::Whitespace)
    } else if s.contains('\0') {
        Some(Unfit::BadChar)
    } else {
        None
    }
}

/// The text that is handed to the backend for `s`: `s` without the
/// whitespace at its ends and with its isolated ampersands written as
/// entities.
pub open spec fn cleaned(s: Seq<char>) -> Seq<char> {
    let clean = crate::text::trimmed(s);
    with_ampersands_escaped(clean, clean)
}

/// Checks a text and makes it ready for the backend's trial.
pub fn clean_markup(s: &str) -> (r: Result<String, Unfit>)
    ensures
        match r {
            Ok(text) => unfit(s@) is None && text@ == cleaned(s@),
            Err(fault) => unfit(s@) == Some(fault),
        },
{
    let chars = crate::text::chars_of(s);
    if crate::text::is_all_whitespace(&chars) {
        return Err(Unfit::Whitespace);
    }
    if crate::text::contains_char(&chars, '\0') {
        return Err(Unfit::BadChar);
    }
    let clean_chars = crate::text::trim(&chars);
    let clean = crate::text::string_of(&clean_chars);
    Ok(escape_isolated_ampersands(clean.as_str(), clean.as_str()))
}

} // verus!
