//! The languages this server has words in.

use vstd::prelude::*;
use vstd::string::*;

use crate::text;
use crate::text::{head_of, same, split_all, to_lower, trim};

verus! {

/// A language this server has a catalogue for.
#[derive(Debug, Clone, Copy, PartialEq, Eq, Structural)]
pub enum Locale {
    En,
    Fr,
}

impl Default for Locale {
    fn default() -> (r: Self)
        ensures
            r == Locale::En,
    {
        Locale::En
    }
}

/// The code of a language.
pub open spec fn locale_code(l: Locale) -> Seq<char> {
    match l {
        Locale::En => "en"@,
        Locale::Fr => "fr"@,
    }
}

/// The language a code names, where there is a catalogue for it.
pub open spec fn locale_of(code: Seq<char>) -> Option<Locale> {
    if code == "en"@ {
        Some(Locale::En)
    } else if code == "fr"@ {
        Some(Locale::Fr)
    } else {
        None
    }
}

/// A code names the language it came from, and no other text names it: whatever
/// a caller wrote, what is kept is one of the codes there are.
pub proof fn law_codes_read_back(l: Locale, code: Seq<char>)
    ensures
        locale_of(locale_code(l)) == Some(l),
        locale_of(code) == Some(l) ==> code == locale_code(l),
{
    reveal_strlit("en");
    reveal_strlit("fr");
    assert("en"@[0] != "fr"@[0]);
}

impl Locale {
    /// The code of this language.
    pub fn code(self) -> (r: &'static str)
        ensures
            r@ == locale_code(self),
    {
        match self {
            Locale::En => "en",
            Locale::Fr => "fr",
        }
    }

    /// The language a code names, where there is a catalogue for it.
    pub fn parse(code: &str) -> (r: Option<Locale>)
        ensures
            r == locale_of(code@),
    {
        if same(code, "en") {
            Some(Locale::En)
        } else if same(code, "fr") {
            Some(Locale::Fr)
        } else {
            None
        }
    }
}

/// The language that one entry of an `Accept-Language` header asks for: its
/// primary tag, whatever region or weight stands behind it.
pub open spec fn entry_locale(entry: Seq<char>) -> Option<Locale> {
    locale_of(text::lower(text::head(text::trimmed(text::head(entry, ';')), '-')))
}

/// The first of these entries that asks for a language there is.
pub open spec fn first_locale(entries: Seq<Seq<char>>) -> Option<Locale>
    decreases entries.len(),
{
    if entries.len() == 0 {
        None
    } else {
        match entry_locale(entries[0]) {
            Some(l) => Some(l),
            None => first_locale(entries.skip(1)),
        }
    }
}

/// The language a reader is answered in: the one they chose, or else the first
/// their browser asks for, or else the default.
pub open spec fn negotiated(cookie: Option<Seq<char>>, accept: Option<Seq<char>>) -> Locale {
    let chosen = match cookie {
        Some(c) => locale_of(c),
        None => None,
    };
    match chosen {
        Some(l) => l,
        None => match accept {
            Some(a) => match first_locale(text::pieces(a, ',')) {
                Some(l) => l,
                None => Locale::En,
            },
            None => Locale::En,
        },
    }
}

/// The language a reader is answered in.
pub fn negotiate(cookie: Option<&str>, accept: Option<&str>) -> (r: Locale)
    ensures
        r == negotiated(text::opt_str(cookie), text::opt_str(accept)),
{
    if let Some(c) = cookie {
        if let Some(l) = Locale::parse(c) {
            return l;
        }
    }
    if let Some(a) = accept {
        let parts = split_all(a, ',');
        let ghost all = text::texts(parts@);
        let mut i: usize = 0;
        assert(all.skip(0) =~= all);
        while i < parts.len()
            invariant
                i <= parts@.len(),
                all == text::texts(parts@),
                accept == Some(a),
                all == text::pieces(a@, ','),
                text::opt_str(cookie) matches Some(c) ==> locale_of(c) is None,
                first_locale(all.skip(i as int)) == first_locale(all),
            decreases parts@.len() - i,
        {
            let ghost rest = all.skip(i as int);
            assert(rest[0] == parts@[i as int]@);
            assert(rest.skip(1) =~= all.skip(i + 1));
            let tag = to_lower(head_of(trim(head_of(parts[i].as_str(), ';')), '-'));
            if let Some(l) = Locale::parse(tag.as_str()) {
                return l;
            }
            i = i + 1;
        }
        assert(first_locale(all.skip(i as int)) is None);
    }
    Locale::En
}

/// Whoever chose a language gets it, whatever their browser asks for.
pub proof fn law_a_choice_outranks_the_browser(l: Locale, accept: Option<Seq<char>>)
    ensures
        negotiated(Some(locale_code(l)), accept) == l,
{
    law_codes_read_back(l, locale_code(l));
}

/// A code that names no language there is chooses nothing.
pub proof fn law_an_unknown_choice_chooses_nothing(code: Seq<char>, accept: Option<Seq<char>>)
    requires
        locale_of(code) is None,
    ensures
        negotiated(Some(code), accept) == negotiated(None, accept),
{
}

/// The words that the answers built here need, in one language.
pub struct Strings {
    pub signin_no_mail: String,
    pub signin_wrong: String,
    pub file_repo_unknown: String,
    pub error_empty: String,
    pub confirm_title: String,
    pub confirm_intro: String,
    pub confirm_submit: String,
    pub confirm_not_you: String,
    pub link_already_used: String,
    pub link_already_used_link: String,
    pub link_expired: String,
    pub link_failed_title: String,
    pub link_ask_again: String,
}

} // verus!
