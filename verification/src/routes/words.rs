//! The interface's words, and choosing which language they are in.

use vstd::prelude::*;
use vstd::string::*;

use crate::config::PublicConfig;
use crate::i18n;
use crate::i18n::Locale;
use crate::json;
use crate::json::Body;
use crate::routes::cookies;
use crate::routes::cookies::language_cookie;
use crate::routes::forms;
use crate::routes::forms::form_fields;
use crate::routes::http;
use crate::routes::http::{Asset, Policy, Req, ReqView, Res, ResView};
use crate::text;
use crate::text::{same, split_all, split_first};

verus! {

/// What the first pair under a name holds, as it was sent.
pub open spec fn first_value(pieces: Seq<Seq<char>>, name: Seq<char>) -> Option<Seq<char>>
    decreases pieces.len(),
{
    if pieces.len() == 0 {
        None
    } else {
        match text::split_at_first(pieces[0], '=') {
            Some((k, v)) => if k == name {
                Some(v)
            } else {
                first_value(pieces.skip(1), name)
            },
            None => first_value(pieces.skip(1), name),
        }
    }
}

/// The language that an address asks for.
pub open spec fn lang_in(path: Seq<char>) -> Option<Locale> {
    match text::split_at_first(path, '?') {
        None => None,
        Some((_, query)) => match first_value(text::pieces(query, '&'), "lang"@) {
            Some(code) => i18n::locale_of(code),
            None => None,
        },
    }
}

fn asked_lang(path: &str) -> (r: Option<Locale>)
    ensures
        r == lang_in(path@),
{
    let query = match split_first(path, '?') {
        None => {
            return None;
        },
        Some((_, query)) => query,
    };
    let parts = split_all(query, '&');
    let ghost all = text::texts(parts@);
    let mut i: usize = 0;
    assert(all.skip(0) =~= all);
    while i < parts.len()
        invariant
            i <= parts@.len(),
            all == text::texts(parts@),
            all == text::pieces(query@, '&'),
            text::split_at_first(path@, '?') matches Some((_, q)) && q == query@,
            first_value(all.skip(i as int), "lang"@) == first_value(all, "lang"@),
        decreases parts@.len() - i,
    {
        assert(all.skip(i as int)[0] == parts@[i as int]@);
        assert(all.skip(i as int).skip(1) =~= all.skip(i + 1));
        match split_first(parts[i].as_str(), '=') {
            Some((k, v)) => {
                if same(k, "lang") {
                    return Locale::parse(v);
                }
            },
            None => {},
        }
        i = i + 1;
    }
    assert(first_value(all.skip(i as int), "lang"@) is None);
    None
}

/// The language the words are asked for in: the one the address names, or else
/// the reader's.
pub open spec fn words_locale(req: ReqView) -> Locale {
    match lang_in(req.path) {
        Some(l) => l,
        None => http::req_locale(req),
    }
}

/// The language the words are asked for in. The address may name it: reading
/// words changes nothing, and a server with no address of its own refuses every
/// write.
pub fn asked_locale(req: &Req) -> (r: Locale)
    ensures
        r == words_locale(req@),
{
    match asked_lang(req.path.as_str()) {
        Some(l) => l,
        None => req.locale(),
    }
}

/// The tag of a body with this digest.
pub open spec fn tag_of(digest: Seq<char>) -> Seq<char> {
    "\""@ + digest + "\""@
}

/// The words, or that the client holds them already.
pub open spec fn words_res(body: Seq<char>, digest: Seq<char>, held: Option<Seq<char>>) -> ResView {
    if held == Some(tag_of(digest)) {
        ResView { etag: Some(tag_of(digest)), ..http::json_res(304, ""@) }
    } else {
        ResView { etag: Some(tag_of(digest)), ..http::json_res(200, body) }
    }
}

fn tagged(digest: &str) -> (r: String)
    ensures
        r@ == tag_of(digest@),
{
    "\"".to_owned().concat(digest).concat("\"")
}

/// The interface's words. `body` is the catalogue, and `digest` its digest.
pub fn api_ui_strings(body: &str, digest: &str, held: Option<&str>) -> (r: Res)
    ensures
        r@ == words_res(body@, digest@, text::opt_str(held)),
{
    let tag = tagged(digest);
    let current = match held {
        Some(h) => same(h, tag.as_str()),
        None => false,
    };
    let mut res = if current {
        Res::json(304, "")
    } else {
        Res::json(200, body)
    };
    res.etag = Some(tag);
    res
}

/// A client is told that it holds the words only where it echoes their tag, and
/// then is sent none.
pub proof fn law_words_are_sent_unless_held(
    body: Seq<char>,
    digest: Seq<char>,
    held: Option<Seq<char>>,
)
    ensures
        words_res(body, digest, held).status == 304 <==> held == Some(tag_of(digest)),
        held != Some(tag_of(digest)) ==> words_res(body, digest, held).body == body,
        words_res(body, digest, held).etag == Some(tag_of(digest)),
{
}

/// The language that a body chooses. What is not one there is selects the
/// default.
pub open spec fn chosen_locale(fields: Seq<(Seq<char>, json::FieldView)>) -> Locale {
    match json::text_field(fields, "lang"@) {
        Some(code) => match i18n::locale_of(code) {
            Some(l) => l,
            None => Locale::En,
        },
        None => Locale::En,
    }
}

/// The language that a body chooses.
pub fn choose_locale(fields: &Body) -> (r: Locale)
    ensures
        r == chosen_locale(fields@),
{
    match fields.text("lang") {
        Some(code) => match Locale::parse(code) {
            Some(l) => l,
            None => Locale::En,
        },
        None => Locale::En,
    }
}

/// Remember the reader's language, and answer the words they chose.
pub fn api_set_language(
    public: Option<&PublicConfig>,
    locale: Locale,
    body: &str,
    digest: &str,
) -> (r: Res)
    ensures
        r@ == (ResView {
            etag: Some(tag_of(digest@)),
            set_cookie: Some(cookies::language_words(locale, cookies::secured(public))),
            ..http::json_res(200, body@)
        }),
{
    let mut res = Res::json(200, body).with_set_cookie(language_cookie(public, locale));
    res.etag = Some(tagged(digest));
    res
}

/// The language that a form chooses.
pub open spec fn form_locale(body: Seq<char>) -> Locale {
    let fields = forms::form_map(body);
    if fields.dom().contains("lang"@) {
        match i18n::locale_of(fields["lang"@]) {
            Some(l) => l,
            None => Locale::En,
        }
    } else {
        Locale::En
    }
}

/// The interface, with the language remembered.
pub open spec fn language_res(public: Option<&PublicConfig>, body: Seq<char>) -> ResView {
    ResView {
        policy: Policy::PublicScript,
        set_cookie: Some(cookies::language_words(form_locale(body), cookies::secured(public))),
        ..http::page_res(200, Asset::Index)
    }
}

/// Remember the reader's language, from a form. A form is a navigation, so it is
/// answered with a document.
pub fn set_language(public: Option<&PublicConfig>, body: &str) -> (r: Res)
    ensures
        r@ == language_res(public, body@),
{
    let fields = form_fields(body);
    let locale = match fields.get("lang") {
        Some(code) => match Locale::parse(code.as_str()) {
            Some(l) => l,
            None => Locale::En,
        },
        None => Locale::En,
    };
    Res::page(200, Asset::Index).with_policy(Policy::PublicScript).with_set_cookie(
        language_cookie(public, locale),
    )
}

} // verus!
