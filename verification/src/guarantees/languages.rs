//! Which language a reader is answered in, and the pages that links lead to.

use vstd::prelude::*;
use vstd::string::*;

use crate::guarantees::wording;
use crate::i18n;
use crate::i18n::{Locale, Strings};
use crate::routes::cookies;
use crate::routes::forms;
use crate::routes::http::{Asset, ReqView};
use crate::routes::pages;
use crate::routes::words;
use crate::text;

verus! {

/// The code of a language.
pub open spec fn code(l: Locale) -> Seq<char> {
    match l {
        Locale::En => "en"@,
        Locale::Fr => "fr"@,
    }
}

/// A language that somebody chose is theirs, whatever their browser asks for;
/// otherwise the first their browser asks for that there is; otherwise English.
pub proof fn law_a_reader_is_answered_in_their_language(
    l: Locale,
    other: Option<Seq<char>>,
    accept: Option<Seq<char>>,
    header: Seq<char>,
)
    requires
        other matches Some(c) ==> c != "en"@ && c != "fr"@,
    ensures
        i18n::negotiated(Some(code(l)), accept) == l,
        i18n::negotiated(other, None) == Locale::En,
        i18n::negotiated(other, Some(header)) == (match i18n::first_locale(
            text::pieces(header, ','),
        ) {
            Some(first) => first,
            None => Locale::En,
        }),
{
    reveal_strlit("en");
    reveal_strlit("fr");
    assert("en"@[0] != "fr"@[0]);
}

/// The first entry of a header that names a language there is decides; an entry
/// that names none is passed over. What counts of an entry is its primary tag, in
/// whatever case, without the region and the weight behind it.
pub proof fn law_the_first_language_there_is_counts(
    a: Seq<char>,
    tag: Seq<char>,
    b: Seq<char>,
    region: Seq<char>,
    weight: Seq<char>,
    rest: Seq<char>,
    l: Locale,
)
    requires
        wording::all_white(a),
        wording::all_white(b),
        tag.len() > 0,
        !text::is_white(tag[0]),
        !text::is_white(tag.last()),
        !tag.contains(';'),
        !tag.contains('-'),
        !tag.contains(','),
        !region.contains(';'),
        !region.contains(','),
        !weight.contains(','),
        region.len() > 0 ==> region[0] == '-' && !text::is_white(region.last()),
        weight.len() > 0 ==> weight[0] == ';',
    ensures
        ({
            let entry = a + tag + region + b + weight;
            let first = i18n::first_locale(text::pieces(entry + seq![','] + rest, ','));
            &&& text::lower(tag) == code(l) ==> first == Some(l)
            &&& text::lower(tag) != "en"@ && text::lower(tag) != "fr"@ ==> first
                == i18n::first_locale(text::pieces(rest, ','))
        }),
{
    reveal_strlit("en");
    reveal_strlit("fr");
    assert("en"@[0] != "fr"@[0]);
    let entry = a + tag + region + b + weight;
    lemma_primary_tag(a, tag, b, region, weight);
    assert(!entry.contains(',')) by {
        assert forall|i: int| 0 <= i < entry.len() implies entry[i] != ',' by {
            let n1 = a.len() as int;
            let n2 = n1 + tag.len();
            let n3 = n2 + region.len();
            let n4 = n3 + b.len();
            if i < n1 {
                assert(entry[i] == a[i]);
            } else if i < n2 {
                assert(entry[i] == tag[i - n1]);
                assert(tag.contains(tag[i - n1]));
            } else if i < n3 {
                assert(entry[i] == region[i - n2]);
                assert(region.contains(region[i - n2]));
            } else if i < n4 {
                assert(entry[i] == b[i - n3]);
            } else {
                assert(entry[i] == weight[i - n4]);
                assert(weight.contains(weight[i - n4]));
            }
        }
    }
    wording::law_a_text_is_cut_at_the_mark(entry, ',', rest);
    let all = seq![entry] + text::pieces(rest, ',');
    assert(all.skip(1) =~= text::pieces(rest, ','));
    assert(all[0] == entry);
}

proof fn lemma_primary_tag(
    a: Seq<char>,
    tag: Seq<char>,
    b: Seq<char>,
    region: Seq<char>,
    weight: Seq<char>,
)
    requires
        wording::all_white(a),
        wording::all_white(b),
        tag.len() > 0,
        !text::is_white(tag[0]),
        !text::is_white(tag.last()),
        !tag.contains(';'),
        !tag.contains('-'),
        !region.contains(';'),
        region.len() > 0 ==> region[0] == '-' && !text::is_white(region.last()),
        weight.len() > 0 ==> weight[0] == ';',
    ensures
        i18n::entry_locale(a + tag + region + b + weight) == i18n::locale_of(text::lower(tag)),
{
    let core = tag + region;
    let front = a + tag + region + b;
    let entry = front + weight;
    assert(!front.contains(';')) by {
        assert forall|i: int| 0 <= i < front.len() implies front[i] != ';' by {
            let n1 = a.len() as int;
            let n2 = n1 + tag.len();
            let n3 = n2 + region.len();
            if i < n1 {
                assert(front[i] == a[i]);
            } else if i < n2 {
                assert(front[i] == tag[i - n1]);
                assert(tag.contains(tag[i - n1]));
            } else if i < n3 {
                assert(front[i] == region[i - n2]);
                assert(region.contains(region[i - n2]));
            } else {
                assert(front[i] == b[i - n3]);
            }
        }
    }
    if weight.len() == 0 {
        assert(entry =~= front);
        wording::law_a_text_is_cut_at_the_mark(front, ';', weight);
    } else {
        assert(entry =~= front + seq![';'] + weight.skip(1));
        wording::law_a_text_is_cut_at_the_mark(front, ';', weight.skip(1));
    }
    assert(front =~= a + core + b);
    assert(core[0] == tag[0]);
    if region.len() == 0 {
        assert(core =~= tag);
        wording::law_a_text_is_cut_at_the_mark(tag, '-', region);
    } else {
        assert(core.last() == region.last());
        assert(core =~= tag + seq!['-'] + region.skip(1));
        wording::law_a_text_is_cut_at_the_mark(tag, '-', region.skip(1));
    }
    wording::law_trimming_takes_the_space_around(a, core, b);
}

/// Words are asked for in the language that the address names, or else in the
/// reader's.
pub proof fn law_words_are_asked_for_in_a_language(req: ReqView, path: Seq<char>, l: Locale)
    requires
        !path.contains('?'),
    ensures
        words::words_locale(ReqView { path, ..req }) == i18n::negotiated(
            req.cookie_lang,
            req.accept_language,
        ),
        words::words_locale(ReqView { path: path + "?lang="@ + code(l), ..req }) == l,
{
    reveal_strlit("?lang=");
    reveal_strlit("lang");
    reveal_strlit("en");
    reveal_strlit("fr");
    assert("en"@[0] != "fr"@[0]);
    let c = code(l);
    let pair = "lang"@ + seq!['='] + c;
    wording::law_a_text_is_cut_at_the_mark(path, '?', pair);
    assert(path + "?lang="@ + c =~= path + seq!['?'] + pair);
    assert(!pair.contains('&')) by {
        assert forall|i: int| 0 <= i < pair.len() implies pair[i] != '&' by {
            assert(c.len() == 2);
        }
    }
    wording::law_a_text_is_cut_at_the_mark(pair, '&', c);
    assert(!"lang"@.contains('=')) by {
        assert forall|i: int| 0 <= i < "lang"@.len() implies "lang"@[i] != '=' by {}
    }
    wording::law_a_text_is_cut_at_the_mark("lang"@, '=', c);
    assert(seq![pair][0] == pair);
}

/// Of several languages that an address names, the first counts, and a piece that
/// names something else is passed over.
pub proof fn law_the_first_language_in_the_address_counts(
    name: Seq<char>,
    value: Seq<char>,
    rest: Seq<char>,
)
    requires
        !name.contains('='),
        !name.contains('&'),
        !value.contains('&'),
    ensures
        ({
            let first = words::first_value(
                text::pieces(name + seq!['='] + value + seq!['&'] + rest, '&'),
                "lang"@,
            );
            if name == "lang"@ {
                first == Some(value)
            } else {
                first == words::first_value(text::pieces(rest, '&'), "lang"@)
            }
        }),
        words::first_value(Seq::empty(), "lang"@) is None,
{
    let pair = name + seq!['='] + value;
    assert(!pair.contains('&')) by {
        assert forall|i: int| 0 <= i < pair.len() implies pair[i] != '&' by {
            if i < name.len() {
                assert(pair[i] == name[i]);
                assert(name.contains(name[i]));
            } else if i > name.len() {
                assert(pair[i] == value[i - name.len() - 1]);
                assert(value.contains(value[i - name.len() - 1]));
            }
        }
    }
    wording::law_a_text_is_cut_at_the_mark(pair, '&', rest);
    wording::law_a_text_is_cut_at_the_mark(name, '=', value);
    let all = seq![pair] + text::pieces(rest, '&');
    assert(all[0] == pair);
    assert(all.skip(1) =~= text::pieces(rest, '&'));
}

/// The words are sent whole with their tag, and where the reader holds that tag
/// nothing but the tag is.
pub proof fn law_words_are_sent_once(body: Seq<char>, digest: Seq<char>, held: Option<Seq<char>>)
    ensures
        ({
            let tag = seq!['"'] + digest + seq!['"'];
            let res = words::words_res(body, digest, held);
            &&& res.etag == Some(tag)
            &&& held == Some(tag) ==> res.status == 304 && res.body.len() == 0
            &&& held != Some(tag) ==> res.status == 200 && res.body == body
            &&& res.content_type == "application/json"@
        }),
{
    reveal_strlit("\"");
    reveal_strlit("");
    assert("\""@ =~= seq!['"']);
}

/// A language chosen in a form is remembered in the cookie.
pub proof fn law_a_chosen_language_is_remembered(
    public: Option<&crate::config::PublicConfig>,
    body: Seq<char>,
    l: Locale,
)
    requires
        forms::form_map(body).dom().contains("lang"@),
        forms::form_map(body)["lang"@] == code(l),
    ensures
        ({
            let res = words::language_res(public, body);
            &&& res.status == 200
            &&& res.asset == Some(Asset::Index)
            &&& res.set_cookie == Some(cookies::language_words(l, cookies::secured(public)))
        }),
{
    reveal_strlit("en");
    reveal_strlit("fr");
    assert("en"@[0] != "fr"@[0]);
}

/// A form that chooses no language there is chooses English.
pub proof fn law_no_choice_is_english(body: Seq<char>)
    requires
        forms::form_map(body).dom().contains("lang"@) ==> forms::form_map(body)["lang"@] != "fr"@,
    ensures
        words::form_locale(body) == Locale::En,
{
}

// ---------------------------------------------------------------------------
// Pages
// ---------------------------------------------------------------------------

/// Does a page hold this passage?
pub open spec fn says(page: Seq<char>, passage: Seq<char>) -> bool {
    exists|a: Seq<char>, b: Seq<char>| page == #[trigger] (a + passage + b)
}

proof fn lemma_a_code_is_plain(locale: Locale)
    ensures
        pages::escaped(i18n::locale_code(locale)) == code(locale),
{
    reveal_strlit("en");
    reveal_strlit("fr");
    let c = code(locale);
    reveal_with_fuel(pages::escaped, 3);
    assert(c.len() == 2);
    assert(c.drop_last().drop_last() =~= Seq::<char>::empty());
    assert(pages::escaped(c) =~= c);
}

/// Five characters are written as what stands for them in a document, and every
/// other as itself.
pub proof fn law_markup_is_written_as_text(s: Seq<char>, c: char)
    ensures
        pages::escaped(Seq::empty()) == Seq::<char>::empty(),
        pages::escaped(s.push(c)) == pages::escaped(s) + (if c == '&' {
            seq!['&', 'a', 'm', 'p', ';']
        } else if c == '<' {
            seq!['&', 'l', 't', ';']
        } else if c == '>' {
            seq!['&', 'g', 't', ';']
        } else if c == '"' {
            seq!['&', 'q', 'u', 'o', 't', ';']
        } else if c == '\'' {
            seq!['&', '#', '3', '9', ';']
        } else {
            seq![c]
        }),
{
    reveal_strlit("&amp;");
    reveal_strlit("&lt;");
    reveal_strlit("&gt;");
    reveal_strlit("&quot;");
    reveal_strlit("&#39;");
    assert("&amp;"@ =~= seq!['&', 'a', 'm', 'p', ';']);
    assert("&lt;"@ =~= seq!['&', 'l', 't', ';']);
    assert("&gt;"@ =~= seq!['&', 'g', 't', ';']);
    assert("&quot;"@ =~= seq!['&', 'q', 'u', 'o', 't', ';']);
    assert("&#39;"@ =~= seq!['&', '#', '3', '9', ';']);
    assert(s.push(c).drop_last() =~= s);
}

/// A document says what language it is in and what it is called, and holds what
/// it was made of.
pub proof fn law_a_document_holds_its_parts(locale: Locale, title: Seq<char>, body: Seq<char>)
    ensures
        ({
            let page = pages::document_text(locale, title, body);
            &&& ("<!doctype html><html lang=\""@ + code(locale) + "\">"@).is_prefix_of(page)
            &&& says(page, "<title>"@ + pages::escaped(title) + "</title>"@)
            &&& says(page, body)
        }),
{
    let page = pages::document_text(locale, title, body);
    let head = pages::HEAD@;
    let head2 = pages::HEAD_2@;
    let style = pages::STYLE@;
    let tail = pages::TAIL@;
    let lang = pages::escaped(i18n::locale_code(locale));
    let t = pages::escaped(title);
    reveal_strlit("<!doctype html><html lang=\"");
    lemma_a_code_is_plain(locale);
    reveal_strlit("\">");
    let opening = head + code(locale) + "\">"@;
    reveal_strlit(
        "\"><head><meta charset=\"utf-8\"><meta name=\"viewport\" content=\"width=device-width, initial-scale=1\"><title>",
    );
    assert(head2 =~= "\">"@ + head2.skip(2));
    assert(page =~= opening + (head2.skip(2) + t + style + body + tail));
    assert(page.take(opening.len() as int) =~= opening);
    let a = head + lang + head2 + t + style;
    assert(page =~= a + body + tail);
    assert(page == a + body + tail);
    reveal_strlit("<title>");
    reveal_strlit("</title>");
    reveal_strlit(
        "</title><style>body{font:16px/1.6 system-ui,sans-serif;margin:0;min-height:100vh;display:grid;place-items:center;text-align:center;background:#fbfaf8;color:#1a1a1a}main{max-width:32rem;padding:1.5rem}a{color:#3b5bdb}p{color:#555}button{font:inherit;font-weight:600;cursor:pointer;padding:.7rem 1.2rem;border:0;border-radius:.5rem;background:#3b5bdb;color:#fff}@media(prefers-color-scheme:dark){body{background:#16161a;color:#e8e6e3}a{color:#8da2fb}p{color:#a8a5a0}}</style></head><body><main>",
    );
    let n = head2.len() - 7;
    let m = head2.take(n);
    assert(head2 =~= m + "<title>"@);
    assert(style =~= "</title>"@ + style.skip(8));
    let front = head + lang + m;
    let back = style.skip(8) + body + tail;
    let shown = "<title>"@ + t + "</title>"@;
    assert(page =~= front + shown + back);
    assert(page == front + shown + back);
}

/// The page that a mailed link leads to asks first: its form is sent to the link's
/// own address, with the token it was opened with. The page for a link that did
/// not work says whether it was used, and where another can be asked for.
pub proof fn law_a_link_page_asks_or_explains(token: Seq<char>, locale: Locale, s: Strings)
    ensures
        says(
            pages::confirm_text(token, locale, s),
            "<form method=\"post\" action=\"/public/signin/"@ + pages::escaped(token)
                + "\"><button type=\"submit\">"@ + pages::escaped(s.confirm_submit@),
        ),
        says(pages::confirm_text(token, locale, s), pages::escaped(s.confirm_intro@)),
        says(pages::confirm_text(token, locale, s), pages::escaped(s.confirm_not_you@)),
        says(pages::failed_text(true, locale, s), pages::escaped(s.link_already_used@)),
        says(
            pages::failed_text(true, locale, s),
            "<a href=\"/public\">"@ + pages::escaped(s.link_already_used_link@),
        ),
        says(pages::failed_text(false, locale, s), pages::escaped(s.link_expired@)),
        says(
            pages::failed_text(false, locale, s),
            "<a href=\"/public/signin\">"@ + pages::escaped(s.link_ask_again@),
        ),
        says(
            pages::failed_text(true, locale, s),
            "<a href=\"/public/signin\">"@ + pages::escaped(s.link_ask_again@),
        ),
{
    lemma_confirm(token, locale, s);
    lemma_failed(true, locale, s);
    lemma_failed(false, locale, s);
}

proof fn lemma_says(a: Seq<char>, m: Seq<char>, b: Seq<char>)
    ensures
        says(a + m + b, m),
{
}

proof fn lemma_within(page: Seq<char>, middle: Seq<char>, m: Seq<char>)
    requires
        says(page, middle),
        says(middle, m),
    ensures
        says(page, m),
{
    let (a, b) = choose|a: Seq<char>, b: Seq<char>| page == #[trigger] (a + middle + b);
    let (c, d) = choose|c: Seq<char>, d: Seq<char>| middle == #[trigger] (c + m + d);
    assert(page =~= (a + c) + m + (d + b));
    assert(page == (a + c) + m + (d + b));
}

proof fn lemma_confirm(token: Seq<char>, locale: Locale, s: Strings)
    ensures
        says(
            pages::confirm_text(token, locale, s),
            "<form method=\"post\" action=\"/public/signin/"@ + pages::escaped(token)
                + "\"><button type=\"submit\">"@ + pages::escaped(s.confirm_submit@),
        ),
        says(pages::confirm_text(token, locale, s), pages::escaped(s.confirm_intro@)),
        says(pages::confirm_text(token, locale, s), pages::escaped(s.confirm_not_you@)),
{
    reveal_strlit("</p><form method=\"post\" action=\"");
    reveal_strlit("/public/signin/");
    reveal_strlit("<form method=\"post\" action=\"/public/signin/");
    let title = pages::escaped(s.confirm_title@);
    let intro = pages::escaped(s.confirm_intro@);
    let to = pages::escaped(token);
    let submit = pages::escaped(s.confirm_submit@);
    let note = pages::escaped(s.confirm_not_you@);
    let p1 = "<h1>"@;
    let p2 = "</h1><p>"@;
    let p3 = "</p><form method=\"post\" action=\""@;
    let p4 = "/public/signin/"@;
    let p5 = "\"><button type=\"submit\">"@;
    let p6 = "</button></form><p>"@;
    let p7 = "</p>"@;
    let body = p1 + title + p2 + intro + p3 + p4 + to + p5 + submit + p6 + note + p7;
    let page = pages::confirm_text(token, locale, s);
    law_a_document_holds_its_parts(locale, s.confirm_title@, body);
    lemma_says(p1 + title + p2, intro, p3 + p4 + to + p5 + submit + p6 + note + p7);
    assert(body =~= (p1 + title + p2) + intro + (p3 + p4 + to + p5 + submit + p6 + note + p7));
    lemma_within(page, body, intro);
    lemma_says(p1 + title + p2 + intro + p3 + p4 + to + p5 + submit + p6, note, p7);
    lemma_within(page, body, note);
    let open = "<form method=\"post\" action=\"/public/signin/"@;
    let close = p3.take(4);
    assert(p3 + p4 =~= close + open);
    let form = open + to + p5 + submit;
    let front = p1 + title + p2 + intro + close;
    assert(body =~= front + form + (p6 + note + p7));
    lemma_says(front, form, p6 + note + p7);
    lemma_within(page, body, form);
}

proof fn lemma_failed(used: bool, locale: Locale, s: Strings)
    ensures
        says(
            pages::failed_text(used, locale, s),
            "<a href=\"/public/signin\">"@ + pages::escaped(s.link_ask_again@),
        ),
        used ==> says(pages::failed_text(used, locale, s), pages::escaped(s.link_already_used@)),
        used ==> says(
            pages::failed_text(used, locale, s),
            "<a href=\"/public\">"@ + pages::escaped(s.link_already_used_link@),
        ),
        !used ==> says(pages::failed_text(used, locale, s), pages::escaped(s.link_expired@)),
{
    reveal_strlit("<p><a href=\"");
    reveal_strlit("<a href=\"");
    reveal_strlit("/public/signin");
    reveal_strlit("/public");
    reveal_strlit("\">");
    reveal_strlit("<a href=\"/public/signin\">");
    reveal_strlit("<a href=\"/public\">");
    let title = pages::escaped(s.link_failed_title@);
    let again = pages::escaped(s.link_ask_again@);
    let said = pages::failed_body(used, s);
    let page = pages::failed_text(used, locale, s);
    let p1 = "<h1>"@;
    let p2 = "</h1>"@;
    let p3 = "<p><a href=\""@;
    let p4 = "/public/signin"@;
    let p5 = "\">"@;
    let p6 = "</a></p>"@;
    let body = p1 + title + p2 + said + p3 + p4 + p5 + again + p6;
    law_a_document_holds_its_parts(locale, s.link_failed_title@, body);
    let link = "<a href=\"/public/signin\">"@;
    assert(p3 + p4 + p5 =~= p3.take(3) + link);
    let front = p1 + title + p2 + said + p3.take(3);
    assert(body =~= front + (link + again) + p6);
    lemma_says(front, link + again, p6);
    lemma_within(page, body, link + again);
    lemma_says(p1 + title + p2, said, p3 + p4 + p5 + again + p6);
    assert(body =~= (p1 + title + p2) + said + (p3 + p4 + p5 + again + p6));
    lemma_within(page, body, said);
    if used {
        let lead = pages::escaped(s.link_already_used@);
        let shown = pages::escaped(s.link_already_used_link@);
        let home = "<a href=\"/public\">"@;
        let q = "<p>"@;
        let e = "</a>.</p>"@;
        assert("<a href=\""@ + "/public"@ + "\">"@ =~= home);
        assert(said =~= q + lead + (home + shown + e));
        lemma_says(q, lead, home + shown + e);
        lemma_within(page, said, lead);
        assert(said =~= (q + lead) + (home + shown) + e);
        lemma_says(q + lead, home + shown, e);
        lemma_within(page, said, home + shown);
    } else {
        lemma_says("<p>"@, pages::escaped(s.link_expired@), "</p>"@);
        lemma_within(page, said, pages::escaped(s.link_expired@));
    }
}

} // verus!
