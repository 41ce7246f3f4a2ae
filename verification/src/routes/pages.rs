//! The document a sign-in link lands on, and the two it can fail into.
//!
//! They are reached from outside, from a mail client that may never have seen
//! this site, so each is whole on arrival.

use vstd::prelude::*;
use vstd::string::*;

use crate::i18n;
use crate::i18n::{Locale, Strings};
use crate::routes::public_route;
use crate::text;
use crate::text::chars_of;

verus! {

/// The document before its language.
pub const HEAD: &'static str = "<!doctype html><html lang=\"";

/// From its language to its title.
pub const HEAD_2: &'static str = "\"><head><meta charset=\"utf-8\"><meta name=\"viewport\" content=\"width=device-width, initial-scale=1\"><title>";

/// From its title to its body, with the stylesheet.
pub const STYLE: &'static str = "</title><style>body{font:16px/1.6 system-ui,sans-serif;margin:0;min-height:100vh;display:grid;place-items:center;text-align:center;background:#fbfaf8;color:#1a1a1a}main{max-width:32rem;padding:1.5rem}a{color:#3b5bdb}p{color:#555}button{font:inherit;font-weight:600;cursor:pointer;padding:.7rem 1.2rem;border:0;border-radius:.5rem;background:#3b5bdb;color:#fff}@media(prefers-color-scheme:dark){body{background:#16161a;color:#e8e6e3}a{color:#8da2fb}p{color:#a8a5a0}}</style></head><body><main>";

/// Behind its body.
pub const TAIL: &'static str = "</main></body></html>";

/// One character, as a document spells it.
pub open spec fn escaped_char(c: char) -> Seq<char> {
    if c == '&' {
        "&amp;"@
    } else if c == '<' {
        "&lt;"@
    } else if c == '>' {
        "&gt;"@
    } else if c == '"' {
        "&quot;"@
    } else if c == '\'' {
        "&#39;"@
    } else {
        seq![c]
    }
}

/// A text, as a document spells it.
pub open spec fn escaped(s: Seq<char>) -> Seq<char>
    decreases s.len(),
{
    if s.len() == 0 {
        Seq::empty()
    } else {
        escaped(s.drop_last()) + escaped_char(s.last())
    }
}

/// Can this character end a text or an attribute, or begin a tag?
pub open spec fn is_markup(c: char) -> bool {
    c == '<' || c == '>' || c == '"' || c == '\''
}

/// What was escaped holds nothing that could begin a tag or end an attribute,
/// whatever it was.
pub proof fn law_escaped_text_holds_no_markup(s: Seq<char>)
    ensures
        forall|i: int| 0 <= i < escaped(s).len() ==> !is_markup(#[trigger] escaped(s)[i]),
    decreases s.len(),
{
    if s.len() > 0 {
        law_escaped_text_holds_no_markup(s.drop_last());
        reveal_strlit("&amp;");
        reveal_strlit("&lt;");
        reveal_strlit("&gt;");
        reveal_strlit("&quot;");
        reveal_strlit("&#39;");
        let before = escaped(s.drop_last());
        let last = escaped_char(s.last());
        assert forall|i: int| 0 <= i < escaped(s).len() implies !is_markup(
            #[trigger] escaped(s)[i],
        ) by {
            if i < before.len() {
                assert(escaped(s)[i] == before[i]);
            } else {
                assert(escaped(s)[i] == last[i - before.len()]);
            }
        }
    }
}

/// The character that the escape at the front of a text stands for, and how long
/// the escape is.
pub open spec fn escape_at_front(s: Seq<char>) -> Option<(char, int)> {
    if "&amp;"@.is_prefix_of(s) {
        Some(('&', 5))
    } else if "&lt;"@.is_prefix_of(s) {
        Some(('<', 4))
    } else if "&gt;"@.is_prefix_of(s) {
        Some(('>', 4))
    } else if "&quot;"@.is_prefix_of(s) {
        Some(('"', 6))
    } else if "&#39;"@.is_prefix_of(s) {
        Some(('\'', 5))
    } else {
        None
    }
}

/// A text with its escapes undone, from the front.
pub open spec fn unescaped(s: Seq<char>) -> Seq<char>
    decreases s.len(),
{
    if s.len() == 0 {
        Seq::empty()
    } else {
        match escape_at_front(s) {
            Some((c, n)) => {
                proof {
                    reveal_strlit("&amp;");
                    reveal_strlit("&lt;");
                    reveal_strlit("&gt;");
                    reveal_strlit("&quot;");
                    reveal_strlit("&#39;");
                }
                seq![c] + unescaped(s.skip(n))
            },
            None => seq![s[0]] + unescaped(s.skip(1)),
        }
    }
}

proof fn lemma_escaped_from_the_front(s: Seq<char>)
    requires
        s.len() > 0,
    ensures
        escaped(s) == escaped_char(s[0]) + escaped(s.skip(1)),
    decreases s.len(),
{
    if s.len() == 1 {
        assert(s.drop_last() =~= Seq::<char>::empty());
        assert(s.skip(1) =~= Seq::<char>::empty());
        assert(escaped(s) =~= escaped_char(s[0]) + escaped(s.skip(1)));
    } else {
        let t = s.drop_last();
        lemma_escaped_from_the_front(t);
        assert(s.skip(1).drop_last() =~= t.skip(1));
        assert(s.skip(1).last() == s.last());
        assert(escaped(s) =~= escaped_char(s[0]) + escaped(s.skip(1)));
    }
}

/// Undoing the escapes gives the text back, whatever it was: a reader sees what
/// was meant, and no two texts are spelled alike.
pub proof fn law_escaped_text_reads_back(s: Seq<char>)
    ensures
        unescaped(escaped(s)) == s,
    decreases s.len(),
{
    if s.len() > 0 {
        let rest = s.skip(1);
        let front = escaped_char(s[0]);
        let e = escaped(s);
        lemma_escaped_from_the_front(s);
        law_escaped_text_reads_back(rest);
        reveal_strlit("&amp;");
        reveal_strlit("&lt;");
        reveal_strlit("&gt;");
        reveal_strlit("&quot;");
        reveal_strlit("&#39;");
        assert(e.skip(front.len() as int) =~= escaped(rest));
        assert(e.take(front.len() as int) =~= front);
        assert(front.len() > 0 && e[0] == front[0]);
        if front.len() > 1 {
            assert(e[1] == front[1]);
            assert(front.is_prefix_of(e));
        }
        assert(seq![s[0]] + rest =~= s);
    } else {
        assert(unescaped(escaped(s)) =~= s);
    }
}

/// Escape for the text of a document and for its attributes.
pub fn esc(s: &str) -> (r: String)
    ensures
        r@ == escaped(s@),
{
    let chars = chars_of(s);
    let mut out = "".to_owned();
    let mut i: usize = 0;
    proof {
        reveal_strlit("");
    }
    assert(out@ =~= escaped(s@.take(0)));
    while i < chars.len()
        invariant
            chars@ == s@,
            i <= chars@.len(),
            out@ == escaped(s@.take(i as int)),
        decreases chars@.len() - i,
    {
        assert(s@.take(i + 1).drop_last() =~= s@.take(i as int));
        let c = chars[i];
        if c == '&' {
            out = out.concat("&amp;");
        } else if c == '<' {
            out = out.concat("&lt;");
        } else if c == '>' {
            out = out.concat("&gt;");
        } else if c == '"' {
            out = out.concat("&quot;");
        } else if c == '\'' {
            out = out.concat("&#39;");
        } else {
            out.push(c);
            assert(out@ =~= escaped(s@.take(i as int)) + seq![c]);
        }
        i = i + 1;
    }
    assert(s@.take(i as int) =~= s@);
    out
}

/// A body wrapped in the document.
pub open spec fn document_text(locale: Locale, title: Seq<char>, body: Seq<char>) -> Seq<char> {
    HEAD@ + escaped(i18n::locale_code(locale)) + HEAD_2@ + escaped(title) + STYLE@ + body + TAIL@
}

/// Wrap a body in the document.
pub fn link_document(locale: Locale, title: &str, body: &str) -> (r: String)
    ensures
        r@ == document_text(locale, title@, body@),
{
    let lang = esc(locale.code());
    let shown = esc(title);
    HEAD.to_owned().concat(lang.as_str()).concat(HEAD_2).concat(shown.as_str()).concat(
        STYLE,
    ).concat(body).concat(TAIL)
}

/// The page that asks before a link is spent.
pub open spec fn confirm_text(token: Seq<char>, locale: Locale, s: Strings) -> Seq<char> {
    document_text(
        locale,
        s.confirm_title@,
        "<h1>"@ + escaped(s.confirm_title@) + "</h1><p>"@ + escaped(s.confirm_intro@)
            + "</p><form method=\"post\" action=\""@ + public_route::SIGNIN_PREFIX@ + escaped(token)
            + "\"><button type=\"submit\">"@ + escaped(s.confirm_submit@)
            + "</button></form><p>"@ + escaped(s.confirm_not_you@) + "</p>"@,
    )
}

/// Ask before spending a link. A button rather than a redirect: whatever fetches
/// every address in a message must not spend it.
pub fn signin_confirm_page(token: &str, locale: Locale, s: &Strings) -> (r: String)
    ensures
        r@ == confirm_text(token@, locale, *s),
{
    let title = esc(s.confirm_title.as_str());
    let intro = esc(s.confirm_intro.as_str());
    let shown = esc(token);
    let submit = esc(s.confirm_submit.as_str());
    let note = esc(s.confirm_not_you.as_str());
    let body = "<h1>".to_owned().concat(title.as_str()).concat("</h1><p>").concat(
        intro.as_str(),
    ).concat("</p><form method=\"post\" action=\"").concat(public_route::SIGNIN_PREFIX).concat(
        shown.as_str(),
    ).concat("\"><button type=\"submit\">").concat(submit.as_str()).concat(
        "</button></form><p>",
    ).concat(note.as_str()).concat("</p>");
    link_document(locale, s.confirm_title.as_str(), body.as_str())
}

/// What a failed sign-in says.
pub open spec fn failed_body(already_used: bool, s: Strings) -> Seq<char> {
    if already_used {
        "<p>"@ + escaped(s.link_already_used@) + "<a href=\""@ + public_route::FILE@ + "\">"@
            + escaped(s.link_already_used_link@) + "</a>.</p>"@
    } else {
        "<p>"@ + escaped(s.link_expired@) + "</p>"@
    }
}

/// The page for a link that could not be spent.
pub open spec fn failed_text(already_used: bool, locale: Locale, s: Strings) -> Seq<char> {
    document_text(
        locale,
        s.link_failed_title@,
        "<h1>"@ + escaped(s.link_failed_title@) + "</h1>"@ + failed_body(already_used, s)
            + "<p><a href=\""@ + public_route::SIGNIN@ + "\">"@ + escaped(s.link_ask_again@)
            + "</a></p>"@,
    )
}

/// A link that could not be spent. A second click is told apart from any other
/// failure: to somebody whose sign-in worked, "invalid" reads as a fault.
pub fn signin_failed_page(already_used: bool, locale: Locale, s: &Strings) -> (r: String)
    ensures
        r@ == failed_text(already_used, locale, *s),
{
    let said = if already_used {
        let lead = esc(s.link_already_used.as_str());
        let link = esc(s.link_already_used_link.as_str());
        "<p>".to_owned().concat(lead.as_str()).concat("<a href=\"").concat(
            public_route::FILE,
        ).concat("\">").concat(link.as_str()).concat("</a>.</p>")
    } else {
        let expired = esc(s.link_expired.as_str());
        "<p>".to_owned().concat(expired.as_str()).concat("</p>")
    };
    let title = esc(s.link_failed_title.as_str());
    let again = esc(s.link_ask_again.as_str());
    let body = "<h1>".to_owned().concat(title.as_str()).concat("</h1>").concat(
        said.as_str(),
    ).concat("<p><a href=\"").concat(public_route::SIGNIN).concat("\">").concat(
        again.as_str(),
    ).concat("</a></p>");
    link_document(locale, s.link_failed_title.as_str(), body.as_str())
}

} // verus!
