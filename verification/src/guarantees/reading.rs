//! What a request carries: its fields, its query, its headers and its cookies.

use vstd::prelude::*;
use vstd::string::*;

use crate::guarantees::wording;
use crate::json;
use crate::json::FieldView;
use crate::routes::forms;
use crate::routes::http;
use crate::routes::http::ReqView;
use crate::serve;
use crate::text;

verus! {

// ---------------------------------------------------------------------------
// Fields
// ---------------------------------------------------------------------------

/// A field is the first with its name, wherever it stands, and absent where none
/// has it.
pub proof fn law_a_field_is_found_by_its_name(
    fields: Seq<(Seq<char>, FieldView)>,
    key: Seq<char>,
    i: int,
)
    requires
        0 <= i <= fields.len(),
        forall|j: int| 0 <= j < i ==> (#[trigger] fields[j]).0 != key,
    ensures
        i == fields.len() ==> json::field(fields, key) is None,
        i < fields.len() && fields[i].0 == key ==> json::field(fields, key) == Some(fields[i].1),
    decreases fields.len(),
{
    if fields.len() > 0 && i > 0 {
        assert(fields[0].0 != key);
        let rest = fields.skip(1);
        assert forall|j: int| 0 <= j < i - 1 implies (#[trigger] rest[j]).0 != key by {
            assert(rest[j] == fields[j + 1]);
        }
        law_a_field_is_found_by_its_name(rest, key, i - 1);
        if i < fields.len() {
            assert(rest[i - 1] == fields[i]);
        }
    }
}

/// A field is read as what it is: a text as that text, a flag as that flag, a
/// number as that number, and anything else as nothing.
pub proof fn law_a_field_is_read_as_what_it_is(
    fields: Seq<(Seq<char>, FieldView)>,
    key: Seq<char>,
    s: Seq<char>,
    b: bool,
    n: u64,
)
    ensures
        json::field(fields, key) == Some(FieldView::Text(s)) ==> json::text_field(fields, key)
            == Some(s) && json::text_or_empty(fields, key) == s && json::flag_field(fields, key)
            is None && json::number_field(fields, key) is None,
        json::field(fields, key) == Some(FieldView::Flag(b)) ==> json::flag_field(fields, key)
            == Some(b) && json::text_field(fields, key) is None && json::text_or_empty(
            fields,
            key,
        ).len() == 0 && json::number_field(fields, key) is None,
        json::field(fields, key) == Some(FieldView::Number(Some(n))) ==> json::number_field(
            fields,
            key,
        ) == Some(n) && json::text_field(fields, key) is None && json::flag_field(fields, key)
            is None,
        json::field(fields, key) is None ==> json::text_field(fields, key) is None
            && json::text_or_empty(fields, key).len() == 0 && json::flag_field(fields, key) is None
            && json::number_field(fields, key) is None && json::trimmed_list(fields, key).len()
            == 0,
{
}

/// A list holds the texts that were listed, each without the space around it, in
/// their order, and what is no text is passed over.
pub proof fn law_a_list_is_read_in_order(v: Seq<Option<Seq<char>>>, item: Option<Seq<char>>)
    ensures
        json::trimmed_some(Seq::empty()) == Seq::<Seq<char>>::empty(),
        json::trimmed_some(v.push(item)) == (match item {
            Some(s) => json::trimmed_some(v).push(text::trimmed(s)),
            None => json::trimmed_some(v),
        }),
{
    assert(v.push(item).drop_last() =~= v);
}

/// A listed text is read, and what is read was listed.
pub proof fn law_what_is_listed_is_read(
    fields: Seq<(Seq<char>, FieldView)>,
    key: Seq<char>,
    v: Seq<Option<Seq<char>>>,
    item: Seq<char>,
)
    requires
        json::field(fields, key) == Some(FieldView::List(v)),
    ensures
        json::trimmed_list(fields, key).contains(item) <==> exists|k: int|
            0 <= k < v.len() && ((#[trigger] v[k]) matches Some(s) && text::trimmed(s) == item),
{
    lemma_listed(v, item);
}

proof fn lemma_listed(v: Seq<Option<Seq<char>>>, item: Seq<char>)
    ensures
        json::trimmed_some(v).contains(item) <==> exists|k: int|
            0 <= k < v.len() && ((#[trigger] v[k]) matches Some(s) && text::trimmed(s) == item),
    decreases v.len(),
{
    let all = json::trimmed_some(v);
    if v.len() > 0 {
        let d = v.drop_last();
        let before = json::trimmed_some(d);
        lemma_listed(d, item);
        if all.contains(item) {
            let i = choose|i: int| 0 <= i < all.len() && all[i] == item;
            if i < before.len() {
                assert(before[i] == item);
                assert(before.contains(item));
                let k = choose|k: int|
                    0 <= k < d.len() && ((#[trigger] d[k]) matches Some(s) && text::trimmed(s)
                        == item);
                assert(v[k] == d[k]);
            } else {
                assert(v[v.len() - 1] == v.last());
            }
        }
        if exists|k: int|
            0 <= k < v.len() && ((#[trigger] v[k]) matches Some(s) && text::trimmed(s) == item) {
            let k = choose|k: int|
                0 <= k < v.len() && ((#[trigger] v[k]) matches Some(s) && text::trimmed(s) == item);
            if k < d.len() {
                assert(d[k] == v[k]);
                assert(before.contains(item));
                let i = choose|i: int| 0 <= i < before.len() && before[i] == item;
                assert(all[i] == item);
            } else {
                assert(all[all.len() - 1] == item);
            }
        }
    }
}

/// A body that holds nothing but whitespace is a body with no fields; any other
/// is what it spells.
pub proof fn law_a_blank_body_has_no_fields(body: Seq<char>, sent: json::Sent)
    ensures
        wording::all_white(body) ==> json::fields_unless_blank(body, sent) == Ok::<
            Seq<(Seq<char>, FieldView)>,
            Seq<char>,
        >(Seq::empty()),
        text::trimmed(body).len() > 0 ==> json::fields_unless_blank(body, sent) == sent,
{
    if wording::all_white(body) {
        let none = Seq::<char>::empty();
        wording::law_trimming_takes_the_space_around(body, none, none);
        assert(body + none + none =~= body);
    }
}

// ---------------------------------------------------------------------------
// The query and forms
// ---------------------------------------------------------------------------

/// A machine declares a repository with each `repo=` of its query, in their
/// order; anything else in the query declares none, and no query none at all.
pub proof fn law_each_repo_in_the_query_is_declared(
    path: Seq<char>,
    query: Seq<char>,
    name: Seq<char>,
    value: Seq<char>,
)
    requires
        !path.contains('?'),
        !value.contains('&'),
        !name.contains('&'),
        !name.contains('='),
    ensures
        forms::declared_repos(path) == Seq::<Seq<char>>::empty(),
        forms::declared_repos(path + seq!['?'] + "repo="@ + value) == seq![forms::decoded(value)],
        forms::declared_repos(path + seq!['?'] + query + "&repo="@ + value) == forms::declared_repos(
            path + seq!['?'] + query,
        ).push(forms::decoded(value)),
        name != "repo"@ ==> forms::declared_repos(
            path + seq!['?'] + query + "&"@ + name + "="@ + value,
        ) == forms::declared_repos(path + seq!['?'] + query),
        forms::declared_repos(path + seq!['?'] + query + "&"@ + name) == forms::declared_repos(
            path + seq!['?'] + query,
        ),
{
    reveal_strlit("repo");
    reveal_strlit("repo=");
    reveal_strlit("&repo=");
    reveal_strlit("&");
    reveal_strlit("=");
    wording::law_a_text_is_cut_at_the_mark(path, '?', query);
    wording::law_a_text_is_cut_at_the_mark(path, '?', "repo="@ + value);
    assert(path + seq!['?'] + "repo="@ + value =~= path + seq!['?'] + ("repo="@ + value));
    let one = "repo"@ + seq!['='] + value;
    assert("repo="@ + value =~= one);
    lemma_no_mark("repo"@, value, '&');
    lemma_declared(Seq::empty(), one);
    assert(Seq::<Seq<char>>::empty().push(one) =~= seq![one]);
    wording::law_a_text_is_cut_at_the_mark(one, '&', Seq::empty());
    wording::law_a_text_is_cut_at_the_mark("repo"@, '=', value);
    // One more behind.
    let more = query + seq!['&'] + one;
    assert(path + seq!['?'] + query + "&repo="@ + value =~= path + seq!['?'] + more);
    wording::law_a_text_is_cut_at_the_mark(path, '?', more);
    lemma_pieces_push(query, '&', one);
    lemma_declared(text::pieces(query, '&'), one);
    // Something else behind.
    let other = name + seq!['='] + value;
    let with_other = query + seq!['&'] + other;
    assert(path + seq!['?'] + query + "&"@ + name + "="@ + value =~= path + seq!['?'] + with_other);
    wording::law_a_text_is_cut_at_the_mark(path, '?', with_other);
    lemma_no_mark(name, value, '&');
    lemma_pieces_push(query, '&', other);
    wording::law_a_text_is_cut_at_the_mark(name, '=', value);
    lemma_declared(text::pieces(query, '&'), other);
    let bare = query + seq!['&'] + name;
    assert(path + seq!['?'] + query + "&"@ + name =~= path + seq!['?'] + bare);
    wording::law_a_text_is_cut_at_the_mark(path, '?', bare);
    lemma_pieces_push(query, '&', name);
    lemma_declared(text::pieces(query, '&'), name);
}

proof fn lemma_no_mark(a: Seq<char>, b: Seq<char>, c: char)
    requires
        !a.contains(c),
        !b.contains(c),
        c != '=',
    ensures
        !(a + seq!['='] + b).contains(c),
{
    let s = a + seq!['='] + b;
    assert forall|i: int| 0 <= i < s.len() implies s[i] != c by {
        if i < a.len() {
            assert(s[i] == a[i]);
            assert(a.contains(a[i]));
        } else if i > a.len() {
            assert(s[i] == b[i - a.len() - 1]);
            assert(b.contains(b[i - a.len() - 1]));
        }
    }
}

proof fn lemma_declared(pieces: Seq<Seq<char>>, piece: Seq<char>)
    ensures
        forms::declared_in(pieces.push(piece)) == (match text::split_at_first(piece, '=') {
            Some((k, v)) => if k == "repo"@ {
                forms::declared_in(pieces).push(forms::decoded(v))
            } else {
                forms::declared_in(pieces)
            },
            None => forms::declared_in(pieces),
        }),
{
    assert(pieces.push(piece).drop_last() =~= pieces);
}

proof fn lemma_pieces_push(s: Seq<char>, c: char, last: Seq<char>)
    requires
        !last.contains(c),
    ensures
        text::pieces(s + seq![c] + last, c) == text::pieces(s, c).push(last),
    decreases s.len(),
{
    let whole = s + seq![c] + last;
    s.index_of_first_ensures(c);
    if s.contains(c) {
        let i = s.index_of_first(c).unwrap();
        let a = s.take(i);
        let b = s.skip(i + 1);
        assert(s =~= a + seq![c] + b);
        assert(!a.contains(c)) by {
            assert forall|j: int| 0 <= j < a.len() implies a[j] != c by {
                assert(a[j] == s[j]);
            }
        }
        lemma_pieces_push(b, c, last);
        assert(whole =~= a + seq![c] + (b + seq![c] + last));
        wording::law_a_text_is_cut_at_the_mark(a, c, b + seq![c] + last);
        wording::law_a_text_is_cut_at_the_mark(a, c, b);
        assert(seq![a] + text::pieces(b, c).push(last) =~= (seq![a] + text::pieces(b, c)).push(
            last,
        ));
    } else {
        wording::law_a_text_is_cut_at_the_mark(s, c, last);
        wording::law_a_text_is_cut_at_the_mark(last, c, last);
        assert(seq![s] + seq![last] =~= seq![s].push(last));
    }
}

/// The fields of a form: a later one stands in place of an earlier with its key,
/// every other stays, and an empty piece is none.
pub proof fn law_a_form_holds_its_last_fields(
    body: Seq<char>,
    name: Seq<char>,
    value: Seq<char>,
    key: Seq<char>,
)
    requires
        !name.contains('&'),
        !name.contains('='),
        !value.contains('&'),
    ensures
        ({
            let after = forms::form_map(body + "&"@ + name + "="@ + value);
            &&& after.dom().contains(forms::decoded(name))
            &&& after[forms::decoded(name)] == forms::decoded(value)
            &&& key != forms::decoded(name) ==> after.dom().contains(key) == forms::form_map(
                body,
            ).dom().contains(key)
            &&& key != forms::decoded(name) && after.dom().contains(key) ==> after[key]
                == forms::form_map(body)[key]
        }),
        forms::form_map(body + "&"@) == forms::form_map(body),
        forms::form_map(Seq::empty()) == Map::<Seq<char>, Seq<char>>::empty(),
{
    reveal_strlit("&");
    reveal_strlit("=");
    let pair = name + seq!['='] + value;
    let none = Seq::<char>::empty();
    lemma_no_mark(name, value, '&');
    lemma_pieces_push(body, '&', pair);
    assert(body + "&"@ + name + "="@ + value =~= body + seq!['&'] + pair);
    let before = text::pieces(body, '&');
    assert(before.push(pair).drop_last() =~= before);
    wording::law_a_text_is_cut_at_the_mark(name, '=', value);
    lemma_pieces_push(body, '&', none);
    assert(body + "&"@ =~= body + seq!['&'] + none);
    assert(before.push(none).drop_last() =~= before);
    wording::law_a_text_is_cut_at_the_mark(none, '&', none);
    assert(seq![none].drop_last() =~= Seq::<Seq<char>>::empty());
    reveal_with_fuel(forms::form_of, 2);
}

/// A plus is a space; a percent sign with two hexadecimal digits behind it is the
/// byte that they count, and anything else stands for itself.
pub proof fn law_an_escape_is_one_byte(rest: Seq<u8>, b: u8, h: u8, l: u8)
    requires
        0x30 <= h <= 0x39,
        0x30 <= l <= 0x39,
        b != 0x2b,
        b != 0x25,
    ensures
        forms::unescaped(seq![0x2bu8] + rest) == seq![0x20u8] + forms::unescaped(rest),
        forms::unescaped(seq![b] + rest) == seq![b] + forms::unescaped(rest),
        forms::unescaped(seq![0x25u8, h, l] + rest) == seq![
            (16 * (h - 0x30) + (l - 0x30)) as u8,
        ] + forms::unescaped(rest),
{
    assert((seq![0x2bu8] + rest).skip(1) =~= rest);
    assert((seq![b] + rest).skip(1) =~= rest);
    assert((seq![0x25u8, h, l] + rest).skip(3) =~= rest);
}

// ---------------------------------------------------------------------------
// Headers
// ---------------------------------------------------------------------------

/// What comes off the wire is kept as it came: the method, the address and the
/// body; with no header nothing else is there.
pub proof fn law_a_request_starts_bare(method: Seq<char>, path: Seq<char>, body: Seq<char>)
    ensures
        ({
            let r = serve::with_headers(http::bare(method, path, body), Seq::empty());
            &&& r.method == method
            &&& r.path == path
            &&& r.body == body
            &&& r.bearer is None
            &&& r.cookie_token is None
            &&& r.cookie_setup is None
            &&& r.cookie_lang is None
            &&& r.accept_language is None
            &&& r.if_none_match is None
            &&& r.origin is None
            &&& r.content_type is None
        }),
{
}

/// Each header that is used is kept under its own name, however that is
/// capitalised, the last of several; any other changes nothing.
pub proof fn law_a_header_is_kept_under_its_name(
    r: ReqView,
    h: Seq<(Seq<char>, Seq<char>)>,
    name: Seq<char>,
    value: Seq<char>,
)
    ensures
        ({
            let before = serve::with_headers(r, h);
            let after = serve::with_headers(r, h.push((name, value)));
            let n = text::lower(name);
            &&& n == "authorization"@ ==> after == (ReqView {
                bearer: serve::bearer_in(value),
                ..before
            })
            &&& n == "cookie"@ ==> after == (ReqView {
                cookie_token: serve::cookie_of(value, "sc_device"@),
                cookie_setup: serve::cookie_of(value, "sc_setup"@),
                cookie_lang: serve::cookie_of(value, "sc_lang"@),
                ..before
            })
            &&& n == "accept-language"@ ==> after == (ReqView {
                accept_language: Some(value),
                ..before
            })
            &&& n == "if-none-match"@ ==> after == (ReqView {
                if_none_match: Some(value),
                ..before
            })
            &&& n == "origin"@ ==> after == (ReqView { origin: Some(value), ..before })
            &&& n == "content-type"@ ==> after == (ReqView { content_type: Some(value), ..before })
            &&& n != "authorization"@ && n != "cookie"@ && n != "accept-language"@ && n
                != "if-none-match"@ && n != "origin"@ && n != "content-type"@ ==> after == before
        }),
{
    assert(h.push((name, value)).drop_last() =~= h);
    reveal_strlit("authorization");
    reveal_strlit("cookie");
    reveal_strlit("accept-language");
    reveal_strlit("if-none-match");
    reveal_strlit("origin");
    reveal_strlit("content-type");
    assert("authorization"@.len() == 13 && "accept-language"@.len() == 15);
    assert("if-none-match"@.len() == 13 && "if-none-match"@[0] == 'i' && "authorization"@[0] == 'a');
    assert("cookie"@.len() == 6 && "origin"@.len() == 6 && "content-type"@.len() == 12);
    assert("cookie"@[0] == 'c' && "origin"@[0] == 'o');
}

/// A bearer token is what stands behind the word, without the space around it;
/// without the word there is none.
pub proof fn law_a_bearer_token_is_read(a: Seq<char>, token: Seq<char>, b: Seq<char>)
    requires
        wording::all_white(a),
        wording::all_white(b),
        token.len() == 0 || (!text::is_white(token[0]) && !text::is_white(token.last())),
    ensures
        serve::bearer_in("Bearer "@ + a + token + b) == Some(token),
        serve::bearer_in("bearer "@ + a + token + b) == Some(token),
        !"Bearer "@.is_prefix_of(a) && !"bearer "@.is_prefix_of(a) ==> serve::bearer_in(a) is None,
{
    wording::law_trimming_takes_the_space_around(a, token, b);
    reveal_strlit("Bearer ");
    reveal_strlit("bearer ");
    let rest = a + token + b;
    let big = "Bearer "@ + a + token + b;
    let small = "bearer "@ + a + token + b;
    assert(big.take(7) =~= "Bearer "@);
    assert(big.skip(7) =~= rest);
    assert(small.take(7) =~= "bearer "@);
    assert(small.skip(7) =~= rest);
    assert(small[0] == 'b' && "Bearer "@[0] == 'B');
}

/// Does this part of a header give a cookie a value?
pub open spec fn gives(part: Seq<char>, name: Seq<char>, value: Seq<char>) -> bool {
    exists|a: Seq<char>, b: Seq<char>, c: Seq<char>, d: Seq<char>|
        #![trigger a + name + b + seq!['='] + c + value + d]
        wording::all_white(a) && wording::all_white(b) && wording::all_white(c)
            && wording::all_white(d) && part == a + name + b + seq!['='] + c + value + d
}

/// A cookie is read from the first part that names it, without the space around
/// its name and its value; a part that names another is passed over.
pub proof fn law_the_first_cookie_with_the_name_counts(
    part: Seq<char>,
    rest: Seq<char>,
    name: Seq<char>,
    other: Seq<char>,
    value: Seq<char>,
)
    requires
        !part.contains(';'),
        other.len() > 0,
        !text::is_white(other[0]),
        !text::is_white(other.last()),
        !other.contains('='),
        value.len() == 0 || (!text::is_white(value[0]) && !text::is_white(value.last())),
        gives(part, other, value),
    ensures
        other == name ==> serve::cookie_of(part, name) == Some(value),
        other == name ==> serve::cookie_of(part + seq![';'] + rest, name) == Some(value),
        other != name ==> serve::cookie_of(part, name) is None,
        other != name ==> serve::cookie_of(part + seq![';'] + rest, name) == serve::cookie_of(
            rest,
            name,
        ),
        serve::cookie_of(Seq::empty(), name) is None,
{
    let (a, b, c, d) = choose|a: Seq<char>, b: Seq<char>, c: Seq<char>, d: Seq<char>|
        #![trigger a + other + b + seq!['='] + c + value + d]
        wording::all_white(a) && wording::all_white(b) && wording::all_white(c)
            && wording::all_white(d) && part == a + other + b + seq!['='] + c + value + d;
    lemma_cookie_part(a, other, b, c, value, d, name);
    wording::law_a_text_is_cut_at_the_mark(part, ';', rest);
    let none = Seq::<char>::empty();
    wording::law_a_text_is_cut_at_the_mark(none, ';', none);
    wording::law_a_text_is_cut_at_the_mark(none, '=', none);
    reveal_with_fuel(serve::first_cookie, 2);
    assert((seq![part] + text::pieces(rest, ';')).skip(1) =~= text::pieces(rest, ';'));
    assert(seq![part].skip(1) =~= Seq::<Seq<char>>::empty());
    assert(seq![none].skip(1) =~= Seq::<Seq<char>>::empty());
    assert(text::trimmed(none) =~= none);
}

proof fn lemma_cookie_part(
    a: Seq<char>,
    other: Seq<char>,
    b: Seq<char>,
    c: Seq<char>,
    value: Seq<char>,
    d: Seq<char>,
    name: Seq<char>,
)
    requires
        wording::all_white(a),
        wording::all_white(b),
        wording::all_white(c),
        wording::all_white(d),
        other.len() > 0,
        !text::is_white(other[0]),
        !text::is_white(other.last()),
        !other.contains('='),
        value.len() == 0 || (!text::is_white(value[0]) && !text::is_white(value.last())),
    ensures
        serve::cookie_in(a + other + b + seq!['='] + c + value + d, name) == (if other == name {
            Some(value)
        } else {
            None
        }),
{
    let none = Seq::<char>::empty();
    let part = a + other + b + seq!['='] + c + value + d;
    let k = other + b;
    assert(!k.contains('=')) by {
        assert forall|i: int| 0 <= i < k.len() implies k[i] != '=' by {
            if i < other.len() {
                assert(k[i] == other[i]);
                assert(other.contains(other[i]));
            } else {
                assert(k[i] == b[i - other.len()]);
            }
        }
    }
    wording::law_trimming_takes_the_space_around(none, other, b);
    assert(none + other + b =~= k);
    if value.len() == 0 {
        // The space behind an empty value is the space around the whole.
        let core = k + seq!['='];
        let tail = c + d;
        assert forall|i: int| 0 <= i < tail.len() implies text::is_white(#[trigger] tail[i]) by {
            if i < c.len() {
                assert(tail[i] == c[i]);
            } else {
                assert(tail[i] == d[i - c.len()]);
            }
        }
        assert(core[0] == other[0]);
        assert(core.last() == '=');
        assert(part =~= a + core + tail);
        wording::law_trimming_takes_the_space_around(a, core, tail);
        assert(core =~= k + seq!['='] + none);
        wording::law_a_text_is_cut_at_the_mark(k, '=', none);
        assert(text::trimmed(none) =~= none);
        assert(value =~= none);
    } else {
        let core = k + seq!['='] + (c + value);
        assert(core[0] == other[0]);
        assert(core.last() == value.last());
        assert(part =~= a + core + d);
        wording::law_trimming_takes_the_space_around(a, core, d);
        wording::law_a_text_is_cut_at_the_mark(k, '=', c + value);
        wording::law_trimming_takes_the_space_around(c, value, none);
        assert(c + value + none =~= c + value);
    }
}

} // verus!
