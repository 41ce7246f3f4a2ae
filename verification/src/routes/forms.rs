//! Form bodies and query strings: `a=1&b=2`, percent-encoded.

use vstd::prelude::*;
use vstd::string::*;
use vstd::utf8::*;

use crate::seal;
use crate::text;
use crate::text::{same, split_all, split_first};

verus! {

/// The text that bytes spell in UTF-8, with a replacement character for each run
/// that spells nothing.
pub uninterp spec fn lossy_text(bytes: Seq<u8>) -> Seq<char>;

/// `String::from_utf8_lossy`: bytes that are UTF-8 come back as the text they
/// spell. How the rest is replaced takes long to say, so the result has a name.
#[verifier::external_body]
fn lossy(bytes: &[u8]) -> (r: String)
    ensures
        r@ == lossy_text(bytes@),
        valid_utf8(bytes@) ==> r@ == decode_utf8(bytes@),
{
    String::from_utf8_lossy(bytes).into_owned()
}

/// Is this byte a hexadecimal digit?
pub open spec fn hex_byte(b: u8) -> bool {
    seal::is_hex(b as char)
}

/// What two hexadecimal digits count.
pub open spec fn hex_pair(h: u8, l: u8) -> u8 {
    (16 * seal::hex_value(h as char) + seal::hex_value(l as char)) as u8
}

/// Bytes with their percent-encoding undone: `+` is a space, and `%` with two
/// hexadecimal digits behind it is the byte they count. Any other `%` stands for
/// itself.
pub open spec fn unescaped(b: Seq<u8>) -> Seq<u8>
    decreases b.len(),
{
    if b.len() == 0 {
        Seq::empty()
    } else if b[0] == 43 {
        seq![32u8] + unescaped(b.skip(1))
    } else if b[0] == 37 && b.len() > 2 && hex_byte(b[1]) && hex_byte(b[2]) {
        seq![hex_pair(b[1], b[2])] + unescaped(b.skip(3))
    } else {
        seq![b[0]] + unescaped(b.skip(1))
    }
}

/// A text with its percent-encoding undone.
pub open spec fn decoded(s: Seq<char>) -> Seq<char> {
    lossy_text(unescaped(encode_utf8(s)))
}

fn hex_of_byte(b: u8) -> (r: Option<u8>)
    ensures
        match r {
            Some(n) => hex_byte(b) && n == seal::hex_value(b as char) && n < 16,
            None => !hex_byte(b),
        },
{
    if 48 <= b && b <= 57 {
        Some(b - 48)
    } else if 97 <= b && b <= 102 {
        Some(b - 87)
    } else if 65 <= b && b <= 70 {
        Some(b - 55)
    } else {
        None
    }
}

/// Bytes with nothing in them that percent-encoding gives a meaning.
pub open spec fn unmarked(b: Seq<u8>) -> bool {
    forall|i: int| 0 <= i < b.len() ==> #[trigger] b[i] != 43 && b[i] != 37
}

/// Bytes that percent-encoding gives no meaning stand for themselves.
pub proof fn law_unmarked_bytes_stand_for_themselves(b: Seq<u8>)
    requires
        unmarked(b),
    ensures
        unescaped(b) == b,
    decreases b.len(),
{
    if b.len() > 0 {
        assert(b[0] != 43 && b[0] != 37);
        let rest = b.skip(1);
        assert forall|i: int| 0 <= i < rest.len() implies #[trigger] rest[i] != 43 && rest[i]
            != 37 by {
            assert(rest[i] == b[i + 1]);
        }
        law_unmarked_bytes_stand_for_themselves(rest);
        assert(seq![b[0]] + rest =~= b);
    } else {
        assert(unescaped(b) =~= b);
    }
}

/// A hexadecimal digit, as a byte, in either case.
pub open spec fn hex_digit_byte(n: int, upper: bool) -> u8 {
    if n < 10 {
        (48 + n) as u8
    } else if upper {
        (55 + n) as u8
    } else {
        (87 + n) as u8
    }
}

/// Bytes with every one of them percent-encoded, in either case.
pub open spec fn escaped_bytes(b: Seq<u8>, upper: bool) -> Seq<u8> {
    Seq::new(
        3 * b.len(),
        |i: int|
            if i % 3 == 0 {
                37u8
            } else if i % 3 == 1 {
                hex_digit_byte(b[i / 3] as int / 16, upper)
            } else {
                hex_digit_byte(b[i / 3] as int % 16, upper)
            },
    )
}

/// Does the triple at a place spell this byte?
pub open spec fn spelled_at(e: Seq<u8>, b: u8, i: int) -> bool {
    e[3 * i] == 37 && hex_byte(e[3 * i + 1]) && hex_byte(e[3 * i + 2]) && hex_pair(
        e[3 * i + 1],
        e[3 * i + 2],
    ) == b
}

/// Does this spell these bytes, each as a `%` and two hexadecimal digits? Each
/// digit may be in either case.
pub open spec fn spells(e: Seq<u8>, b: Seq<u8>) -> bool {
    &&& e.len() == 3 * b.len()
    &&& forall|i: int| 0 <= i < b.len() ==> #[trigger] spelled_at(e, b[i], i)
}

/// What is percent-encoded reads back, whatever the bytes are, and in whichever
/// case each digit is written.
pub proof fn law_an_encoded_value_reads_back(e: Seq<u8>, b: Seq<u8>)
    requires
        spells(e, b),
    ensures
        unescaped(e) == b,
    decreases b.len(),
{
    if b.len() > 0 {
        assert(spelled_at(e, b[0], 0));
        let rest = e.skip(3);
        let tail = b.skip(1);
        assert forall|i: int| 0 <= i < tail.len() implies #[trigger] spelled_at(
            rest,
            tail[i],
            i,
        ) by {
            assert(spelled_at(e, b[i + 1], i + 1));
            assert(rest[3 * i] == e[3 * (i + 1)]);
            assert(rest[3 * i + 1] == e[3 * (i + 1) + 1]);
            assert(rest[3 * i + 2] == e[3 * (i + 1) + 2]);
        }
        law_an_encoded_value_reads_back(rest, tail);
        assert(seq![b[0]] + tail =~= b);
    } else {
        assert(unescaped(e) =~= b);
    }
}

/// All digits in upper case, or all in lower case, are two ways to spell bytes.
pub proof fn law_either_case_spells(b: Seq<u8>, upper: bool)
    ensures
        spells(escaped_bytes(b, upper), b),
{
    let e = escaped_bytes(b, upper);
    assert forall|i: int| 0 <= i < b.len() implies #[trigger] spelled_at(e, b[i], i) by {
        assert((3 * i) % 3 == 0 && (3 * i + 1) % 3 == 1 && (3 * i + 2) % 3 == 2);
        assert((3 * i + 1) / 3 == i && (3 * i + 2) / 3 == i);
        let h = hex_digit_byte(b[i] as int / 16, upper);
        let l = hex_digit_byte(b[i] as int % 16, upper);
        assert(e[3 * i + 1] == h && e[3 * i + 2] == l);
        assert(0 <= b[i] as int / 16 < 16);
    }
}

/// Undo percent-encoding. Every text has an answer: one with nothing encoded in it
/// is its own, and one that spells another reads back as that one.
pub fn percent_decode(s: &str) -> (r: String)
    ensures
        r@ == decoded(s@),
        valid_utf8(unescaped(encode_utf8(s@))) ==> r@ == decode_utf8(
            unescaped(encode_utf8(s@)),
        ),
        unmarked(encode_utf8(s@)) ==> r@ == s@,
        forall|t: Seq<char>|
            #[trigger] spells(encode_utf8(s@), encode_utf8(t)) ==> r@ == t,
{
    proof {
        assert forall|t: Seq<char>| #[trigger] spells(encode_utf8(s@), encode_utf8(t)) implies {
            &&& valid_utf8(unescaped(encode_utf8(s@)))
            &&& decode_utf8(unescaped(encode_utf8(s@))) == t
        } by {
            law_an_encoded_value_reads_back(encode_utf8(s@), encode_utf8(t));
            encode_utf8_valid_utf8(t);
            encode_utf8_decode_utf8(t);
        }
        if unmarked(encode_utf8(s@)) {
            law_unmarked_bytes_stand_for_themselves(encode_utf8(s@));
            encode_utf8_valid_utf8(s@);
            encode_utf8_decode_utf8(s@);
        }
    }
    let bytes = s.as_bytes();
    let ghost b = encode_utf8(s@);
    let n: usize = bytes.len();
    let mut out: Vec<u8> = Vec::new();
    let mut i: usize = 0;
    assert(b.skip(0) =~= b);
    assert(out@ + unescaped(b) =~= unescaped(b));
    while i < n
        invariant
            i <= n,
            n == bytes@.len(),
            bytes@ == b,
            out@ + unescaped(b.skip(i as int)) == unescaped(b),
        decreases n - i,
    {
        let ghost rest = b.skip(i as int);
        let ghost before = out@;
        assert(rest[0] == b[i as int]);
        assert(rest.skip(1) =~= b.skip(i + 1));
        let c = bytes[i];
        if c == 43 {
            out.push(32);
            i = i + 1;
            assert(before + (seq![32u8] + unescaped(rest.skip(1))) =~= out@ + unescaped(
                rest.skip(1),
            ));
        } else if c == 37 && n - i > 2 {
            assert(rest[1] == b[i + 1] && rest[2] == b[i + 2]);
            assert(rest.skip(3) =~= b.skip(i + 3));
            match (hex_of_byte(bytes[i + 1]), hex_of_byte(bytes[i + 2])) {
                (Some(h), Some(l)) => {
                    out.push(16 * h + l);
                    i = i + 3;
                    assert(out@.last() == hex_pair(rest[1], rest[2]));
                    assert(before + (seq![hex_pair(rest[1], rest[2])] + unescaped(rest.skip(3)))
                        =~= out@ + unescaped(rest.skip(3)));
                },
                _ => {
                    out.push(c);
                    i = i + 1;
                    assert(before + (seq![rest[0]] + unescaped(rest.skip(1))) =~= out@ + unescaped(
                        rest.skip(1),
                    ));
                },
            }
        } else {
            out.push(c);
            i = i + 1;
            assert(before + (seq![rest[0]] + unescaped(rest.skip(1))) =~= out@ + unescaped(
                rest.skip(1),
            ));
        }
    }
    assert(out@ + unescaped(b.skip(i as int)) =~= out@);
    lossy(out.as_slice())
}

// ---------------------------------------------------------------------------
// Fields
// ---------------------------------------------------------------------------

/// One `key=value`, decoded. A key with no `=` has an empty value.
pub open spec fn form_pair(piece: Seq<char>) -> (Seq<char>, Seq<char>) {
    match text::split_at_first(piece, '=') {
        Some((k, v)) => (decoded(k), decoded(v)),
        None => (decoded(piece), decoded(Seq::empty())),
    }
}

/// The fields that pieces between `&` give. An empty piece gives none, and the
/// last of several with one key counts.
pub open spec fn form_of(pieces: Seq<Seq<char>>) -> Map<Seq<char>, Seq<char>>
    decreases pieces.len(),
{
    if pieces.len() == 0 {
        Map::empty()
    } else if pieces.last().len() == 0 {
        form_of(pieces.drop_last())
    } else {
        form_of(pieces.drop_last()).insert(form_pair(pieces.last()).0, form_pair(pieces.last()).1)
    }
}

/// The fields of a form body.
pub open spec fn form_map(body: Seq<char>) -> Map<Seq<char>, Seq<char>> {
    form_of(text::pieces(body, '&'))
}

/// The fields of a form.
pub struct Fields {
    pairs: Vec<(String, String)>,
}

spec fn collected(pairs: Seq<(String, String)>) -> Map<Seq<char>, Seq<char>>
    decreases pairs.len(),
{
    if pairs.len() == 0 {
        Map::empty()
    } else {
        collected(pairs.drop_last()).insert(pairs.last().0@, pairs.last().1@)
    }
}

impl View for Fields {
    type V = Map<Seq<char>, Seq<char>>;

    closed spec fn view(&self) -> Map<Seq<char>, Seq<char>> {
        collected(self.pairs@)
    }
}

impl Fields {
    /// The value of a field.
    pub fn get(&self, key: &str) -> (r: Option<&String>)
        ensures
            match r {
                Some(v) => self@.dom().contains(key@) && self@[key@] == v@,
                None => !self@.dom().contains(key@),
            },
    {
        let mut n: usize = self.pairs.len();
        assert(self.pairs@.take(n as int) =~= self.pairs@);
        while n > 0
            invariant
                n <= self.pairs@.len(),
                self@.dom().contains(key@) == collected(self.pairs@.take(n as int)).dom().contains(
                    key@,
                ),
                self@.dom().contains(key@) ==> self@[key@] == collected(
                    self.pairs@.take(n as int),
                )[key@],
            decreases n,
        {
            let ghost upto = self.pairs@.take(n as int);
            assert(upto.drop_last() =~= self.pairs@.take(n - 1));
            if same(self.pairs[n - 1].0.as_str(), key) {
                return Some(&self.pairs[n - 1].1);
            }
            n = n - 1;
        }
        None
    }
}

/// Parse `a=1&b=2` with percent-decoding.
pub fn form_fields(body: &str) -> (r: Fields)
    ensures
        r@ == form_map(body@),
{
    let parts = split_all(body, '&');
    let ghost all = text::texts(parts@);
    let mut pairs: Vec<(String, String)> = Vec::new();
    let mut i: usize = 0;
    while i < parts.len()
        invariant
            i <= parts@.len(),
            all == text::texts(parts@),
            collected(pairs@) == form_of(all.take(i as int)),
        decreases parts@.len() - i,
    {
        let ghost upto = all.take(i + 1);
        assert(upto.drop_last() =~= all.take(i as int));
        assert(upto.last() == parts@[i as int]@);
        let piece = parts[i].as_str();
        if !piece.is_empty() {
            let ghost before = pairs@;
            match split_first(piece, '=') {
                Some((k, v)) => {
                    pairs.push((percent_decode(k), percent_decode(v)));
                },
                None => {
                    proof {
                        reveal_strlit("");
                    }
                    assert(""@ =~= Seq::<char>::empty());
                    pairs.push((percent_decode(piece), percent_decode("")));
                },
            }
            assert(pairs@.drop_last() =~= before);
        }
        i = i + 1;
    }
    assert(all.take(i as int) =~= all);
    Fields { pairs }
}

/// The repositories that a query declares, one for each `repo=`.
pub open spec fn declared_in(pieces: Seq<Seq<char>>) -> Seq<Seq<char>>
    decreases pieces.len(),
{
    if pieces.len() == 0 {
        Seq::empty()
    } else {
        let rest = declared_in(pieces.drop_last());
        match text::split_at_first(pieces.last(), '=') {
            Some((k, v)) => if k == "repo"@ {
                rest.push(decoded(v))
            } else {
                rest
            },
            None => rest,
        }
    }
}

/// The repositories that a polling daemon declares in its address.
pub open spec fn declared_repos(path: Seq<char>) -> Seq<Seq<char>> {
    match text::split_at_first(path, '?') {
        Some((_, query)) => declared_in(text::pieces(query, '&')),
        None => Seq::empty(),
    }
}

/// The repositories that a polling daemon declares in its address, as
/// `?repo=a&repo=b`.
pub fn poll_query(path: &str) -> (r: Vec<String>)
    ensures
        text::texts(r@) == declared_repos(path@),
{
    let mut out: Vec<String> = Vec::new();
    assert(text::texts(out@) =~= Seq::<Seq<char>>::empty());
    match split_first(path, '?') {
        None => out,
        Some((_, query)) => {
            let parts = split_all(query, '&');
            let ghost all = text::texts(parts@);
            let mut i: usize = 0;
            assert(all.take(0) =~= Seq::<Seq<char>>::empty());
            while i < parts.len()
                invariant
                    i <= parts@.len(),
                    all == text::texts(parts@),
                    text::texts(out@) == declared_in(all.take(i as int)),
                decreases parts@.len() - i,
            {
                let ghost upto = all.take(i + 1);
                assert(upto.drop_last() =~= all.take(i as int));
                assert(upto.last() == parts@[i as int]@);
                let ghost before = out@;
                match split_first(parts[i].as_str(), '=') {
                    Some((k, v)) => {
                        if same(k, "repo") {
                            out.push(percent_decode(v));
                            assert(text::texts(out@) =~= text::texts(before).push(decoded(v@)));
                        }
                    },
                    None => {},
                }
                i = i + 1;
            }
            assert(all.take(i as int) =~= all);
            out
        },
    }
}

} // verus!
