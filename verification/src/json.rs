//! JSON, as far as the routes read and write it.
//!
//! A body is an object whose fields are plain values. What is not an object has
//! no fields, which is also what looking a field up in it says.

use vstd::prelude::*;
use vstd::string::*;

use serde_json::Value;

use crate::seal;
use crate::text;
use crate::text::{owned, same, trim};

verus! {

/// One field of a body.
pub enum Field {
    Text(String),
    Flag(bool),
    /// A number, where it is a whole one that is not negative.
    Number(Option<u64>),
    /// A list, with the texts in it.
    List(Vec<Option<String>>),
    Object,
    Null,
}

/// One field of a body, as contracts speak of it.
pub enum FieldView {
    Text(Seq<char>),
    Flag(bool),
    Number(Option<u64>),
    List(Seq<Option<Seq<char>>>),
    Object,
    Null,
}

impl View for Field {
    type V = FieldView;

    open spec fn view(&self) -> FieldView {
        match self {
            Field::Text(s) => FieldView::Text(s@),
            Field::Flag(b) => FieldView::Flag(*b),
            Field::Number(n) => FieldView::Number(*n),
            Field::List(v) => FieldView::List(v@.map_values(|o: Option<String>| text::opt_view(o))),
            Field::Object => FieldView::Object,
            Field::Null => FieldView::Null,
        }
    }
}

/// The fields of a body, by name.
pub open spec fn fields_view(v: Seq<(String, Field)>) -> Seq<(Seq<char>, FieldView)> {
    v.map_values(|p: (String, Field)| (p.0@, p.1@))
}

/// The fields of a body that was read, or why it could not be.
pub type Sent = Result<Seq<(Seq<char>, FieldView)>, Seq<char>>;

/// An object that was read, if it was one, or why it could not be.
pub open spec fn object_view(r: Result<Option<Vec<(String, Field)>>, String>) -> Result<
    Option<Seq<(Seq<char>, FieldView)>>,
    Seq<char>,
> {
    match r {
        Ok(Some(v)) => Ok(Some(fields_view(v@))),
        Ok(None) => Ok(None),
        Err(e) => Err(e@),
    }
}

/// The object that a text spells in JSON, where it spells one, or what is wrong
/// with it.
pub uninterp spec fn json_object(text: Seq<char>) -> Result<
    Option<Seq<(Seq<char>, FieldView)>>,
    Seq<char>,
>;

/// `serde_json::from_str`, into a `Value`. The fields of an object become plain
/// values, variant by variant. What JSON is takes pages to say, so the result has
/// a name.
#[verifier::external_body]
fn read_object(text: &str) -> (r: Result<Option<Vec<(String, Field)>>, String>)
    ensures
        object_view(r) == json_object(text@),
{
    let v = serde_json::from_str::<Value>(text).map_err(|e| e.to_string())?;
    Ok(v.as_object().map(|m| m.iter().map(|(k, v)| (k.clone(), match v {
        Value::String(s) => Field::Text(s.clone()),
        Value::Bool(b) => Field::Flag(*b),
        Value::Number(n) => Field::Number(n.as_u64()),
        Value::Array(a) => Field::List(a.iter().map(|x| x.as_str().map(str::to_string)).collect()),
        Value::Object(_) => Field::Object,
        Value::Null => Field::Null,
    })).collect()))
}

/// The fields of the object that a text spells in JSON, none where it spells
/// something else, or what is wrong with it.
pub open spec fn json_fields(text: Seq<char>) -> Sent {
    match json_object(text) {
        Ok(Some(fields)) => Ok(fields),
        Ok(None) => Ok(Seq::empty()),
        Err(e) => Err(e),
    }
}

/// The text under `choices[0].message.content` of a JSON text, where there is
/// one.
pub uninterp spec fn chat_reply(text: Seq<char>) -> Option<Seq<char>>;

/// `serde_json::from_str`, indexed by `Value`'s own `[]`, which is `null` where
/// there is nothing. The result has a name, for the same reason.
#[verifier::external_body]
pub(crate) fn read_reply(text: &str) -> (r: Option<String>)
    ensures
        text::opt_view(r) == chat_reply(text@),
{
    let v = serde_json::from_str::<Value>(text).ok()?;
    v["choices"][0]["message"]["content"].as_str().map(str::to_string)
}

/// A character as it is spelled within a JSON text: a quote, a backslash and the
/// controls below a space are escaped, and nothing else is.
pub open spec fn json_char(c: char) -> Seq<char> {
    let n = c as int;
    if c == '"' {
        seq!['\\', '"']
    } else if c == '\\' {
        seq!['\\', '\\']
    } else if n == 0x08 {
        seq!['\\', 'b']
    } else if n == 0x09 {
        seq!['\\', 't']
    } else if n == 0x0a {
        seq!['\\', 'n']
    } else if n == 0x0c {
        seq!['\\', 'f']
    } else if n == 0x0d {
        seq!['\\', 'r']
    } else if n < 0x20 {
        seq!['\\', 'u', '0', '0', seal::hex_digit(n / 16), seal::hex_digit(n % 16)]
    } else {
        seq![c]
    }
}

/// The characters of a text as JSON spells them.
pub open spec fn json_chars(s: Seq<char>) -> Seq<char>
    decreases s.len(),
{
    if s.len() == 0 {
        Seq::empty()
    } else {
        json_chars(s.drop_last()) + json_char(s.last())
    }
}

/// A text as JSON spells it, in quotes.
pub open spec fn json_string(s: Seq<char>) -> Seq<char> {
    seq!['"'] + json_chars(s) + seq!['"']
}

/// `serde_json::to_string` of a text: the text in quotes, with each character
/// that needs it escaped. It errs only where a writer or a type's own encoding
/// does, and here neither can.
#[verifier::external_body]
pub(crate) fn json_text(s: &str) -> (r: String)
    ensures
        r@ == json_string(s@),
{
    serde_json::to_string(s).expect("a text is always spelled")
}

// ---------------------------------------------------------------------------
// Reading a body
// ---------------------------------------------------------------------------

/// The first field with a name.
pub open spec fn field(fields: Seq<(Seq<char>, FieldView)>, key: Seq<char>) -> Option<FieldView>
    decreases fields.len(),
{
    if fields.len() == 0 {
        None
    } else if fields[0].0 == key {
        Some(fields[0].1)
    } else {
        field(fields.skip(1), key)
    }
}

/// The text under a name.
pub open spec fn text_field(fields: Seq<(Seq<char>, FieldView)>, key: Seq<char>) -> Option<
    Seq<char>,
> {
    match field(fields, key) {
        Some(FieldView::Text(s)) => Some(s),
        _ => None,
    }
}

/// The text under a name, or none at all.
pub open spec fn text_or_empty(fields: Seq<(Seq<char>, FieldView)>, key: Seq<char>) -> Seq<char> {
    match text_field(fields, key) {
        Some(s) => s,
        None => Seq::empty(),
    }
}

/// The flag under a name.
pub open spec fn flag_field(fields: Seq<(Seq<char>, FieldView)>, key: Seq<char>) -> Option<bool> {
    match field(fields, key) {
        Some(FieldView::Flag(b)) => Some(b),
        _ => None,
    }
}

/// The number under a name.
pub open spec fn number_field(fields: Seq<(Seq<char>, FieldView)>, key: Seq<char>) -> Option<u64> {
    match field(fields, key) {
        Some(FieldView::Number(n)) => n,
        _ => None,
    }
}

/// The fields of a body that was sent; none where it is not JSON.
pub open spec fn fields_in(sent: Sent) -> Seq<(Seq<char>, FieldView)> {
    match sent {
        Ok(fields) => fields,
        Err(_) => Seq::empty(),
    }
}

/// The fields of a body that was sent as `s`; none where it is blank.
pub open spec fn fields_unless_blank(s: Seq<char>, sent: Sent) -> Sent {
    if text::trimmed(s).len() == 0 {
        Ok(Seq::empty())
    } else {
        sent
    }
}

/// A body that was read, or why it could not be, as contracts speak of it.
pub open spec fn sent_view(r: Result<Body, String>) -> Sent {
    match r {
        Ok(b) => Ok(b@),
        Err(e) => Err(e@),
    }
}

/// A JSON body.
pub struct Body {
    pub fields: Vec<(String, Field)>,
}

impl View for Body {
    type V = Seq<(Seq<char>, FieldView)>;

    open spec fn view(&self) -> Seq<(Seq<char>, FieldView)> {
        fields_view(self.fields@)
    }
}

impl Body {
    /// A body with no fields.
    pub fn empty() -> (r: Body)
        ensures
            r@ == Seq::<(Seq<char>, FieldView)>::empty(),
    {
        let r = Body { fields: Vec::new() };
        assert(r@ =~= Seq::<(Seq<char>, FieldView)>::empty());
        r
    }

    /// Read a body, or say what is wrong with it.
    pub fn parse(s: &str) -> (r: Result<Body, String>)
        ensures
            sent_view(r) == json_fields(s@),
    {
        match read_object(s) {
            Ok(Some(fields)) => Ok(Body { fields }),
            Ok(None) => Ok(Body::empty()),
            Err(e) => Err(e),
        }
    }

    /// The body that was sent; one that is not JSON has no fields.
    pub fn or_empty(sent: Result<Body, String>) -> (r: Body)
        ensures
            r@ == fields_in(sent_view(sent)),
    {
        match sent {
            Ok(b) => b,
            Err(_) => Body::empty(),
        }
    }

    /// The body that was sent as `s`; a blank one has no fields.
    pub fn unless_blank(s: &str, sent: Result<Body, String>) -> (r: Result<Body, String>)
        ensures
            sent_view(r) == fields_unless_blank(s@, sent_view(sent)),
    {
        if trim(s).is_empty() {
            Ok(Body::empty())
        } else {
            sent
        }
    }

    fn find(&self, key: &str) -> (r: Option<&Field>)
        ensures
            match r {
                Some(f) => field(self@, key@) == Some(f@),
                None => field(self@, key@) is None,
            },
    {
        let mut i: usize = 0;
        assert(self@.skip(0) =~= self@);
        while i < self.fields.len()
            invariant
                i <= self.fields@.len(),
                field(self@.skip(i as int), key@) == field(self@, key@),
            decreases self.fields@.len() - i,
        {
            let ghost rest = self@.skip(i as int);
            assert(rest[0] == (self.fields@[i as int].0@, self.fields@[i as int].1@));
            assert(rest.skip(1) =~= self@.skip(i + 1));
            if same(self.fields[i].0.as_str(), key) {
                return Some(&self.fields[i].1);
            }
            i = i + 1;
        }
        None
    }

    /// Is there a field with this name, whatever it holds?
    pub fn has(&self, key: &str) -> (r: bool)
        ensures
            r == (field(self@, key@) is Some),
    {
        self.find(key).is_some()
    }

    /// The text under a name.
    pub fn text(&self, key: &str) -> (r: Option<&str>)
        ensures
            text::opt_str(r) == text_field(self@, key@),
    {
        match self.find(key) {
            Some(Field::Text(s)) => Some(s.as_str()),
            _ => None,
        }
    }

    /// The text under a name, or an empty one.
    pub fn text_or_empty(&self, key: &str) -> (r: &str)
        ensures
            r@ == text_or_empty(self@, key@),
    {
        match self.text(key) {
            Some(s) => s,
            None => {
                proof {
                    reveal_strlit("");
                }
                assert(""@ =~= Seq::<char>::empty());
                ""
            },
        }
    }

    /// The flag under a name.
    pub fn flag(&self, key: &str) -> (r: Option<bool>)
        ensures
            r == flag_field(self@, key@),
    {
        match self.find(key) {
            Some(Field::Flag(b)) => Some(*b),
            _ => None,
        }
    }

    /// The number under a name.
    pub fn number(&self, key: &str) -> (r: Option<u64>)
        ensures
            r == number_field(self@, key@),
    {
        match self.find(key) {
            Some(Field::Number(n)) => *n,
            _ => None,
        }
    }

    /// The texts of the list under a name, without the whitespace around each.
    /// What in the list is no text is passed over.
    pub fn trimmed_texts(&self, key: &str) -> (r: Vec<String>)
        ensures
            text::texts(r@) == trimmed_list(self@, key@),
    {
        let mut out: Vec<String> = Vec::new();
        assert(text::texts(out@) =~= Seq::<Seq<char>>::empty());
        match self.find(key) {
            Some(Field::List(v)) => {
                let ghost all = v@.map_values(|o: Option<String>| text::opt_view(o));
                let mut i: usize = 0;
                assert(all.take(0) =~= Seq::<Option<Seq<char>>>::empty());
                while i < v.len()
                    invariant
                        i <= v@.len(),
                        all == v@.map_values(|o: Option<String>| text::opt_view(o)),
                        text::texts(out@) == trimmed_some(all.take(i as int)),
                    decreases v@.len() - i,
                {
                    let ghost upto = all.take(i + 1);
                    assert(upto.drop_last() =~= all.take(i as int));
                    assert(upto.last() == text::opt_view(v@[i as int]));
                    let ghost before = out@;
                    match &v[i] {
                        Some(s) => {
                            out.push(owned(trim(s.as_str())));
                            assert(text::texts(out@) =~= text::texts(before).push(
                                text::trimmed(s@),
                            ));
                        },
                        None => {},
                    }
                    i = i + 1;
                }
                assert(all.take(i as int) =~= all);
            },
            _ => {},
        }
        out
    }
}

/// The texts among these, without the whitespace around each.
pub open spec fn trimmed_some(v: Seq<Option<Seq<char>>>) -> Seq<Seq<char>>
    decreases v.len(),
{
    if v.len() == 0 {
        Seq::empty()
    } else {
        match v.last() {
            Some(s) => trimmed_some(v.drop_last()).push(text::trimmed(s)),
            None => trimmed_some(v.drop_last()),
        }
    }
}

/// The texts of the list under a name, without the whitespace around each.
pub open spec fn trimmed_list(fields: Seq<(Seq<char>, FieldView)>, key: Seq<char>) -> Seq<
    Seq<char>,
> {
    match field(fields, key) {
        Some(FieldView::List(v)) => trimmed_some(v),
        _ => Seq::empty(),
    }
}

// ---------------------------------------------------------------------------
// Writing
// ---------------------------------------------------------------------------

/// The body that says what went wrong.
pub open spec fn error_body(msg: Seq<char>) -> Seq<char> {
    "{\"error\":"@ + json_string(msg) + "}"@
}

/// The body that says what went wrong. Every failure has this shape.
pub fn error_json(msg: &str) -> (r: String)
    ensures
        r@ == error_body(msg@),
{
    owned("{\"error\":").concat(json_text(msg).as_str()).concat("}")
}

} // verus!
