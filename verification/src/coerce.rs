//! Reading the text typed for one field as a value of the kind that the field
//! held before.
//!
//! The kind of the old value says how the text is read: as a number, a truth
//! value, an identifier, a list, a document or a regular expression. A text
//! that cannot be read that way is taken as a plain string.

use vstd::prelude::*;
use vstd::string::*;
use crate::document::{
    lemma_array_view, lemma_document_view, value_models, Document, DocumentModel, ObjectId, Value,
    ValueModel,
};
use crate::text::{
    all_digits, digits_from, digits_value, same_text, split, split_on, texts, to_chars, trim,
    trimmed,
};

verus! {

/// The number that a text is read to: an optional sign, then one or more
/// decimal digits and nothing else.
pub open spec fn signed_value(s: Seq<char>) -> Option<int> {
    let signed = s.len() > 0 && (s[0] == '+' || s[0] == '-');
    let d = if signed {
        s.drop_first()
    } else {
        s
    };
    if d.len() > 0 && all_digits(d) {
        if signed && s[0] == '-' {
            Some(-(digits_value(d) as int))
        } else {
            Some(digits_value(d) as int)
        }
    } else {
        None
    }
}

pub open spec fn parsed_i32(s: Seq<char>) -> Option<i32> {
    match signed_value(s) {
        Some(v) => if i32::MIN <= v <= i32::MAX {
            Some(v as i32)
        } else {
            None
        },
        None => None,
    }
}

pub open spec fn parsed_i64(s: Seq<char>) -> Option<i64> {
    match signed_value(s) {
        Some(v) => if i64::MIN <= v <= i64::MAX {
            Some(v as i64)
        } else {
            None
        },
        None => None,
    }
}

/// The sign and the digits of a number: whether the text begins with `-`,
/// and the number that follows its sign, where the text is an optional sign
/// and then decimal digits only, one at least, and that number fits.
fn sign_and_digits(s: &str) -> (r: Option<(bool, u64)>)
    ensures
        r == match signed_value(s@) {
            Some(v) => if -(u64::MAX as int) <= v <= u64::MAX {
                Some((s@[0] == '-', if v < 0 { (-v) as u64 } else { v as u64 }))
            } else {
                None
            },
            None => None,
        },
{
    let chars = to_chars(s);
    let signed = chars.len() > 0 && (chars[0] == '+' || chars[0] == '-');
    let start: usize = if signed {
        1
    } else {
        0
    };
    proof {
        if signed {
            assert(chars@.skip(1) =~= s@.drop_first());
        } else {
            assert(chars@.skip(0) =~= s@);
        }
    }
    match digits_from(&chars, start) {
        Some(v) => Some((chars[0] == '-', v)),
        None => None,
    }
}

/// Reads a number written as an optional sign and decimal digits.
pub fn parse_i32(s: &str) -> (r: Option<i32>)
    ensures
        r == parsed_i32(s@),
{
    match sign_and_digits(s) {
        Some((negative, v)) => if negative {
            if v <= 2147483648 {
                Some((0 - v as i64) as i32)
            } else {
                None
            }
        } else if v <= 2147483647 {
            Some(v as i32)
        } else {
            None
        },
        None => None,
    }
}

/// Reads a number written as an optional sign and decimal digits.
pub fn parse_i64(s: &str) -> (r: Option<i64>)
    ensures
        r == parsed_i64(s@),
{
    match sign_and_digits(s) {
        Some((negative, v)) => if negative {
            if v <= 9223372036854775807 {
                Some(0 - v as i64)
            } else if v == 9223372036854775808 {
                Some(i64::MIN)
            } else {
                None
            }
        } else if v <= 9223372036854775807 {
            Some(v as i64)
        } else {
            None
        },
        None => None,
    }
}

/// Whether `c` is a hexadecimal digit.
pub open spec fn is_hex_digit(c: char) -> bool {
    ('0' <= c && c <= '9') || ('a' <= c && c <= 'f') || ('A' <= c && c <= 'F')
}

/// The number that a hexadecimal digit stands for.
pub open spec fn hex_digit_value(c: char) -> nat {
    if '0' <= c && c <= '9' {
        (c as u32 - '0' as u32) as nat
    } else if 'a' <= c && c <= 'f' {
        (c as u32 - 'a' as u32 + 10) as nat
    } else {
        (c as u32 - 'A' as u32 + 10) as nat
    }
}

/// The number written by the hexadecimal digits `s`.
pub open spec fn hex_value(s: Seq<char>) -> nat
    decreases s.len(),
{
    if s.len() == 0 {
        0
    } else {
        hex_value(s.drop_last()) * 16 + hex_digit_value(s.last())
    }
}

/// 16 to the power of `n`.
pub open spec fn pow16(n: nat) -> nat
    decreases n,
{
    if n == 0 {
        1
    } else {
        16 * pow16((n - 1) as nat)
    }
}

/// The identifier that a text is read to: exactly 24 hexadecimal digits, two
/// for each of its twelve bytes.
pub open spec fn parsed_object_id(s: Seq<char>) -> Option<ObjectId> {
    if s.len() == 24 && (forall|i: int| 0 <= i < s.len() ==> is_hex_digit(#[trigger] s[i])) {
        Some(ObjectId { value: hex_value(s) as u128 })
    } else {
        None
    }
}

proof fn lemma_pow16_grows(i: nat, j: nat)
    requires
        i <= j,
    ensures
        pow16(i) <= pow16(j),
        pow16(i) >= 1,
    decreases j,
{
    if i < j {
        lemma_pow16_grows(i, (j - 1) as nat);
    } else if i > 0 {
        lemma_pow16_grows((i - 1) as nat, (i - 1) as nat);
    }
}

proof fn lemma_pow16_of_24()
    ensures
        pow16(24) == 0x1_0000_0000_0000_0000_0000_0000,
{
    reveal_with_fuel(pow16, 25);
}

/// Reads an identifier written as 24 hexadecimal digits.
pub fn parse_object_id(text: &str) -> (r: Option<ObjectId>)
    ensures
        r == parsed_object_id(text@),
{
    let chars = to_chars(text);
    if chars.len() != 24 {
        return None;
    }
    let mut acc: u128 = 0;
    let mut i: usize = 0;
    proof {
        assert(chars@.take(0) =~= Seq::<char>::empty());
    }
    while i < 24
        invariant
            0 <= i <= 24,
            chars.len() == 24,
            chars@ == text@,
            forall|j: int| 0 <= j < i ==> is_hex_digit(#[trigger] chars@[j]),
            acc == hex_value(chars@.take(i as int)),
            acc < pow16(i as nat),
        decreases 24 - i,
    {
        let c = chars[i];
        let d: u128 = if '0' <= c && c <= '9' {
            (c as u32 - '0' as u32) as u128
        } else if 'a' <= c && c <= 'f' {
            (c as u32 - 'a' as u32 + 10) as u128
        } else if 'A' <= c && c <= 'F' {
            (c as u32 - 'A' as u32 + 10) as u128
        } else {
            return None;
        };
        proof {
            lemma_pow16_grows(i as nat, 24);
            lemma_pow16_of_24();
            assert(chars@.take(i + 1).drop_last() =~= chars@.take(i as int));
            assert(chars@.take(i + 1).last() == c);
        }
        acc = acc * 16 + d;
        i += 1;
    }
    proof {
        assert(chars@.take(24) =~= chars@);
    }
    Some(ObjectId { value: acc })
}

/// The position of the last `/` of `s` before position `to`, or -1.
pub open spec fn last_slash(s: Seq<char>, to: int) -> int
    decreases to,
{
    if to <= 0 || to > s.len() {
        -1
    } else if s[to - 1] == '/' {
        to - 1
    } else {
        last_slash(s, to - 1)
    }
}

/// The pattern and the options that a text written `/pattern/options` gives.
pub open spec fn parsed_regex(s: Seq<char>) -> Option<(Seq<char>, Seq<char>)> {
    let close = last_slash(s, s.len() as int);
    if s.len() >= 2 && s[0] == '/' && close > 0 {
        Some((s.subrange(1, close), s.subrange(close + 1, s.len() as int)))
    } else {
        None
    }
}

/// Reads a regular expression written `/pattern/options`.
pub fn parse_regex(text: &str) -> (r: Option<(String, String)>)
    ensures
        r.deep_view() == parsed_regex(text@),
{
    let chars = to_chars(text);
    let n = chars.len();
    if n < 2 || chars[0] != '/' {
        return None;
    }
    let mut i: usize = n;
    while i > 0 && chars[i - 1] != '/'
        invariant
            0 <= i <= n,
            n == chars.len(),
            last_slash(chars@, i as int) == last_slash(chars@, n as int),
        decreases i,
    {
        i -= 1;
    }
    if i <= 1 {
        return None;
    }
    let pattern = text.substring_char(1, i - 1).to_owned();
    let options = text.substring_char(i, n).to_owned();
    Some((pattern, options))
}

/// The list that a text gives: its pieces between commas, each trimmed, as
/// strings.
pub open spec fn listed(text: Seq<char>) -> Seq<ValueModel> {
    let pieces = split_on(text, ',');
    Seq::new(pieces.len(), |i: int| ValueModel::String(trimmed(pieces[i])))
}

/// What a text denotes for the two readers that the library does not have
/// itself.
#[derive(Debug)]
pub struct Denoted {
    /// The 64 bits of the double that the text denotes, where it denotes one.
    pub double: Option<u64>,
    /// The document that the text denotes, where it denotes one.
    pub document: Option<Document>,
}

/// The value that `text` gives for a field that held `original`.
///
/// For a number, a truth value, an identifier, a document or a regular
/// expression the text is read as one of the same kind; for nothing, the
/// text `null` is nothing again; for a list, the text is cut at its commas
/// into strings. Whatever cannot be read that way, and the text for a field
/// of any other kind, is the text as a string.
pub open spec fn coerced(
    original: ValueModel,
    text: Seq<char>,
    double: Option<u64>,
    document: Option<DocumentModel>,
) -> ValueModel {
    let plain = ValueModel::String(text);
    match original {
        ValueModel::Int32(_) => match parsed_i32(text) {
            Some(n) => ValueModel::Int32(n),
            None => plain,
        },
        ValueModel::Int64(_) => match parsed_i64(text) {
            Some(n) => ValueModel::Int64(n),
            None => plain,
        },
        ValueModel::Double(_) => match double {
            Some(bits) => ValueModel::Double(bits),
            None => plain,
        },
        ValueModel::Boolean(_) => if text == "true"@ {
            ValueModel::Boolean(true)
        } else if text == "false"@ {
            ValueModel::Boolean(false)
        } else {
            plain
        },
        ValueModel::ObjectId(_) => match parsed_object_id(text) {
            Some(id) => ValueModel::ObjectId(id),
            None => plain,
        },
        ValueModel::Null => if text == "null"@ {
            ValueModel::Null
        } else {
            plain
        },
        ValueModel::Array(_) => ValueModel::Array(listed(text)),
        ValueModel::Document(_) => match document {
            Some(d) => ValueModel::Document(d),
            None => plain,
        },
        ValueModel::Regex { .. } => match parsed_regex(text) {
            Some(r) => ValueModel::Regex { pattern: r.0, options: r.1 },
            None => plain,
        },
        _ => plain,
    }
}

/// The list that a text gives.
pub fn list_of(text: &str) -> (items: Vec<Value>)
    ensures
        value_models(items@) == listed(text@),
{
    let pieces = split(text, ',');
    let mut items: Vec<Value> = Vec::new();
    let mut i: usize = 0;
    proof {
        assert(texts(pieces@).len() == pieces.len());
    }
    while i < pieces.len()
        invariant
            0 <= i <= pieces.len(),
            items.len() == i,
            texts(pieces@) == split_on(text@, ','),
            forall|j: int| 0 <= j < i ==> items@[j]@ == ValueModel::String(trimmed(pieces@[j]@)),
        decreases pieces.len() - i,
    {
        items.push(Value::String(trim(pieces[i].as_str()).to_owned()));
        i += 1;
    }
    proof {
        assert forall|j: int| 0 <= j < pieces.len() implies value_models(items@)[j] == listed(
            text@,
        )[j] by {
            assert(texts(pieces@)[j] == pieces@[j]@);
        }
        assert(value_models(items@) =~= listed(text@));
    }
    items
}

/// The value that `text` gives for a field that held `original`.
pub fn coerce_field_value(original: &Value, text: &str, denoted: Denoted) -> (v: Value)
    ensures
        v@ == coerced(original@, text@, denoted.double, denoted.document.deep_view()),
{
    match original {
        Value::Int32(_) => match parse_i32(text) {
            Some(n) => Value::Int32(n),
            None => Value::String(text.to_owned()),
        },
        Value::Int64(_) => match parse_i64(text) {
            Some(n) => Value::Int64(n),
            None => Value::String(text.to_owned()),
        },
        Value::Double(_) => match denoted.double {
            Some(bits) => Value::Double(bits),
            None => Value::String(text.to_owned()),
        },
        Value::Boolean(_) => if same_text(text, "true") {
            Value::Boolean(true)
        } else if same_text(text, "false") {
            Value::Boolean(false)
        } else {
            Value::String(text.to_owned())
        },
        Value::ObjectId(_) => match parse_object_id(text) {
            Some(id) => Value::ObjectId(id),
            None => Value::String(text.to_owned()),
        },
        Value::Null => if same_text(text, "null") {
            Value::Null
        } else {
            Value::String(text.to_owned())
        },
        Value::Array(old_items) => {
            let items = list_of(text);
            proof {
                lemma_array_view(*old_items);
                lemma_array_view(items);
            }
            Value::Array(items)
        },
        Value::Document(old_doc) => match denoted.document {
            Some(d) => {
                proof {
                    lemma_document_view(*old_doc);
                    lemma_document_view(d);
                }
                Value::Document(d)
            },
            None => {
                proof {
                    lemma_document_view(*old_doc);
                }
                Value::String(text.to_owned())
            },
        },
        Value::Regex { .. } => match parse_regex(text) {
            Some(r) => Value::Regex { pattern: r.0, options: r.1 },
            None => Value::String(text.to_owned()),
        },
        _ => Value::String(text.to_owned()),
    }
}

} // verus!
