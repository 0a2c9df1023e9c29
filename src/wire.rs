//! What a serialization engine is handed and hands back: optional markers,
//! strings, unsigned numbers and sequences; and, for each field shape and
//! strategy, which wire values stand for which bytes.
use vstd::prelude::*;

use crate::error::{HexError, Kind};
use crate::hex::{Hex, bytes_value, decoded, hex_text, is_hex_text, lemma_hex_text_round_trip, min_bytes};

verus! {

/// One value in the engine's data model.
#[derive(Debug)]
pub enum Value {
    /// The "absent" marker of an optional value.
    Absent,
    /// An optional value that is there.
    Present(Box<Value>),
    Text(String),
    Number(u64),
    /// A sequence, of known or unknown length.
    List(Vec<Value>),
}

pub open spec fn kind_of(v: Value) -> Kind {
    match v {
        Value::Absent => Kind::Optional,
        Value::Present(_) => Kind::Optional,
        Value::Text(_) => Kind::Text,
        Value::Number(_) => Kind::Number,
        Value::List(_) => Kind::List,
    }
}

impl Value {
    pub fn kind(&self) -> (r: Kind)
        ensures
            r == kind_of(*self),
    {
        match self {
            Value::Absent => Kind::Optional,
            Value::Present(_) => Kind::Optional,
            Value::Text(_) => Kind::Text,
            Value::Number(_) => Kind::Number,
            Value::List(_) => Kind::List,
        }
    }
}

pub open spec fn option_view(o: Option<Hex>) -> Option<Seq<u8>> {
    match o {
        Some(h) => Some(h@),
        None => None,
    }
}

pub open spec fn option2_view(o: Option<Option<Hex>>) -> Option<Option<Seq<u8>>> {
    match o {
        Some(p) => Some(option_view(p)),
        None => None,
    }
}

pub open spec fn list_view(xs: Seq<Hex>) -> Seq<Seq<u8>> {
    xs.map_values(|h: Hex| h@)
}

pub open spec fn pair_view(p: (Hex, Hex)) -> (Seq<u8>, Seq<u8>) {
    (p.0@, p.1@)
}

/// How one `Hex` stands on the wire: as its hex text, or as its number.
pub enum Strategy {
    Text,
    Numeric,
}

pub open spec fn mismatch(expected: Kind, v: Value) -> HexError {
    HexError::ShapeMismatch { expected, found: kind_of(v) }
}

/// `v` is the wire form of the bytes `b` under strategy `s`.
pub open spec fn leaf_form(s: Strategy, v: Value, b: Seq<u8>) -> bool {
    match (s, v) {
        (Strategy::Text, Value::Text(t)) => t@ == hex_text(b),
        (Strategy::Numeric, Value::Number(n)) => n as nat == bytes_value(b),
        _ => false,
    }
}

pub open spec fn option_form(s: Strategy, v: Value, o: Option<Seq<u8>>) -> bool {
    match (o, v) {
        (None, Value::Absent) => true,
        (Some(b), Value::Present(inner)) => leaf_form(s, *inner, b),
        _ => false,
    }
}

pub open spec fn option2_form(s: Strategy, v: Value, o: Option<Option<Seq<u8>>>) -> bool {
    match (o, v) {
        (None, Value::Absent) => true,
        (Some(p), Value::Present(inner)) => option_form(s, *inner, p),
        _ => false,
    }
}

pub open spec fn list_form(s: Strategy, v: Value, bs: Seq<Seq<u8>>) -> bool {
    match v {
        Value::List(items) => {
            &&& items@.len() == bs.len()
            &&& forall|i: int| 0 <= i < bs.len() ==> leaf_form(s, #[trigger] items@[i], bs[i])
        },
        _ => false,
    }
}

pub open spec fn pair_form(s: Strategy, v: Value, p: (Seq<u8>, Seq<u8>)) -> bool {
    match v {
        Value::List(items) => {
            &&& items@.len() == 2
            &&& leaf_form(s, items@[0], p.0)
            &&& leaf_form(s, items@[1], p.1)
        },
        _ => false,
    }
}

/// The bytes that a wire value stands for under strategy `s`, or why it
/// stands for none.
pub open spec fn leaf_decode(s: Strategy, v: Value) -> Result<Seq<u8>, HexError> {
    match (s, v) {
        (Strategy::Text, Value::Text(t)) => if is_hex_text(t@) {
            Ok(decoded(t@))
        } else {
            Err(HexError::Decode)
        },
        (Strategy::Text, _) => Err(mismatch(Kind::Text, v)),
        (Strategy::Numeric, Value::Number(n)) => Ok(min_bytes(n as nat)),
        (Strategy::Numeric, _) => Err(mismatch(Kind::Number, v)),
    }
}

pub open spec fn option_decode(s: Strategy, v: Value) -> Result<Option<Seq<u8>>, HexError> {
    match v {
        Value::Absent => Ok(None),
        Value::Present(inner) => match leaf_decode(s, *inner) {
            Ok(b) => Ok(Some(b)),
            Err(e) => Err(e),
        },
        _ => Err(mismatch(Kind::Optional, v)),
    }
}

pub open spec fn option2_decode(s: Strategy, v: Value) -> Result<Option<Option<Seq<u8>>>, HexError> {
    match v {
        Value::Absent => Ok(None),
        Value::Present(inner) => match option_decode(s, *inner) {
            Ok(p) => Ok(Some(p)),
            Err(e) => Err(e),
        },
        _ => Err(mismatch(Kind::Optional, v)),
    }
}

/// Each item decoded in order; the first failure is the result.
pub open spec fn items_decode(s: Strategy, items: Seq<Value>) -> Result<Seq<Seq<u8>>, HexError>
    decreases items.len(),
{
    if items.len() == 0 {
        Ok(Seq::empty())
    } else {
        match items_decode(s, items.drop_last()) {
            Err(e) => Err(e),
            Ok(bs) => match leaf_decode(s, items.last()) {
                Ok(b) => Ok(bs.push(b)),
                Err(e) => Err(e),
            },
        }
    }
}

pub open spec fn list_decode(s: Strategy, v: Value) -> Result<Seq<Seq<u8>>, HexError> {
    match v {
        Value::List(items) => items_decode(s, items@),
        _ => Err(mismatch(Kind::List, v)),
    }
}

/// A pair is read from the first two items of a list; items after them are
/// ignored. A list that is too short names the first missing index.
pub open spec fn pair_decode(s: Strategy, v: Value) -> Result<(Seq<u8>, Seq<u8>), HexError> {
    match v {
        Value::List(items) => if items@.len() == 0 {
            Err(HexError::Length { missing: 0 })
        } else if items@.len() == 1 {
            Err(HexError::Length { missing: 1 })
        } else {
            match leaf_decode(s, items@[0]) {
                Err(e) => Err(e),
                Ok(a) => match leaf_decode(s, items@[1]) {
                    Err(e) => Err(e),
                    Ok(b) => Ok((a, b)),
                },
            }
        },
        _ => Err(mismatch(Kind::List, v)),
    }
}

/// A failure among the first `k` items is the failure of the whole list.
pub proof fn lemma_items_error_prefix(s: Strategy, items: Seq<Value>, k: int)
    requires
        0 <= k <= items.len(),
        items_decode(s, items.take(k)) is Err,
    ensures
        items_decode(s, items) == items_decode(s, items.take(k)),
    decreases items.len(),
{
    if k < items.len() {
        assert(items.drop_last().take(k) =~= items.take(k));
        lemma_items_error_prefix(s, items.drop_last(), k);
    } else {
        assert(items.take(k) =~= items);
    }
}

/// The text form of a single value decodes to its bytes.
pub proof fn lemma_text_round_trip(v: Value, b: Seq<u8>)
    requires
        leaf_form(Strategy::Text, v, b),
    ensures
        leaf_decode(Strategy::Text, v) == Ok::<Seq<u8>, HexError>(b),
{
    lemma_hex_text_round_trip(b);
}

/// The text form of an optional value decodes back to it.
pub proof fn lemma_text_round_trip_option(v: Value, o: Option<Seq<u8>>)
    requires
        option_form(Strategy::Text, v, o),
    ensures
        option_decode(Strategy::Text, v) == Ok::<Option<Seq<u8>>, HexError>(o),
{
    if let Some(b) = o {
        if let Value::Present(inner) = v {
            lemma_text_round_trip(*inner, b);
        }
    }
}

/// The text form of a doubly-optional value decodes back to it.
pub proof fn lemma_text_round_trip_option2(v: Value, o: Option<Option<Seq<u8>>>)
    requires
        option2_form(Strategy::Text, v, o),
    ensures
        option2_decode(Strategy::Text, v) == Ok::<Option<Option<Seq<u8>>>, HexError>(o),
{
    if let Some(p) = o {
        if let Value::Present(inner) = v {
            lemma_text_round_trip_option(*inner, p);
        }
    }
}

proof fn lemma_text_items_round_trip(items: Seq<Value>, bs: Seq<Seq<u8>>)
    requires
        items.len() == bs.len(),
        forall|i: int| 0 <= i < bs.len() ==> leaf_form(Strategy::Text, #[trigger] items[i], bs[i]),
    ensures
        items_decode(Strategy::Text, items) == Ok::<Seq<Seq<u8>>, HexError>(bs),
    decreases items.len(),
{
    if items.len() > 0 {
        let n = items.len() - 1;
        assert(leaf_form(Strategy::Text, items[n], bs[n]));
        lemma_text_items_round_trip(items.drop_last(), bs.drop_last());
        lemma_text_round_trip(items.last(), bs.last());
        assert(bs.drop_last().push(bs.last()) =~= bs);
    } else {
        assert(bs =~= Seq::<Seq<u8>>::empty());
    }
}

/// The text form of a list decodes back to it, in order.
pub proof fn lemma_text_round_trip_list(v: Value, bs: Seq<Seq<u8>>)
    requires
        list_form(Strategy::Text, v, bs),
    ensures
        list_decode(Strategy::Text, v) == Ok::<Seq<Seq<u8>>, HexError>(bs),
{
    if let Value::List(items) = v {
        lemma_text_items_round_trip(items@, bs);
    }
}

/// The text form of a pair decodes back to it.
pub proof fn lemma_text_round_trip_pair(v: Value, p: (Seq<u8>, Seq<u8>))
    requires
        pair_form(Strategy::Text, v, p),
    ensures
        pair_decode(Strategy::Text, v) == Ok::<(Seq<u8>, Seq<u8>), HexError>(p),
{
    if let Value::List(items) = v {
        lemma_text_round_trip(items@[0], p.0);
        lemma_text_round_trip(items@[1], p.1);
    }
}

/// Which of the three states a doubly-optional value is in: absent (0),
/// present with the inner value absent (1), present with it present (2).
pub open spec fn option2_state(o: Option<Option<Seq<u8>>>) -> int {
    match o {
        None => 0,
        Some(None) => 1,
        Some(Some(_)) => 2,
    }
}

/// Values in different states never share a wire form, under either
/// strategy; under the text strategy no two different values do.
pub proof fn lemma_option2_distinct(
    s: Strategy,
    v1: Value,
    o1: Option<Option<Seq<u8>>>,
    v2: Value,
    o2: Option<Option<Seq<u8>>>,
)
    requires
        option2_form(s, v1, o1),
        option2_form(s, v2, o2),
        option2_state(o1) != option2_state(o2) || (s is Text && o1 != o2),
    ensures
        v1 != v2,
{
    if s is Text && o1 != o2 {
        lemma_text_round_trip_option2(v1, o1);
        lemma_text_round_trip_option2(v2, o2);
    }
}

/// A pair is never read from a list of one item: index 1 is missing.
pub proof fn lemma_pair_one_item(s: Strategy, v: Value)
    requires
        v matches Value::List(items) && items@.len() == 1,
    ensures
        pair_decode(s, v) == Err::<(Seq<u8>, Seq<u8>), HexError>(HexError::Length { missing: 1 }),
{
}

} // verus!
