//! The text strategy: each `Hex` goes on the wire as its lowercase hex text.
use vstd::prelude::*;

use crate::error::{HexError, Kind};
use crate::hex::Hex;
use crate::wire::{
    Strategy, Value, items_decode, leaf_decode, leaf_form, lemma_items_error_prefix, list_decode,
    list_form, list_view, option2_decode, option2_form, option2_view, option_decode, option_form,
    option_view, pair_decode, pair_form, pair_view,
};

verus! {

/// A field shape that can be written as hex text.
pub trait HexSerialize {
    spec fn is_text_form(&self, v: Value) -> bool;

    fn serialize(&self) -> (r: Value)
        ensures
            self.is_text_form(r),
    ;
}

/// A field shape that can be read from hex text.
pub trait HexDeserialize: Sized {
    spec fn text_decodes_to(v: Value, r: Result<Self, HexError>) -> bool;

    fn deserialize(v: &Value) -> (r: Result<Self, HexError>)
        ensures
            Self::text_decodes_to(*v, r),
    ;
}

impl HexSerialize for Hex {
    open spec fn is_text_form(&self, v: Value) -> bool {
        leaf_form(Strategy::Text, v, self@)
    }

    fn serialize(&self) -> (r: Value) {
        Value::Text(self.to_alphanumeric())
    }
}

impl HexSerialize for Option<Hex> {
    open spec fn is_text_form(&self, v: Value) -> bool {
        option_form(Strategy::Text, v, option_view(*self))
    }

    fn serialize(&self) -> (r: Value) {
        match self {
            Some(h) => Value::Present(Box::new(h.serialize())),
            None => Value::Absent,
        }
    }
}

impl HexSerialize for Option<Option<Hex>> {
    open spec fn is_text_form(&self, v: Value) -> bool {
        option2_form(Strategy::Text, v, option2_view(*self))
    }

    fn serialize(&self) -> (r: Value) {
        match self {
            Some(p) => Value::Present(Box::new(p.serialize())),
            None => Value::Absent,
        }
    }
}

impl HexSerialize for Vec<Hex> {
    open spec fn is_text_form(&self, v: Value) -> bool {
        list_form(Strategy::Text, v, list_view(self@))
    }

    fn serialize(&self) -> (r: Value) {
        let mut items: Vec<Value> = Vec::new();
        let mut i: usize = 0;
        while i < self.len()
            invariant
                i <= self@.len(),
                items@.len() == i,
                forall|j: int| 0 <= j < i ==> leaf_form(Strategy::Text, #[trigger] items@[j], self@[j]@),
            decreases self@.len() - i,
        {
            items.push(self[i].serialize());
            i = i + 1;
        }
        Value::List(items)
    }
}

impl HexSerialize for (Hex, Hex) {
    open spec fn is_text_form(&self, v: Value) -> bool {
        pair_form(Strategy::Text, v, pair_view(*self))
    }

    fn serialize(&self) -> (r: Value) {
        let mut items: Vec<Value> = Vec::new();
        items.push(self.0.serialize());
        items.push(self.1.serialize());
        Value::List(items)
    }
}

impl HexDeserialize for Hex {
    open spec fn text_decodes_to(v: Value, r: Result<Hex, HexError>) -> bool {
        match r {
            Ok(h) => leaf_decode(Strategy::Text, v) == Ok::<Seq<u8>, HexError>(h@),
            Err(e) => leaf_decode(Strategy::Text, v) == Err::<Seq<u8>, HexError>(e),
        }
    }

    fn deserialize(v: &Value) -> (r: Result<Hex, HexError>) {
        match v {
            Value::Text(t) => Hex::from_text(t.as_str()),
            _ => Err(HexError::ShapeMismatch { expected: Kind::Text, found: v.kind() }),
        }
    }
}

impl HexDeserialize for Option<Hex> {
    open spec fn text_decodes_to(v: Value, r: Result<Option<Hex>, HexError>) -> bool {
        match r {
            Ok(o) => option_decode(Strategy::Text, v) == Ok::<Option<Seq<u8>>, HexError>(
                option_view(o),
            ),
            Err(e) => option_decode(Strategy::Text, v) == Err::<Option<Seq<u8>>, HexError>(e),
        }
    }

    fn deserialize(v: &Value) -> (r: Result<Option<Hex>, HexError>) {
        match v {
            Value::Absent => Ok(None),
            Value::Present(inner) => match <Hex as HexDeserialize>::deserialize(&**inner) {
                Ok(h) => Ok(Some(h)),
                Err(e) => Err(e),
            },
            _ => Err(HexError::ShapeMismatch { expected: Kind::Optional, found: v.kind() }),
        }
    }
}

impl HexDeserialize for Option<Option<Hex>> {
    open spec fn text_decodes_to(v: Value, r: Result<Option<Option<Hex>>, HexError>) -> bool {
        match r {
            Ok(o) => option2_decode(Strategy::Text, v) == Ok::<Option<Option<Seq<u8>>>, HexError>(
                option2_view(o),
            ),
            Err(e) => option2_decode(Strategy::Text, v) == Err::<Option<Option<Seq<u8>>>, HexError>(
                e,
            ),
        }
    }

    fn deserialize(v: &Value) -> (r: Result<Option<Option<Hex>>, HexError>) {
        match v {
            Value::Absent => Ok(None),
            Value::Present(inner) => match <Option<Hex> as HexDeserialize>::deserialize(&**inner) {
                Ok(p) => Ok(Some(p)),
                Err(e) => Err(e),
            },
            _ => Err(HexError::ShapeMismatch { expected: Kind::Optional, found: v.kind() }),
        }
    }
}

impl HexDeserialize for Vec<Hex> {
    open spec fn text_decodes_to(v: Value, r: Result<Vec<Hex>, HexError>) -> bool {
        match r {
            Ok(xs) => list_decode(Strategy::Text, v) == Ok::<Seq<Seq<u8>>, HexError>(
                list_view(xs@),
            ),
            Err(e) => list_decode(Strategy::Text, v) == Err::<Seq<Seq<u8>>, HexError>(e),
        }
    }

    fn deserialize(v: &Value) -> (r: Result<Vec<Hex>, HexError>) {
        match v {
            Value::List(items) => {
                let mut out: Vec<Hex> = Vec::new();
                let mut i: usize = 0;
                proof {
                    assert(items@.take(0) =~= Seq::<Value>::empty());
                    assert(list_view(out@) =~= Seq::<Seq<u8>>::empty());
                }
                while i < items.len()
                    invariant
                        i <= items@.len(),
                        list_decode(Strategy::Text, *v) == items_decode(Strategy::Text, items@),
                        items_decode(Strategy::Text, items@.take(i as int)) == Ok::<
                            Seq<Seq<u8>>,
                            HexError,
                        >(list_view(out@)),
                    decreases items@.len() - i,
                {
                    proof {
                        assert(items@.take(i + 1).drop_last() =~= items@.take(i as int));
                        assert(items@.take(i + 1).last() == items@[i as int]);
                    }
                    match <Hex as HexDeserialize>::deserialize(&items[i]) {
                        Ok(h) => {
                            let ghost before = out@;
                            out.push(h);
                            proof {
                                assert(list_view(out@) =~= list_view(before).push(h@));
                            }
                        },
                        Err(e) => {
                            proof {
                                assert(leaf_decode(Strategy::Text, items@[i as int]) == Err::<
                                    Seq<u8>,
                                    HexError,
                                >(e));
                                assert(items_decode(Strategy::Text, items@.take(i + 1)) == Err::<
                                    Seq<Seq<u8>>,
                                    HexError,
                                >(e));
                                lemma_items_error_prefix(Strategy::Text, items@, i + 1);
                            }
                            return Err(e);
                        },
                    }
                    i = i + 1;
                }
                proof {
                    assert(items@.take(i as int) =~= items@);
                }
                Ok(out)
            },
            _ => Err(HexError::ShapeMismatch { expected: Kind::List, found: v.kind() }),
        }
    }
}

impl HexDeserialize for (Hex, Hex) {
    open spec fn text_decodes_to(v: Value, r: Result<(Hex, Hex), HexError>) -> bool {
        match r {
            Ok(p) => pair_decode(Strategy::Text, v) == Ok::<(Seq<u8>, Seq<u8>), HexError>(
                pair_view(p),
            ),
            Err(e) => pair_decode(Strategy::Text, v) == Err::<(Seq<u8>, Seq<u8>), HexError>(e),
        }
    }

    fn deserialize(v: &Value) -> (r: Result<(Hex, Hex), HexError>) {
        match v {
            Value::List(items) => {
                if items.len() == 0 {
                    return Err(HexError::Length { missing: 0 });
                }
                if items.len() == 1 {
                    return Err(HexError::Length { missing: 1 });
                }
                let first = match <Hex as HexDeserialize>::deserialize(&items[0]) {
                    Ok(h) => h,
                    Err(e) => return Err(e),
                };
                let second = match <Hex as HexDeserialize>::deserialize(&items[1]) {
                    Ok(h) => h,
                    Err(e) => return Err(e),
                };
                Ok((first, second))
            },
            _ => Err(HexError::ShapeMismatch { expected: Kind::List, found: v.kind() }),
        }
    }
}

/// Writes any of the five shapes as hex text.
pub fn serialize<T: HexSerialize>(hex: &T) -> (r: Value)
    ensures
        hex.is_text_form(r),
{
    hex.serialize()
}

/// Reads any of the five shapes from hex text.
pub fn deserialize<T: HexDeserialize>(v: &Value) -> (r: Result<T, HexError>)
    ensures
        T::text_decodes_to(*v, r),
{
    T::deserialize(v)
}

} // verus!
