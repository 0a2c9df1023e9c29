//! The numeric strategy: each `Hex` goes on the wire as the unsigned number
//! that its hex text stands for. Leading zero bytes are lost on the way, so
//! reading back gives the shortest bytes of that number.
use vstd::prelude::*;

use crate::error::{HexError, Kind};
use crate::hex::{Hex, bytes_value};
use crate::wire::{
    Strategy, Value, items_decode, leaf_decode, leaf_form, lemma_items_error_prefix, list_decode,
    list_form, list_view, option2_decode, option2_form, option2_view, option_decode, option_form,
    option_view, pair_decode, pair_form, pair_view,
};

verus! {

/// The bytes stand for a number that a `u64` holds.
pub open spec fn fits_u64(b: Seq<u8>) -> bool {
    bytes_value(b) <= u64::MAX
}

/// A field shape that can be written as numbers.
pub trait HexSerialize {
    /// Every `Hex` in the value stands for a number that a `u64` holds.
    spec fn fits(&self) -> bool;

    spec fn is_number_form(&self, v: Value) -> bool;

    fn serialize(&self) -> (r: Result<Value, HexError>)
        ensures
            r is Ok <==> self.fits(),
            r matches Ok(v) ==> self.is_number_form(v),
            r matches Err(e) ==> e == HexError::Overflow,
    ;
}

/// A field shape that can be read from numbers.
pub trait HexDeserialize: Sized {
    spec fn number_decodes_to(v: Value, r: Result<Self, HexError>) -> bool;

    fn deserialize(v: &Value) -> (r: Result<Self, HexError>)
        ensures
            Self::number_decodes_to(*v, r),
    ;
}

impl HexSerialize for Hex {
    open spec fn fits(&self) -> bool {
        fits_u64(self@)
    }

    open spec fn is_number_form(&self, v: Value) -> bool {
        leaf_form(Strategy::Numeric, v, self@)
    }

    fn serialize(&self) -> (r: Result<Value, HexError>) {
        match self.to_numeric() {
            Ok(n) => Ok(Value::Number(n)),
            Err(e) => Err(e),
        }
    }
}

impl HexSerialize for Option<Hex> {
    open spec fn fits(&self) -> bool {
        match *self {
            Some(h) => fits_u64(h@),
            None => true,
        }
    }

    open spec fn is_number_form(&self, v: Value) -> bool {
        option_form(Strategy::Numeric, v, option_view(*self))
    }

    fn serialize(&self) -> (r: Result<Value, HexError>) {
        match self {
            Some(h) => match h.serialize() {
                Ok(v) => Ok(Value::Present(Box::new(v))),
                Err(e) => Err(e),
            },
            None => Ok(Value::Absent),
        }
    }
}

impl HexSerialize for Option<Option<Hex>> {
    open spec fn fits(&self) -> bool {
        match *self {
            Some(Some(h)) => fits_u64(h@),
            _ => true,
        }
    }

    open spec fn is_number_form(&self, v: Value) -> bool {
        option2_form(Strategy::Numeric, v, option2_view(*self))
    }

    fn serialize(&self) -> (r: Result<Value, HexError>) {
        match self {
            Some(p) => match p.serialize() {
                Ok(v) => Ok(Value::Present(Box::new(v))),
                Err(e) => Err(e),
            },
            None => Ok(Value::Absent),
        }
    }
}

impl HexSerialize for Vec<Hex> {
    open spec fn fits(&self) -> bool {
        forall|i: int| 0 <= i < self@.len() ==> fits_u64(#[trigger] self@[i]@)
    }

    open spec fn is_number_form(&self, v: Value) -> bool {
        list_form(Strategy::Numeric, v, list_view(self@))
    }

    fn serialize(&self) -> (r: Result<Value, HexError>) {
        let mut items: Vec<Value> = Vec::new();
        let mut i: usize = 0;
        while i < self.len()
            invariant
                i <= self@.len(),
                items@.len() == i,
                forall|j: int| 0 <= j < i ==> fits_u64(#[trigger] self@[j]@),
                forall|j: int|
                    0 <= j < i ==> leaf_form(Strategy::Numeric, #[trigger] items@[j], self@[j]@),
            decreases self@.len() - i,
        {
            match self[i].serialize() {
                Ok(v) => items.push(v),
                Err(e) => return Err(e),
            }
            i = i + 1;
        }
        Ok(Value::List(items))
    }
}

impl HexSerialize for (Hex, Hex) {
    open spec fn fits(&self) -> bool {
        fits_u64(self.0@) && fits_u64(self.1@)
    }

    open spec fn is_number_form(&self, v: Value) -> bool {
        pair_form(Strategy::Numeric, v, pair_view(*self))
    }

    fn serialize(&self) -> (r: Result<Value, HexError>) {
        let first = match self.0.serialize() {
            Ok(v) => v,
            Err(e) => return Err(e),
        };
        let second = match self.1.serialize() {
            Ok(v) => v,
            Err(e) => return Err(e),
        };
        let mut items: Vec<Value> = Vec::new();
        items.push(first);
        items.push(second);
        Ok(Value::List(items))
    }
}

impl HexDeserialize for Hex {
    open spec fn number_decodes_to(v: Value, r: Result<Hex, HexError>) -> bool {
        match r {
            Ok(h) => leaf_decode(Strategy::Numeric, v) == Ok::<Seq<u8>, HexError>(h@),
            Err(e) => leaf_decode(Strategy::Numeric, v) == Err::<Seq<u8>, HexError>(e),
        }
    }

    fn deserialize(v: &Value) -> (r: Result<Hex, HexError>) {
        match v {
            Value::Number(n) => Ok(Hex::from_numeric(*n)),
            _ => Err(HexError::ShapeMismatch { expected: Kind::Number, found: v.kind() }),
        }
    }
}

impl HexDeserialize for Option<Hex> {
    open spec fn number_decodes_to(v: Value, r: Result<Option<Hex>, HexError>) -> bool {
        match r {
            Ok(o) => option_decode(Strategy::Numeric, v) == Ok::<Option<Seq<u8>>, HexError>(
                option_view(o),
            ),
            Err(e) => option_decode(Strategy::Numeric, v) == Err::<Option<Seq<u8>>, HexError>(e),
        }
    }

    fn deserialize(v: &Value) -> (r: Result<Option<Hex>, HexError>) {
        match v {
            Value::Absent => Ok(None),
            Value::Present(inner) => match <Hex as HexDeserialize>::deserialize(&**inner) {
                Ok(h) => Ok(Some(h)),
                Err(e) => Err(e),
            },
            _ => Err(HexError::ShapeMismatch { expected: Kind::Optional, found: v.kind() }),
        }
    }
}

impl HexDeserialize for Option<Option<Hex>> {
    open spec fn number_decodes_to(v: Value, r: Result<Option<Option<Hex>>, HexError>) -> bool {
        match r {
            Ok(o) => option2_decode(Strategy::Numeric, v) == Ok::<Option<Option<Seq<u8>>>, HexError>(
                option2_view(o),
            ),
            Err(e) => option2_decode(Strategy::Numeric, v) == Err::<Option<Option<Seq<u8>>>, HexError>(
                e,
            ),
        }
    }

    fn deserialize(v: &Value) -> (r: Result<Option<Option<Hex>>, HexError>) {
        match v {
            Value::Absent => Ok(None),
            Value::Present(inner) => match <Option<Hex> as HexDeserialize>::deserialize(&**inner) {
                Ok(p) => Ok(Some(p)),
                Err(e) => Err(e),
            },
            _ => Err(HexError::ShapeMismatch { expected: Kind::Optional, found: v.kind() }),
        }
    }
}

impl HexDeserialize for Vec<Hex> {
    open spec fn number_decodes_to(v: Value, r: Result<Vec<Hex>, HexError>) -> bool {
        match r {
            Ok(xs) => list_decode(Strategy::Numeric, v) == Ok::<Seq<Seq<u8>>, HexError>(
                list_view(xs@),
            ),
            Err(e) => list_decode(Strategy::Numeric, v) == Err::<Seq<Seq<u8>>, HexError>(e),
        }
    }

    fn deserialize(v: &Value) -> (r: Result<Vec<Hex>, HexError>) {
        match v {
            Value::List(items) => {
                let mut out: Vec<Hex> = Vec::new();
                let mut i: usize = 0;
                proof {
                    assert(items@.take(0) =~= Seq::<Value>::empty());
                    assert(list_view(out@) =~= Seq::<Seq<u8>>::empty());
                }
                while i < items.len()
                    invariant
                        i <= items@.len(),
                        list_decode(Strategy::Numeric, *v) == items_decode(Strategy::Numeric, items@),
                        items_decode(Strategy::Numeric, items@.take(i as int)) == Ok::<
                            Seq<Seq<u8>>,
                            HexError,
                        >(list_view(out@)),
                    decreases items@.len() - i,
                {
                    proof {
                        assert(items@.take(i + 1).drop_last() =~= items@.take(i as int));
                        assert(items@.take(i + 1).last() == items@[i as int]);
                    }
                    match <Hex as HexDeserialize>::deserialize(&items[i]) {
                        Ok(h) => {
                            let ghost before = out@;
                            out.push(h);
                            proof {
                                assert(list_view(out@) =~= list_view(before).push(h@));
                            }
                        },
                        Err(e) => {
                            proof {
                                assert(leaf_decode(Strategy::Numeric, items@[i as int]) == Err::<
                                    Seq<u8>,
                                    HexError,
                                >(e));
                                assert(items_decode(Strategy::Numeric, items@.take(i + 1)) == Err::<
                                    Seq<Seq<u8>>,
                                    HexError,
                                >(e));
                                lemma_items_error_prefix(Strategy::Numeric, items@, i + 1);
                            }
                            return Err(e);
                        },
                    }
                    i = i + 1;
                }
                proof {
                    assert(items@.take(i as int) =~= items@);
                }
                Ok(out)
            },
            _ => Err(HexError::ShapeMismatch { expected: Kind::List, found: v.kind() }),
        }
    }
}

impl HexDeserialize for (Hex, Hex) {
    open spec fn number_decodes_to(v: Value, r: Result<(Hex, Hex), HexError>) -> bool {
        match r {
            Ok(p) => pair_decode(Strategy::Numeric, v) == Ok::<(Seq<u8>, Seq<u8>), HexError>(
                pair_view(p),
            ),
            Err(e) => pair_decode(Strategy::Numeric, v) == Err::<(Seq<u8>, Seq<u8>), HexError>(e),
        }
    }

    fn deserialize(v: &Value) -> (r: Result<(Hex, Hex), HexError>) {
        match v {
            Value::List(items) => {
                if items.len() == 0 {
                    return Err(HexError::Length { missing: 0 });
                }
                if items.len() == 1 {
                    return Err(HexError::Length { missing: 1 });
                }
                let first = match <Hex as HexDeserialize>::deserialize(&items[0]) {
                    Ok(h) => h,
                    Err(e) => return Err(e),
                };
                let second = match <Hex as HexDeserialize>::deserialize(&items[1]) {
                    Ok(h) => h,
                    Err(e) => return Err(e),
                };
                Ok((first, second))
            },
            _ => Err(HexError::ShapeMismatch { expected: Kind::List, found: v.kind() }),
        }
    }
}

/// Writes any of the five shapes as numbers; `Overflow` where a `Hex` in it
/// stands for more than `u64::MAX`.
pub fn serialize<T: HexSerialize>(hex: &T) -> (r: Result<Value, HexError>)
    ensures
        r is Ok <==> hex.fits(),
        r matches Ok(v) ==> hex.is_number_form(v),
        r matches Err(e) ==> e == HexError::Overflow,
{
    hex.serialize()
}

/// Reads any of the five shapes from numbers.
pub fn deserialize<T: HexDeserialize>(v: &Value) -> (r: Result<T, HexError>)
    ensures
        T::number_decodes_to(*v, r),
{
    T::deserialize(v)
}

} // verus!
