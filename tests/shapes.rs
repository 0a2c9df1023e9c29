use hexcodec::error::{HexError, Kind};
use hexcodec::hex::Hex;
use hexcodec::wire::Value;
use hexcodec::{as_num, as_str};

fn hex(s: &str) -> Hex {
    Hex::from_text(s).unwrap()
}

fn text(s: &str) -> Value {
    Value::Text(s.to_string())
}

#[derive(Debug, PartialEq)]
struct Thing {
    foo: Hex,
    bar: Hex,
}

#[test]
fn basic_serialization() {
    let thing = Thing { foo: hex("123abc"), bar: Hex::from_numeric(16777215) };
    let foo = as_str::serialize(&thing.foo);
    let bar = as_num::serialize(&thing.bar).unwrap();
    assert!(matches!(&bar, Value::Number(16777215)));
    let thing2 = Thing { foo: as_str::deserialize(&foo).unwrap(), bar: as_num::deserialize(&bar).unwrap() };
    assert_eq!(thing, thing2);
}

#[derive(Debug, PartialEq)]
struct Record {
    foo: Hex,
    bar: Option<Hex>,
    barbar: Option<Option<Hex>>,
    buzz: Vec<Hex>,
    buz: (Hex, Hex),
}

#[test]
fn end_to_end_record() {
    let record = Record {
        foo: hex("123abc"),
        bar: Some(Hex::from_numeric(16777215)),
        barbar: Some(Some(hex("123456"))),
        buzz: vec![Hex::from_bytes(vec![1, 10, 100])],
        buz: (hex("ffffff"), hex("000000")),
    };
    let wire = (
        as_str::serialize(&record.foo),
        as_str::serialize(&record.bar),
        as_str::serialize(&record.barbar),
        as_str::serialize(&record.buzz),
        as_str::serialize(&record.buz),
    );
    let back = Record {
        foo: as_str::deserialize(&wire.0).unwrap(),
        bar: as_str::deserialize(&wire.1).unwrap(),
        barbar: as_str::deserialize(&wire.2).unwrap(),
        buzz: as_str::deserialize(&wire.3).unwrap(),
        buz: as_str::deserialize(&wire.4).unwrap(),
    };
    assert_eq!(record, back);
}

#[test]
fn text_round_trip_of_each_shape() {
    let o: Option<Hex> = None;
    assert_eq!(as_str::deserialize::<Option<Hex>>(&as_str::serialize(&o)), Ok(None));
    let l: Vec<Hex> = vec![];
    assert_eq!(as_str::deserialize::<Vec<Hex>>(&as_str::serialize(&l)), Ok(vec![]));
    let l = vec![hex("00"), hex("00"), hex("abcd")];
    assert_eq!(as_str::deserialize::<Vec<Hex>>(&as_str::serialize(&l)), Ok(l.clone()));
    let p = (hex("0000ff"), hex(""));
    assert_eq!(as_str::deserialize::<(Hex, Hex)>(&as_str::serialize(&p)), Ok(p.clone()));
    let h = hex("00ff");
    assert_eq!(as_str::deserialize::<Hex>(&as_str::serialize(&h)), Ok(h.clone()));
}

#[test]
fn text_forms() {
    assert!(matches!(as_str::serialize(&hex("0A0b")), Value::Text(s) if s == "0a0b"));
    let o: Option<Hex> = None;
    assert!(matches!(as_str::serialize(&o), Value::Absent));
    match as_str::serialize(&(hex("01"), hex("02"))) {
        Value::List(items) => {
            assert_eq!(items.len(), 2);
            assert!(matches!(&items[0], Value::Text(s) if s == "01"));
            assert!(matches!(&items[1], Value::Text(s) if s == "02"));
        },
        other => panic!("unexpected {:?}", other),
    }
}

#[test]
fn doubly_optional_distinguishability() {
    let states: Vec<Option<Option<Hex>>> = vec![None, Some(None), Some(Some(hex("ab")))];
    let forms: Vec<Value> = states.iter().map(|s| as_str::serialize(s)).collect();
    assert!(matches!(&forms[0], Value::Absent));
    assert!(matches!(&forms[1], Value::Present(inner) if matches!(**inner, Value::Absent)));
    assert!(matches!(&forms[2], Value::Present(inner) if matches!(&**inner, Value::Present(x) if matches!(&**x, Value::Text(s) if s == "ab"))));
    for (state, form) in states.iter().zip(forms.iter()) {
        assert_eq!(&as_str::deserialize::<Option<Option<Hex>>>(form).unwrap(), state);
    }
    for state in states.iter() {
        let form = as_num::serialize(state).unwrap();
        assert_eq!(&as_num::deserialize::<Option<Option<Hex>>>(&form).unwrap(), state);
    }
}

#[test]
fn pair_under_length() {
    let one = Value::List(vec![text("ab")]);
    assert_eq!(as_str::deserialize::<(Hex, Hex)>(&one), Err(HexError::Length { missing: 1 }));
    let bad_one = Value::List(vec![text("zz")]);
    assert_eq!(as_str::deserialize::<(Hex, Hex)>(&bad_one), Err(HexError::Length { missing: 1 }));
    let none = Value::List(vec![]);
    assert_eq!(as_str::deserialize::<(Hex, Hex)>(&none), Err(HexError::Length { missing: 0 }));
    let one_num = Value::List(vec![Value::Number(3)]);
    assert_eq!(as_num::deserialize::<(Hex, Hex)>(&one_num), Err(HexError::Length { missing: 1 }));
}

#[test]
fn pair_ignores_a_third_item() {
    let three = Value::List(vec![text("01"), text("02"), text("zz")]);
    assert_eq!(as_str::deserialize::<(Hex, Hex)>(&three), Ok((hex("01"), hex("02"))));
}

#[test]
fn decode_failure_inside_shapes() {
    assert_eq!(as_str::deserialize::<Hex>(&text("zz")), Err(HexError::Decode));
    assert_eq!(as_str::deserialize::<Hex>(&text("abc")), Err(HexError::Decode));
    let list = Value::List(vec![text("01"), text("zz"), Value::Number(1)]);
    assert_eq!(as_str::deserialize::<Vec<Hex>>(&list), Err(HexError::Decode));
    let opt = Value::Present(Box::new(text("abc")));
    assert_eq!(as_str::deserialize::<Option<Hex>>(&opt), Err(HexError::Decode));
}

#[test]
fn shape_mismatch() {
    assert_eq!(
        as_str::deserialize::<Hex>(&Value::Number(5)),
        Err(HexError::ShapeMismatch { expected: Kind::Text, found: Kind::Number })
    );
    assert_eq!(
        as_num::deserialize::<Hex>(&text("05")),
        Err(HexError::ShapeMismatch { expected: Kind::Number, found: Kind::Text })
    );
    assert_eq!(
        as_str::deserialize::<Option<Hex>>(&text("05")),
        Err(HexError::ShapeMismatch { expected: Kind::Optional, found: Kind::Text })
    );
    assert_eq!(
        as_str::deserialize::<Vec<Hex>>(&Value::Absent),
        Err(HexError::ShapeMismatch { expected: Kind::List, found: Kind::Optional })
    );
    assert_eq!(
        as_num::deserialize::<(Hex, Hex)>(&Value::Number(1)),
        Err(HexError::ShapeMismatch { expected: Kind::List, found: Kind::Number })
    );
    let nested = Value::List(vec![Value::List(vec![])]);
    assert_eq!(
        as_str::deserialize::<Vec<Hex>>(&nested),
        Err(HexError::ShapeMismatch { expected: Kind::Text, found: Kind::List })
    );
}

#[test]
fn numeric_forms_and_round_trip() {
    let l = vec![hex("0f"), hex("00ff"), hex("")];
    let form = as_num::serialize(&l).unwrap();
    match &form {
        Value::List(items) => {
            assert!(matches!(items[0], Value::Number(15)));
            assert!(matches!(items[1], Value::Number(255)));
            assert!(matches!(items[2], Value::Number(0)));
        },
        other => panic!("unexpected {:?}", other),
    }
    let back: Vec<Hex> = as_num::deserialize(&form).unwrap();
    assert_eq!(back, vec![hex("0f"), hex("ff"), hex("00")]);
    let p = (hex("0100"), hex("ffffff"));
    let back: (Hex, Hex) = as_num::deserialize(&as_num::serialize(&p).unwrap()).unwrap();
    assert_eq!(back, p);
    let o = Some(hex("123abc"));
    let back: Option<Hex> = as_num::deserialize(&as_num::serialize(&o).unwrap()).unwrap();
    assert_eq!(back, o);
}

#[test]
fn numeric_serialize_overflow() {
    let big = Hex::from_bytes(vec![1; 9]);
    assert_eq!(as_num::serialize(&big).unwrap_err(), HexError::Overflow);
    assert_eq!(as_num::serialize(&vec![hex("01"), big.clone()]).unwrap_err(), HexError::Overflow);
    assert_eq!(as_num::serialize(&(hex("01"), big.clone())).unwrap_err(), HexError::Overflow);
    assert_eq!(as_num::serialize(&Some(Some(big))).unwrap_err(), HexError::Overflow);
}

#[test]
fn value_kinds() {
    assert_eq!(Value::Absent.kind(), Kind::Optional);
    assert_eq!(Value::Present(Box::new(Value::Number(1))).kind(), Kind::Optional);
    assert_eq!(text("").kind(), Kind::Text);
    assert_eq!(Value::Number(0).kind(), Kind::Number);
    assert_eq!(Value::List(vec![]).kind(), Kind::List);
}
