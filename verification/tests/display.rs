use artichoke_backend::interpreter;
use artichoke_backend::value::Value;

#[test]
fn to_s_true() {
    let mut interp = interpreter();

    let value = interp.convert_bool(true);
    let string = value.to_s(&mut interp);
    assert_eq!(string, b"true");
}

#[test]
fn inspect_true() {
    let mut interp = interpreter();

    let value = interp.convert_bool(true);
    let debug = value.inspect(&mut interp);
    assert_eq!(debug, b"true");
}

#[test]
fn to_s_false() {
    let mut interp = interpreter();

    let value = interp.convert_bool(false);
    let string = value.to_s(&mut interp);
    assert_eq!(string, b"false");
}

#[test]
fn inspect_false() {
    let mut interp = interpreter();

    let value = interp.convert_bool(false);
    let debug = value.inspect(&mut interp);
    assert_eq!(debug, b"false");
}

#[test]
fn to_s_nil() {
    let mut interp = interpreter();

    let value = Value::nil();
    let string = value.to_s(&mut interp);
    assert_eq!(string, b"");
}

#[test]
fn inspect_nil() {
    let mut interp = interpreter();

    let value = Value::nil();
    let debug = value.inspect(&mut interp);
    assert_eq!(debug, b"nil");
}

#[test]
fn to_s_fixnum() {
    let mut interp = interpreter();

    let value = interp.convert_int(255);
    let string = value.to_s(&mut interp);
    assert_eq!(string, b"255");
}

#[test]
fn inspect_fixnum() {
    let mut interp = interpreter();

    let value = interp.convert_int(255);
    let debug = value.inspect(&mut interp);
    assert_eq!(debug, b"255");
}

#[test]
fn to_s_string() {
    let mut interp = interpreter();

    let value = interp.convert_str("interstate");
    let string = value.to_s(&mut interp);
    assert_eq!(string, b"interstate");
}

#[test]
fn inspect_string() {
    let mut interp = interpreter();

    let value = interp.convert_str("interstate");
    let debug = value.inspect(&mut interp);
    assert_eq!(debug, br#""interstate""#);
}

#[test]
fn to_s_empty_string() {
    let mut interp = interpreter();

    let value = interp.convert_str("");
    let string = value.to_s(&mut interp);
    assert_eq!(string, b"");
}

#[test]
fn inspect_empty_string() {
    let mut interp = interpreter();

    let value = interp.convert_str("");
    let debug = value.inspect(&mut interp);
    assert_eq!(debug, br#""""#);
}

#[test]
fn to_s_negative_fixnum() {
    let mut interp = interpreter();

    let value = interp.convert_int(-42);
    let string = value.to_s(&mut interp);
    assert_eq!(string, b"-42");
}

#[test]
fn inspect_string_with_quotes() {
    let mut interp = interpreter();

    let value = interp.convert_bytes(b"a\"b\\c".to_vec());
    let debug = value.inspect(&mut interp);
    assert_eq!(debug, b"\"a\\\"b\\\\c\"");
}

#[test]
fn to_s_array_is_inspect() {
    let mut interp = interpreter();

    let one = interp.convert_int(1);
    let two = interp.convert_str("two");
    let value = interp.convert_values(vec![one, two]);
    let string = value.to_s(&mut interp);
    assert_eq!(string, b"[1, \"two\"]");
}

#[test]
fn inspect_symbol() {
    let mut interp = interpreter();

    let value = Value::Sym(b"word".to_vec());
    let debug = value.inspect(&mut interp);
    assert_eq!(debug, b":word");
}

#[test]
fn inspect_range() {
    let mut interp = interpreter();

    let closed = Value::Range { start: 1, end: 5, exclusive: false };
    assert_eq!(closed.inspect(&mut interp), b"1..5");
    let half_open = Value::Range { start: 1, end: 5, exclusive: true };
    assert_eq!(half_open.inspect(&mut interp), b"1...5");
}

#[test]
fn inspect_hash() {
    let mut interp = interpreter();

    let key = interp.convert_str("k");
    let val = interp.convert_int(7);
    let value = interp.convert_pairs(vec![(key, val)]);
    let debug = value.inspect(&mut interp);
    assert_eq!(debug, b"{\"k\" => 7}");
}
