use artichoke_backend::interpreter;
use artichoke_backend::kernel;
use artichoke_backend::value::Value;

#[test]
fn print_appends_to_s_forms() {
    let mut interp = interpreter();
    let a = interp.convert_str("ab");
    let b = interp.convert_int(3);
    kernel::print(&mut interp, vec![a, b]).unwrap();
    assert_eq!(interp.output, b"ab3");
}

#[test]
fn puts_terminates_every_leaf_with_a_newline() {
    let mut interp = interpreter();
    let a = interp.convert_str("one");
    let b = interp.convert_str("two\n");
    kernel::puts(&mut interp, vec![a, b]).unwrap();
    assert_eq!(interp.output, b"one\ntwo\n");
}

#[test]
fn puts_flattens_arrays() {
    let mut interp = interpreter();
    let x = interp.convert_int(1);
    let y = interp.convert_int(2);
    let inner = interp.convert_values(vec![y]);
    let arg = interp.convert_values(vec![x, inner]);
    kernel::puts(&mut interp, vec![arg]).unwrap();
    assert_eq!(interp.output, b"1\n2\n");
}

#[test]
fn puts_without_arguments_prints_a_newline() {
    let mut interp = interpreter();
    kernel::puts(&mut interp, Vec::new()).unwrap();
    assert_eq!(interp.output, b"\n");
}

#[test]
fn p_inspects_and_returns_its_argument() {
    let mut interp = interpreter();
    let s = interp.convert_str("word");
    let back = kernel::p(&mut interp, vec![s]).unwrap();
    assert_eq!(interp.output, b"\"word\"\n");
    assert!(matches!(back, Value::Str(b) if b == b"word"));

    let mut interp = interpreter();
    let one = interp.convert_int(1);
    let two = interp.convert_int(2);
    let back = kernel::p(&mut interp, vec![one, two]).unwrap();
    assert_eq!(interp.output, b"1\n2\n");
    assert!(matches!(back, Value::Array(items) if items.len() == 2));

    let mut interp = interpreter();
    let back = kernel::p(&mut interp, Vec::new()).unwrap();
    assert_eq!(interp.output, b"");
    assert!(matches!(back, Value::Nil));
}

#[test]
fn integer_parses_decimal_literals() {
    let mut interp = interpreter();
    let arg = interp.convert_str("  42  ");
    let n = kernel::integer(&mut interp, arg, None).unwrap();
    assert!(matches!(n, Value::Fixnum(42)));

    let arg = interp.convert_str("-1_000");
    let n = kernel::integer(&mut interp, arg, None).unwrap();
    assert!(matches!(n, Value::Fixnum(-1000)));
}

#[test]
fn integer_parses_other_bases() {
    let mut interp = interpreter();
    let arg = interp.convert_str("ff");
    let base = interp.convert_int(16);
    let n = kernel::integer(&mut interp, arg, Some(base)).unwrap();
    assert!(matches!(n, Value::Fixnum(255)));

    let arg = interp.convert_str("101");
    let base = interp.convert_int(2);
    let n = kernel::integer(&mut interp, arg, Some(base)).unwrap();
    assert!(matches!(n, Value::Fixnum(5)));
}

#[test]
fn integer_rejects_malformed_literals() {
    let mut interp = interpreter();
    for bad in ["", "  ", "_1", "1_", "1__2", "12a", "+-3"] {
        let arg = interp.convert_str(bad);
        let err = kernel::integer(&mut interp, arg, None).unwrap_err();
        assert_eq!(err.name(), b"ArgumentError", "{bad:?} must be rejected");
    }
    let arg = interp.convert_str("10");
    let base = interp.convert_int(1);
    let err = kernel::integer(&mut interp, arg, Some(base)).unwrap_err();
    assert_eq!(err.name(), b"ArgumentError");
}

#[test]
fn integer_passes_integers_through() {
    let mut interp = interpreter();
    let arg = interp.convert_int(31);
    let n = kernel::integer(&mut interp, arg, None).unwrap();
    assert!(matches!(n, Value::Fixnum(31)));
    let arg = interp.convert_int(31);
    let base = interp.convert_int(16);
    let err = kernel::integer(&mut interp, arg, Some(base)).unwrap_err();
    assert_eq!(err.name(), b"ArgumentError");
}

#[test]
fn load_runs_the_feature_every_time() {
    let mut interp = interpreter();
    let loaded = kernel::load(&mut interp, Value::Str(b"securerandom.rb".to_vec())).unwrap();
    assert!(matches!(loaded, Value::Bool(true)));
    // A second load is answered true again; the registration itself is
    // one-time, so nothing is defined twice.
    let scopes_after_first = interp.scopes.len();
    let loaded = kernel::load(&mut interp, Value::Str(b"securerandom.rb".to_vec())).unwrap();
    assert!(matches!(loaded, Value::Bool(true)));
    assert_eq!(interp.scopes.len(), scopes_after_first);
}

#[test]
fn require_relative_behaves_like_require() {
    let mut interp = interpreter();
    let missing = kernel::require_relative(&mut interp, Value::Str(b"container".to_vec()));
    assert!(missing.is_err());
    artichoke_backend::container::init(&mut interp).unwrap();
    let ok = kernel::require_relative(&mut interp, Value::Str(b"container".to_vec())).unwrap();
    assert!(matches!(ok, Value::Bool(true)));
    let again = kernel::require_relative(&mut interp, Value::Str(b"container".to_vec())).unwrap();
    assert!(matches!(again, Value::Bool(false)));
}
