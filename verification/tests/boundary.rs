use artichoke_backend::exception::Exception;
use artichoke_backend::interpreter;
use artichoke_backend::value::{Value, MRB_FUNCALL_ARGC_MAX};

#[test]
fn funcall() {
    let mut interp = interpreter();
    let nil = Value::nil();
    let nil_is_nil = match nil.funcall(&mut interp, "nil?", &Vec::new(), None).unwrap() {
        Value::Bool(b) => b,
        _ => panic!("expected a boolean"),
    };
    assert!(nil_is_nil);
    let s = interp.convert_str("foo");
    let string_is_nil = match s.funcall(&mut interp, "nil?", &Vec::new(), None).unwrap() {
        Value::Bool(b) => b,
        _ => panic!("expected a boolean"),
    };
    assert!(!string_is_nil);
    let len = s.funcall(&mut interp, "length", &Vec::new(), None).unwrap();
    assert!(matches!(len, Value::Fixnum(3)));
}

#[test]
fn funcall_different_types() {
    let mut interp = interpreter();
    let nil = Value::nil();
    let s = interp.convert_str("foo");
    let eql = match nil.funcall(&mut interp, "==", &vec![s], None).unwrap() {
        Value::Bool(b) => b,
        _ => panic!("expected a boolean"),
    };
    assert!(!eql);
}

#[test]
fn funcall_method_not_exists() {
    let mut interp = interpreter();
    let nil = Value::nil();
    let s = interp.convert_str("foo");
    let err = nil
        .funcall(&mut interp, "garbage_method_name", &vec![s], None)
        .unwrap_err();
    assert_eq!(err.name(), b"NoMethodError");
    assert_eq!(err.message(), &b"undefined method 'garbage_method_name'"[..]);
}

#[test]
fn too_many_arguments_fail_before_any_dispatch() {
    let mut interp = interpreter();
    let mut args = Vec::new();
    for i in 0..(MRB_FUNCALL_ARGC_MAX + 1) {
        args.push(interp.convert_int(i as i64));
    }
    let calls_before = interp.vm_calls;
    let err = Value::nil().funcall(&mut interp, "to_s", &args, None).unwrap_err();
    match err {
        Exception::ArgCount(e) => {
            assert_eq!(e.given, MRB_FUNCALL_ARGC_MAX + 1);
            assert_eq!(e.max, MRB_FUNCALL_ARGC_MAX);
        }
        _ => panic!("expected an argument-count error"),
    }
    // The check ran before any dispatch: the counter never moved.
    assert_eq!(interp.vm_calls, calls_before);
}

#[test]
fn the_boundary_admits_the_maximum_argument_count() {
    let mut interp = interpreter();
    let mut args = Vec::new();
    for i in 0..MRB_FUNCALL_ARGC_MAX {
        args.push(interp.convert_int(i as i64));
    }
    let calls_before = interp.vm_calls;
    // Sixteen arguments are admitted; the method itself rejects the
    // surplus, which is fine: a dispatch happened.
    let _ = Value::nil().funcall(&mut interp, "nil?", &args, None);
    assert_eq!(interp.vm_calls, calls_before + 1);
}

#[test]
fn respond_to_reports_the_builtin_set() {
    let mut interp = interpreter();
    let s = interp.convert_str("foo");
    assert!(s.respond_to(&mut interp, "to_s").unwrap());
    assert!(s.respond_to(&mut interp, "length").unwrap());
    assert!(!s.respond_to(&mut interp, "name").unwrap());
    let nil = Value::nil();
    assert!(!nil.respond_to(&mut interp, "length").unwrap());
}

#[test]
fn freeze_marks_an_instance() {
    let mut interp = interpreter();
    artichoke_backend::container::Container::require(&mut interp).unwrap();
    let mut instance = interp
        .new_instance(artichoke_backend::interp::KEY_CONTAINER, &Vec::new())
        .unwrap()
        .unwrap();
    assert!(!instance.is_frozen(&mut interp));
    instance.freeze(&mut interp).unwrap();
    assert!(instance.is_frozen(&mut interp));
}

#[test]
fn immediate_is_dead() {
    let mut interp = interpreter();
    interp.arena_savepoint();
    let live = interp.convert_int(27);
    assert!(!live.is_dead(&mut interp));
    let immediate = live;
    let live = interp.convert_int(64);
    interp.arena_restore();
    interp.full_gc();
    // immediate objects are never dead
    assert!(!immediate.is_dead(&mut interp));
    assert!(!live.is_dead(&mut interp));
    // Fixnums are immediate even if they are created directly without an
    // interpreter.
    let fixnum = interp.convert_int(99);
    assert!(!fixnum.is_dead(&mut interp));
}

#[test]
fn implicit_conversions() {
    let mut interp = interpreter();
    let n = interp.convert_int(7);
    assert_eq!(n.implicitly_convert_to_int(&mut interp).unwrap(), 7);
    let nil = Value::nil();
    let err = nil.implicitly_convert_to_int(&mut interp).unwrap_err();
    assert_eq!(err.message(), b"no implicit conversion from nil to integer");
    let err = n.implicitly_convert_to_string(&mut interp).unwrap_err();
    assert_eq!(err.message(), b"no implicit conversion of Integer into String");
    let s = interp.convert_str("word");
    assert_eq!(s.implicitly_convert_to_string(&mut interp).unwrap(), b"word");
    assert_eq!(
        s.implicitly_convert_to_nilable_string(&mut interp).unwrap(),
        Some(b"word".to_vec())
    );
    assert_eq!(nil.implicitly_convert_to_nilable_string(&mut interp).unwrap(), None);
}

#[test]
fn unreachable_results_become_fatal() {
    let mut interp = interpreter();
    let ghostly = Value::Unreachable;
    let err = ghostly.funcall(&mut interp, "freeze", &Vec::new(), None).unwrap_err();
    assert_eq!(err.name(), b"fatal");
}
