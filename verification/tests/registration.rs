use artichoke_backend::class;
use artichoke_backend::def::EnclosingRubyScope;
use artichoke_backend::interp::{KEY_KERNEL, KEY_STANDARD_ERROR};
use artichoke_backend::interpreter;
use artichoke_backend::kernel;
use artichoke_backend::module;
use artichoke_backend::value::Value;
use artichoke_backend::warn::Warn;

const KEY_RUST_ERROR: u64 = 100;
const KEY_FOO: u64 = 101;

#[test]
fn super_class() {
    let mut interp = interpreter();
    let spec = class::Spec::new(b"RustError".to_vec(), None, None).unwrap();
    class::Builder::for_spec(&spec)
        .with_super_class(&interp, KEY_STANDARD_ERROR, b"StandardError".to_vec())
        .unwrap()
        .define(&mut interp)
        .unwrap();
    interp.def_class(KEY_RUST_ERROR, spec).unwrap();

    let instance = interp.new_instance(KEY_RUST_ERROR, &Vec::new()).unwrap().unwrap();
    let standard_error = interp.class_of(KEY_STANDARD_ERROR).unwrap().unwrap();
    let result = instance
        .funcall(&mut interp, "is_a?", &vec![standard_error], None)
        .unwrap();
    assert!(
        matches!(result, Value::Bool(true)),
        "RustError instances are instance of StandardError"
    );

    let sub = match interp.class_of(KEY_RUST_ERROR).unwrap().unwrap() {
        Value::ClassRef(id) => id,
        _ => panic!("expected a class handle"),
    };
    let sup = match interp.class_of(KEY_STANDARD_ERROR).unwrap().unwrap() {
        Value::ClassRef(id) => id,
        _ => panic!("expected a class handle"),
    };
    assert!(
        sub != sup && interp.class_chain_contains(sub, sup),
        "RustError inherits from StandardError"
    );
}

#[test]
fn rclass_for_undef_root_class() {
    let interp = interpreter();
    let spec = class::Spec::new(b"Foo".to_vec(), None, None).unwrap();
    let rclass = spec.rclass().resolve(&interp);
    assert!(rclass.is_none());
}

#[test]
fn rclass_for_undef_nested_class() {
    let mut interp = interpreter();
    let scope = interp.module_spec(KEY_KERNEL).unwrap().unwrap();
    let scope = EnclosingRubyScope::module(scope);
    let spec = class::Spec::new(b"Foo".to_vec(), Some(scope), None).unwrap();
    let rclass = spec.rclass().resolve(&interp);
    assert!(rclass.is_none());
}

#[test]
fn rclass_for_nested_class() {
    let mut interp = interpreter();
    let outer = module::Spec::new(&mut interp, b"Foo".to_vec(), None).unwrap();
    module::Builder::for_spec(&outer).define(&mut interp).unwrap();
    let spec = class::Spec::new(
        b"Bar".to_vec(),
        Some(EnclosingRubyScope::module(&outer)),
        None,
    )
    .unwrap();
    class::Builder::for_spec(&spec).define(&mut interp).unwrap();
    let rclass = spec.rclass().resolve(&interp);
    assert!(rclass.is_some());
}

#[test]
fn rclass_for_nested_class_under_class() {
    let mut interp = interpreter();
    let outer = class::Spec::new(b"Foo".to_vec(), None, None).unwrap();
    class::Builder::for_spec(&outer).define(&mut interp).unwrap();
    let spec = class::Spec::new(
        b"Bar".to_vec(),
        Some(EnclosingRubyScope::class(&outer)),
        None,
    )
    .unwrap();
    class::Builder::for_spec(&spec).define(&mut interp).unwrap();
    let rclass = spec.rclass().resolve(&interp);
    assert!(rclass.is_some());
}

#[test]
fn rclass_for_undef_root_module() {
    let mut interp = interpreter();
    let spec = module::Spec::new(&mut interp, b"Foo".to_vec(), None).unwrap();
    let rclass = spec.rclass().resolve(&interp);
    assert!(rclass.is_none());
}

#[test]
fn rclass_for_undef_nested_module() {
    let mut interp = interpreter();
    let scope = module::Spec::new(&mut interp, b"Kernel".to_vec(), None).unwrap();
    let scope = EnclosingRubyScope::module(&scope);
    let spec = module::Spec::new(&mut interp, b"Foo".to_vec(), Some(scope)).unwrap();
    let rclass = spec.rclass().resolve(&interp);
    assert!(rclass.is_none());
}

#[test]
fn rclass_for_root_module() {
    let mut interp = interpreter();
    let spec = module::Spec::new(&mut interp, b"Kernel".to_vec(), None).unwrap();
    let rclass = spec.rclass().resolve(&interp);
    assert!(rclass.is_some());
}

#[test]
fn rclass_for_nested_module() {
    let mut interp = interpreter();
    let outer = module::Spec::new(&mut interp, b"Foo".to_vec(), None).unwrap();
    module::Builder::for_spec(&outer).define(&mut interp).unwrap();
    let scope = EnclosingRubyScope::module(&outer);
    let spec = module::Spec::new(&mut interp, b"Bar".to_vec(), Some(scope)).unwrap();
    module::Builder::for_spec(&spec).define(&mut interp).unwrap();
    let rclass = spec.rclass().resolve(&interp);
    assert!(rclass.is_some());
}

#[test]
fn rclass_for_nested_module_under_class() {
    let mut interp = interpreter();
    let outer = class::Spec::new(b"Foo".to_vec(), None, None).unwrap();
    class::Builder::for_spec(&outer).define(&mut interp).unwrap();
    let scope = EnclosingRubyScope::class(&outer);
    let spec = module::Spec::new(&mut interp, b"Bar".to_vec(), Some(scope)).unwrap();
    module::Builder::for_spec(&spec).define(&mut interp).unwrap();
    let rclass = spec.rclass().resolve(&interp);
    assert!(rclass.is_some());
}

#[test]
fn spec_equality_is_by_qualified_name() {
    let mut interp = interpreter();
    let a = class::Spec::new(b"Thing".to_vec(), None, None).unwrap();
    let b = class::Spec::new(b"Thing".to_vec(), None, None).unwrap();
    assert!(a == b);

    let outer = module::Spec::new(&mut interp, b"Outer".to_vec(), None).unwrap();
    let nested = class::Spec::new(
        b"Thing".to_vec(),
        Some(EnclosingRubyScope::module(&outer)),
        None,
    )
    .unwrap();
    assert!(!(a == nested));
    assert_eq!(nested.fqname(), b"Outer::Thing");
}

#[test]
fn spec_rejects_embedded_nul() {
    let result = class::Spec::new(b"Bad\0Name".to_vec(), None, None);
    assert!(result.is_err());
}

#[test]
fn define_twice_reuses_the_class() {
    let mut interp = interpreter();
    let spec = class::Spec::new(b"Once".to_vec(), None, None).unwrap();
    class::Builder::for_spec(&spec).define(&mut interp).unwrap();
    let scopes_after_first = interp.scopes.len();
    // The second definition must not error and must not create a second
    // class object; its methods are still bound onto the single class.
    class::Builder::for_spec(&spec).define(&mut interp).unwrap();
    assert_eq!(interp.scopes.len(), scopes_after_first);
    assert!(spec.rclass().resolve(&interp).is_some());
}

#[test]
fn define_under_missing_scope_is_an_error() {
    let mut interp = interpreter();
    let ghost_scope = class::Spec::new(b"Nowhere".to_vec(), None, None).unwrap();
    let spec = class::Spec::new(
        b"Child".to_vec(),
        Some(EnclosingRubyScope::class(&ghost_scope)),
        None,
    )
    .unwrap();
    let result = class::Builder::for_spec(&spec).define(&mut interp);
    assert!(result.is_err());
    assert!(spec.rclass().resolve(&interp).is_none());
}

#[test]
fn require_is_idempotent() {
    let mut interp = interpreter();
    let first = kernel::require(&mut interp, Value::Str(b"securerandom".to_vec())).unwrap();
    assert!(matches!(first, Value::Bool(true)));
    let modules_after_first = interp.modules.len();
    let scopes_after_first = interp.scopes.len();
    let second = kernel::require(&mut interp, Value::Str(b"securerandom".to_vec())).unwrap();
    assert!(matches!(second, Value::Bool(false)));
    assert_eq!(interp.modules.len(), modules_after_first);
    assert_eq!(interp.scopes.len(), scopes_after_first);
}

#[test]
fn require_unknown_feature_is_a_load_error() {
    let mut interp = interpreter();
    let result = kernel::require(&mut interp, Value::Str(b"no_such_feature".to_vec()));
    let err = result.unwrap_err();
    assert_eq!(err.name(), b"LoadError");
    assert_eq!(err.message(), b"cannot load such file -- no_such_feature");
}

#[test]
fn class_of_unregistered_type_is_none() {
    let mut interp = interpreter();
    assert!(interp.class_of(KEY_FOO).unwrap().is_none());
    assert!(interp.new_instance(KEY_FOO, &Vec::new()).unwrap().is_none());
}

#[test]
fn resolution_never_creates_state() {
    let mut interp = interpreter();
    let scopes_before = interp.scopes.len();
    let outer = class::Spec::new(b"Ghost".to_vec(), None, None).unwrap();
    let spec = class::Spec::new(
        b"Child".to_vec(),
        Some(EnclosingRubyScope::class(&outer)),
        None,
    )
    .unwrap();
    assert!(spec.rclass().resolve(&interp).is_none());
    assert!(outer.rclass().resolve(&interp).is_none());
    assert_eq!(interp.scopes.len(), scopes_before);
}

#[test]
fn bound_methods_are_visible_on_instances() {
    let mut interp = interpreter();
    artichoke_backend::container::Container::require(&mut interp).unwrap();
    let instance = interp
        .new_instance(artichoke_backend::interp::KEY_CONTAINER, &Vec::new())
        .unwrap()
        .unwrap();
    assert!(instance.respond_to(&mut interp, "initialize").unwrap());
    assert!(!instance.respond_to(&mut interp, "unbound_name").unwrap());
}

#[test]
fn deeply_nested_qualified_names_join_with_double_colons() {
    let mut interp = interpreter();
    let a = module::Spec::new(&mut interp, b"A".to_vec(), None).unwrap();
    let b = module::Spec::new(
        &mut interp,
        b"B".to_vec(),
        Some(EnclosingRubyScope::module(&a)),
    )
    .unwrap();
    let c = class::Spec::new(b"C".to_vec(), Some(EnclosingRubyScope::module(&b)), None).unwrap();
    assert_eq!(c.fqname(), b"A::B::C");
}

#[test]
fn the_interpreter_starts_seeded() {
    let mut interp = interpreter();
    assert!(interp.is_class_defined(artichoke_backend::interp::KEY_OBJECT));
    assert!(interp.is_class_defined(artichoke_backend::interp::KEY_STANDARD_ERROR));
    assert!(interp.is_class_defined(artichoke_backend::interp::KEY_MATCH_DATA));
    assert!(interp.is_module_defined(KEY_KERNEL));
    assert!(!interp.is_module_defined(artichoke_backend::interp::KEY_SECURE_RANDOM));
    // The MatchData instance surface answers its bound methods.
    let instance = interp
        .new_instance(artichoke_backend::interp::KEY_MATCH_DATA, &Vec::new())
        .unwrap()
        .unwrap();
    assert!(instance.respond_to(&mut interp, "begin").unwrap());
    assert!(instance.respond_to(&mut interp, "[]").unwrap());
    assert!(instance.respond_to(&mut interp, "pre_match").unwrap());
    assert!(!instance.respond_to(&mut interp, "scan").unwrap());
}

#[test]
fn matchdata_init_is_idempotent() {
    let mut interp = interpreter();
    let scopes = interp.scopes.len();
    let classes = interp.classes.len();
    artichoke_backend::matchdata::init(&mut interp).unwrap();
    assert_eq!(interp.scopes.len(), scopes);
    assert_eq!(interp.classes.len(), classes);
}

#[test]
fn warnings_are_collected_newline_terminated() {
    let mut interp = interpreter();
    interp.warn(&b"deprecated".to_vec()).unwrap();
    interp.warn(&b"already terminated\n".to_vec()).unwrap();
    assert_eq!(interp.warnings, b"deprecated\nalready terminated\n");
}

#[test]
fn exception_messages_are_rendered_per_variant() {
    let mut interp = interpreter();
    let err = kernel::require(&mut interp, Value::Str(b"missing".to_vec())).unwrap_err();
    assert_eq!(err.message(), b"cannot load such file -- missing");
    let err = Value::nil()
        .funcall(&mut interp, "gone", &Vec::new(), None)
        .unwrap_err();
    assert_eq!(err.message(), b"undefined method 'gone'");
}
