use artichoke_backend::boxing::{box_into_value, unbox_from_value};
use artichoke_backend::container::{container_initialize, Container};
use artichoke_backend::exception::{Exception, UnboxError};
use artichoke_backend::interp::{KEY_CONTAINER, KEY_MATCH_DATA};
use artichoke_backend::interpreter;
use artichoke_backend::value::Value;

#[test]
fn box_then_unbox_round_trips() {
    let mut interp = interpreter();
    Container::require(&mut interp).unwrap();
    let instance = interp.new_instance(KEY_CONTAINER, &Vec::new()).unwrap().unwrap();
    let boxed = box_into_value(&mut interp, KEY_CONTAINER, b"payload".to_vec(), &instance).unwrap();
    let recovered = unbox_from_value(&interp, KEY_CONTAINER, &boxed).unwrap();
    assert_eq!(recovered, b"payload");
}

#[test]
fn unbox_with_wrong_type_is_a_type_mismatch() {
    let mut interp = interpreter();
    Container::require(&mut interp).unwrap();
    let instance = interp.new_instance(KEY_CONTAINER, &Vec::new()).unwrap().unwrap();
    let boxed = box_into_value(&mut interp, KEY_CONTAINER, b"payload".to_vec(), &instance).unwrap();
    let err = unbox_from_value(&interp, KEY_MATCH_DATA, &boxed).unwrap_err();
    assert!(matches!(
        err,
        Exception::Unbox(UnboxError::WrongType { expected: KEY_MATCH_DATA, actual: KEY_CONTAINER })
    ));
}

#[test]
fn unbox_before_boxing_fails_cleanly() {
    let mut interp = interpreter();
    Container::require(&mut interp).unwrap();
    let instance = interp.new_instance(KEY_CONTAINER, &Vec::new()).unwrap().unwrap();
    let err = unbox_from_value(&interp, KEY_CONTAINER, &instance).unwrap_err();
    assert!(matches!(err, Exception::Unbox(UnboxError::NotBoxed)));
}

#[test]
fn unbox_after_collection_fails_cleanly() {
    let mut interp = interpreter();
    Container::require(&mut interp).unwrap();
    interp.arena_savepoint();
    let instance = interp.new_instance(KEY_CONTAINER, &Vec::new()).unwrap().unwrap();
    let boxed = box_into_value(&mut interp, KEY_CONTAINER, b"payload".to_vec(), &instance).unwrap();
    interp.arena_restore();
    interp.full_gc();
    let err = unbox_from_value(&interp, KEY_CONTAINER, &boxed).unwrap_err();
    assert!(matches!(err, Exception::Unbox(UnboxError::Collected)));
}

#[test]
fn boxing_twice_is_refused() {
    let mut interp = interpreter();
    Container::require(&mut interp).unwrap();
    let instance = interp.new_instance(KEY_CONTAINER, &Vec::new()).unwrap().unwrap();
    let boxed = box_into_value(&mut interp, KEY_CONTAINER, b"first".to_vec(), &instance).unwrap();
    let err = box_into_value(&mut interp, KEY_CONTAINER, b"second".to_vec(), &boxed).unwrap_err();
    assert!(matches!(err, Exception::Unbox(UnboxError::AlreadyBoxed)));
    let recovered = unbox_from_value(&interp, KEY_CONTAINER, &boxed).unwrap();
    assert_eq!(recovered, b"first");
}

#[test]
fn initialize_boxes_the_given_string() {
    let mut interp = interpreter();
    Container::require(&mut interp).unwrap();
    let instance = interp.new_instance(KEY_CONTAINER, &Vec::new()).unwrap().unwrap();
    let inner = Value::Str(b"inner bytes".to_vec());
    let boxed = container_initialize(&mut interp, &instance, &inner).unwrap();
    let recovered = unbox_from_value(&interp, KEY_CONTAINER, &boxed).unwrap();
    assert_eq!(recovered, b"inner bytes");
}

#[test]
fn rust_backed_mrb_value_smart_pointer_leak() {
    // Box one instance of a foreign-backed class per iteration, each
    // holding a one-megabyte payload, and let the collector reclaim it;
    // the number of live instances must stay bounded instead of
    // growing with the iterations.
    let mut interp = interpreter();
    Container::require(&mut interp).unwrap();
    for _ in 0..100 {
        interp.arena_savepoint();
        let instance = interp.new_instance(KEY_CONTAINER, &Vec::new()).unwrap().unwrap();
        let payload = vec![b'a'; 1024 * 1024];
        let boxed = box_into_value(&mut interp, KEY_CONTAINER, payload, &instance).unwrap();
        let recovered = unbox_from_value(&interp, KEY_CONTAINER, &boxed).unwrap();
        assert_eq!(recovered.len(), 1024 * 1024);
        interp.arena_restore();
        interp.full_gc();
        assert_eq!(interp.live_instances(), 0, "smart pointer payloads must be reclaimed");
    }
}
