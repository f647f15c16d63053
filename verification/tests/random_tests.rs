use artichoke_backend::interpreter;
use artichoke_backend::prng::Prng;
use artichoke_backend::securerandom;
use artichoke_backend::value::Value;

#[test]
fn the_generator_is_deterministic_per_seed() {
    let mut a = Prng::from_seed(Some(7));
    let mut b = Prng::from_seed(Some(7));
    let mut buf_a = vec![0u8; 32];
    let mut buf_b = vec![0u8; 32];
    a.bytes(&mut buf_a);
    b.bytes(&mut buf_b);
    assert_eq!(buf_a, buf_b);

    let mut c = Prng::from_seed(Some(8));
    let mut buf_c = vec![0u8; 32];
    c.bytes(&mut buf_c);
    assert_ne!(buf_a, buf_c);
}

#[test]
fn reseeding_restarts_the_stream() {
    let mut prng = Prng::from_seed(Some(11));
    let first = prng.rand_int(1000);
    prng.reseed(Some(11));
    let second = prng.rand_int(1000);
    assert_eq!(first, second);
    assert_eq!(prng.seed(), 11);
}

#[test]
fn the_default_seed_is_stable() {
    let a = Prng::new();
    let b = Prng::from_seed(None);
    assert_eq!(a.internal_state(), b.internal_state());
}

#[test]
fn rand_int_stays_below_the_bound() {
    let mut prng = Prng::new();
    for _ in 0..100 {
        let drawn = prng.rand_int(17);
        assert!((0..17).contains(&drawn));
    }
}

#[test]
fn random_bytes_honors_the_requested_length() {
    let mut interp = interpreter();
    let len = interp.convert_int(9);
    let drawn = securerandom::random_bytes(&mut interp, Some(len)).unwrap();
    assert!(matches!(drawn, Value::Str(b) if b.len() == 9));
    let drawn = securerandom::random_bytes(&mut interp, None).unwrap();
    assert!(matches!(drawn, Value::Str(b) if b.len() == 16));
    let len = interp.convert_int(-1);
    let err = securerandom::random_bytes(&mut interp, Some(len)).unwrap_err();
    assert_eq!(err.name(), b"ArgumentError");
}

#[test]
fn hex_draws_two_digits_per_byte() {
    let mut interp = interpreter();
    let len = interp.convert_int(4);
    let drawn = securerandom::hex(&mut interp, Some(len)).unwrap();
    let hex = match drawn {
        Value::Str(b) => b,
        _ => panic!("expected a string"),
    };
    assert_eq!(hex.len(), 8);
    assert!(hex.iter().all(|b| b.is_ascii_hexdigit() && !b.is_ascii_uppercase()));
}

#[test]
fn alphanumeric_draws_only_alphanumerics() {
    let mut interp = interpreter();
    let len = interp.convert_int(64);
    let drawn = securerandom::alphanumeric(&mut interp, Some(len)).unwrap();
    let chars = match drawn {
        Value::Str(b) => b,
        _ => panic!("expected a string"),
    };
    assert_eq!(chars.len(), 64);
    assert!(chars.iter().all(|b| b.is_ascii_alphanumeric()));
}

#[test]
fn uuid_has_the_fixed_shape() {
    let mut interp = interpreter();
    let drawn = securerandom::uuid(&mut interp).unwrap();
    let id = match drawn {
        Value::Str(b) => b,
        _ => panic!("expected a string"),
    };
    assert_eq!(id.len(), 36);
    assert_eq!(id[8], b'-');
    assert_eq!(id[13], b'-');
    assert_eq!(id[14], b'4');
    assert_eq!(id[18], b'-');
    assert_eq!(id[19], b'8');
    assert_eq!(id[23], b'-');
}

#[test]
fn random_number_draws_below_a_positive_bound() {
    let mut interp = interpreter();
    let max = interp.convert_int(10);
    let drawn = securerandom::random_number(&mut interp, Some(max)).unwrap();
    assert!(matches!(drawn, Value::Fixnum(n) if (0..10).contains(&n)));
    let err = securerandom::random_number(&mut interp, None).unwrap_err();
    assert_eq!(err.name(), b"NotImplementedError");
}

#[test]
fn base64_encodes_the_drawn_bytes_with_padding() {
    let mut interp = interpreter();
    let len = interp.convert_int(4);
    let drawn = securerandom::base64(&mut interp, Some(len)).unwrap();
    let encoded = match drawn {
        Value::Str(b) => b,
        _ => panic!("expected a string"),
    };
    // Four bytes become eight digits, the last two of them padding.
    assert_eq!(encoded.len(), 8);
    assert_eq!(encoded[7], b'=');
    assert_ne!(encoded[5], b'=');
    assert!(encoded[..6]
        .iter()
        .all(|b| b.is_ascii_alphanumeric() || *b == b'+' || *b == b'/'));

    let len = interp.convert_int(3);
    let drawn = securerandom::base64(&mut interp, Some(len)).unwrap();
    assert!(matches!(drawn, Value::Str(b) if b.len() == 4 && b[3] != b'='));
}

#[test]
fn base64_is_deterministic_per_state() {
    let mut a = interpreter();
    let mut b = interpreter();
    let len_a = a.convert_int(12);
    let len_b = b.convert_int(12);
    let one = securerandom::base64(&mut a, Some(len_a)).unwrap();
    let two = securerandom::base64(&mut b, Some(len_b)).unwrap();
    match (one, two) {
        (Value::Str(x), Value::Str(y)) => assert_eq!(x, y),
        _ => panic!("expected strings"),
    }
}
