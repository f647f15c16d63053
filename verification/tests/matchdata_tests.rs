use artichoke_backend::interpreter;
use artichoke_backend::matchdata::{self, MatchData};
use artichoke_backend::value::Value;

// A match of the pattern `h(?<mid>a)y` against `say hay today`: the
// whole match covers `hay`, group one captures the `a` inside it, and
// the name `mid` refers to that group.
fn sample() -> MatchData {
    MatchData::new(
        b"say hay today".to_vec(),
        b"h(?<mid>a)y".to_vec(),
        vec![Some((4, 7)), Some((5, 6))],
        vec![(b"mid".to_vec(), 1)],
    )
    .unwrap()
}

#[test]
fn begin_and_end_report_group_bounds() {
    let mut interp = interpreter();
    let data = sample();
    let at = interp.convert_int(0);
    let begin = matchdata::begin(&mut interp, &data, &at).unwrap();
    assert!(matches!(begin, Value::Fixnum(4)));
    let at = interp.convert_int(0);
    let end = matchdata::end(&mut interp, &data, &at).unwrap();
    assert!(matches!(end, Value::Fixnum(7)));

    let by_name = Value::Sym(b"mid".to_vec());
    let begin = matchdata::begin(&mut interp, &data, &by_name).unwrap();
    assert!(matches!(begin, Value::Fixnum(5)));

    let out_of_range = interp.convert_int(9);
    let err = matchdata::begin(&mut interp, &data, &out_of_range).unwrap_err();
    assert_eq!(err.name(), b"IndexError");
}

#[test]
fn offset_pairs_both_bounds() {
    let mut interp = interpreter();
    let data = sample();
    let at = interp.convert_int(1);
    let offset = matchdata::offset(&mut interp, &data, &at).unwrap();
    match offset {
        Value::Array(items) => {
            assert!(matches!(items[0], Value::Fixnum(5)));
            assert!(matches!(items[1], Value::Fixnum(6)));
        }
        _ => panic!("expected an array"),
    }
}

#[test]
fn captures_skip_the_whole_match() {
    let mut interp = interpreter();
    let data = sample();
    let captures = matchdata::captures(&mut interp, &data).unwrap();
    match captures {
        Value::Array(items) => {
            assert_eq!(items.len(), 1);
            assert!(matches!(&items[0], Value::Str(b) if b == b"a"));
        }
        _ => panic!("expected an array"),
    }
    let all = matchdata::to_a(&mut interp, &data).unwrap();
    match all {
        Value::Array(items) => {
            assert_eq!(items.len(), 2);
            assert!(matches!(&items[0], Value::Str(b) if b == b"hay"));
        }
        _ => panic!("expected an array"),
    }
}

#[test]
fn named_captures_pair_names_with_substrings() {
    let mut interp = interpreter();
    let data = sample();
    let names = matchdata::names(&mut interp, &data).unwrap();
    assert!(matches!(names, Value::Array(items) if items.len() == 1));
    let hash = matchdata::named_captures(&mut interp, &data).unwrap();
    match hash {
        Value::Hash(pairs) => {
            assert_eq!(pairs.len(), 1);
            assert!(matches!(&pairs[0].0, Value::Str(b) if b == b"mid"));
            assert!(matches!(&pairs[0].1, Value::Str(b) if b == b"a"));
        }
        _ => panic!("expected a hash"),
    }
}

#[test]
fn pre_and_post_match_split_the_haystack() {
    let mut interp = interpreter();
    let data = sample();
    let pre = matchdata::pre_match(&mut interp, &data).unwrap();
    assert!(matches!(pre, Value::Str(b) if b == b"say "));
    let post = matchdata::post_match(&mut interp, &data).unwrap();
    assert!(matches!(post, Value::Str(b) if b == b" today"));
    let whole = matchdata::to_s(&mut interp, &data).unwrap();
    assert!(matches!(whole, Value::Str(b) if b == b"hay"));
    let length = matchdata::length(&mut interp, &data).unwrap();
    assert!(matches!(length, Value::Fixnum(2)));
}

#[test]
fn element_reference_selects_groups_and_slices() {
    let mut interp = interpreter();
    let data = sample();

    let by_index = interp.convert_int(1);
    let got = matchdata::element_reference(&mut interp, &data, &by_index, None).unwrap();
    assert!(matches!(got, Value::Str(b) if b == b"a"));

    let from_end = interp.convert_int(-2);
    let got = matchdata::element_reference(&mut interp, &data, &from_end, None).unwrap();
    assert!(matches!(got, Value::Str(b) if b == b"hay"));

    let by_name = interp.convert_str("mid");
    let got = matchdata::element_reference(&mut interp, &data, &by_name, None).unwrap();
    assert!(matches!(got, Value::Str(b) if b == b"a"));

    let start = interp.convert_int(0);
    let count = interp.convert_int(2);
    let got = matchdata::element_reference(&mut interp, &data, &start, Some(&count)).unwrap();
    assert!(matches!(got, Value::Array(items) if items.len() == 2));

    let range = Value::Range { start: 0, end: 0, exclusive: false };
    let got = matchdata::element_reference(&mut interp, &data, &range, None).unwrap();
    match got {
        Value::Array(items) => {
            assert_eq!(items.len(), 1);
            assert!(matches!(&items[0], Value::Str(b) if b == b"hay"));
        }
        _ => panic!("expected an array"),
    }

    let silly = Value::nil();
    let got = matchdata::element_reference(&mut interp, &data, &silly, None).unwrap();
    assert!(matches!(got, Value::Nil));
}

#[test]
fn the_pattern_and_string_are_handed_back() {
    let mut interp = interpreter();
    let data = sample();
    let pattern = matchdata::regexp(&mut interp, &data).unwrap();
    assert!(matches!(pattern, Value::Str(b) if b == b"h(?<mid>a)y"));
    let haystack = matchdata::string(&mut interp, &data).unwrap();
    assert!(matches!(haystack, Value::Str(b) if b == b"say hay today"));
}

#[test]
fn a_match_outside_its_string_is_refused() {
    let result = MatchData::new(
        b"shortish".to_vec(),
        b"p".to_vec(),
        vec![Some((4, 99))],
        Vec::new(),
    );
    assert!(result.is_err());
}
