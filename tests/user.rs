use playground::{user_object_from_record, wasm_user_object_from_record, UserRecord, WasmUserObject};

fn sample() -> UserRecord {
    UserRecord { id: 7, favorite_numbers: vec![3, 1, 4], favorite_colors: vec!["red".to_string(), "teal".to_string()] }
}

#[test]
fn user_object_gives_back_its_record() {
    let obj = user_object_from_record(sample());
    let r = obj.to_record();
    assert_eq!(r.id, 7);
    assert_eq!(r.favorite_numbers, vec![3, 1, 4]);
    assert_eq!(r.favorite_colors, vec!["red".to_string(), "teal".to_string()]);
}

#[test]
fn record_copy_is_independent() {
    let first = sample();
    let mut c = first.copy();
    c.favorite_numbers.push(9);
    assert_eq!(first.favorite_numbers, vec![3, 1, 4]);
    assert_eq!(c.favorite_colors, first.favorite_colors);
}

#[test]
fn wasm_user_object_round_trip() {
    let obj = wasm_user_object_from_record(sample());
    assert_eq!(obj.id, 7);
    let r = obj.to_record();
    assert_eq!(r.favorite_numbers, vec![3, 1, 4]);
    assert_eq!(r.favorite_colors, vec!["red".to_string(), "teal".to_string()]);
    let fresh = WasmUserObject::new(1, vec![], vec!["blue".to_string()]);
    let fr = fresh.to_record();
    assert_eq!(fr.id, 1);
    assert!(fr.favorite_numbers.is_empty());
    assert_eq!(fr.favorite_colors, vec!["blue".to_string()]);
}
