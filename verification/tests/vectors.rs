use collections::vectors::{
    get_vector, read_at, read_at_safe, scale_all, VectorError,
};

#[test]
fn builds_the_example_sequence() {
    let v = get_vector();
    assert_eq!(v, vec![1, 2, 3, 4]);
}

#[test]
fn read_modes_agree_on_valid_indexes() {
    let v = get_vector();
    for i in 0..v.len() {
        let checked = read_at(&v, i).expect("index in bounds");
        let safe = read_at_safe(&v, i).expect("index in bounds");
        assert_eq!(checked, safe);
        assert_eq!(checked, v[i]);
    }
}

#[test]
fn read_past_the_end_fails_and_safe_read_is_absent() {
    let v = get_vector();
    assert_eq!(read_at(&v, v.len()), Err(VectorError::IndexOutOfRange));
    assert_eq!(read_at(&v, 100), Err(VectorError::IndexOutOfRange));
    assert_eq!(read_at_safe(&v, v.len()), None);
    assert_eq!(read_at_safe(&v, 100), None);
}

#[test]
fn empty_sequence_always_fails_checked_read() {
    let v: Vec<i32> = Vec::new();
    assert_eq!(read_at(&v, 0), Err(VectorError::IndexOutOfRange));
    assert_eq!(read_at_safe(&v, 0), None);
}

#[test]
fn scale_all_multiplies_in_place() {
    let mut v = get_vector();
    scale_all(&mut v, 50);
    assert_eq!(v, vec![50, 100, 150, 200]);
}

#[test]
fn scale_all_round_trip_with_exact_inverse_factor() {
    // the factors whose exact inverse is itself an integer: 1 and -1
    let mut v = vec![7, -3, 0, 12];
    scale_all(&mut v, -1);
    assert_eq!(v, vec![-7, 3, 0, -12]);
    scale_all(&mut v, -1);
    assert_eq!(v, vec![7, -3, 0, 12]);
    scale_all(&mut v, 1);
    assert_eq!(v, vec![7, -3, 0, 12]);
}
