use rust_libcint::{reclaim, release};

#[test]
fn round_trip_keeps_elements_and_length() {
    for len in [0usize, 1, 2, 7, 64, 1000] {
        let array: Vec<i32> = (0..len as i32).map(|x| 3 * x - 5).collect();
        let lent = release(array.clone());
        assert_eq!(lent.len(), len);
        let back = reclaim(lent);
        assert_eq!(back.len(), len);
        assert_eq!(back, array);
    }
}

#[test]
fn round_trip_of_empty_array() {
    let lent = release(Vec::<f64>::new());
    assert_eq!(lent.len(), 0);
    assert_eq!(lent.use_foreign().len(), 0);
    let back = reclaim(lent);
    assert!(back.is_empty());
}

#[test]
fn round_trip_of_floats() {
    let env: Vec<f64> = vec![0.0, 0.0, 0.0, 0.7, 0.0, 0.0, 1.0, 1.0, 0.5, 1.0];
    let back = reclaim(release(env.clone()));
    assert_eq!(back, env);
}

#[test]
fn release_gives_up_unused_capacity() {
    let mut array: Vec<i32> = Vec::with_capacity(4096);
    array.extend_from_slice(&[4, 5, 6]);
    let back = reclaim(release(array));
    assert_eq!(back, vec![4, 5, 6]);
    assert!(back.capacity() < 4096);
}

#[test]
fn foreign_code_sees_the_elements() {
    let lent = release(vec![9, 8, 7]);
    assert_eq!(lent.use_foreign(), &[9, 8, 7]);
}

#[test]
fn foreign_writes_come_back() {
    let mut lent = release(vec![0.0f64; 4]);
    {
        let out = lent.use_foreign_mut();
        assert_eq!(out.len(), 4);
        for (k, value) in out.iter_mut().enumerate() {
            *value = k as f64 + 0.5;
        }
    }
    assert_eq!(lent.len(), 4);
    assert_eq!(reclaim(lent), vec![0.5, 1.5, 2.5, 3.5]);
}
