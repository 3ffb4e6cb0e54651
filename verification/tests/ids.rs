use rantz_proto::Id;

#[derive(Debug)]
struct Marker;

#[test]
fn from_name_is_deterministic() {
    let a = Id::<Marker>::from_name("grass");
    let b = Id::<Marker>::from_name("grass");
    assert_eq!(a, b);
    assert_eq!(a.raw(), b.raw());
}

#[test]
fn from_raw_round_trips_a_hashed_id() {
    let id = Id::<Marker>::from_name("hammer");
    let again = Id::<Marker>::from_raw(id.raw());
    assert_eq!(again, id);
    assert_eq!(again.raw(), id.raw());
}

#[test]
fn hash_of_empty_name_is_zero() {
    let id = Id::<Marker>::from_name("");
    assert_eq!(id.raw(), 0);
}

#[test]
fn hash_matches_polynomial_formula() {
    // For "ab": (b'a' + 1) + (b'b' + 1) * 53 = 98 + 99 * 53 = 5345.
    let id = Id::<Marker>::from_name("ab");
    assert_eq!(id.raw(), 5345);

    // A single byte hashes to the byte value plus one.
    let id = Id::<Marker>::from_name("a");
    assert_eq!(id.raw(), 98);
}

#[test]
fn distinct_names_hash_apart() {
    let a = Id::<Marker>::from_name("grass");
    let b = Id::<Marker>::from_name("hammer");
    assert_ne!(a, b);
    assert!(a != b);
}

#[test]
fn ordering_follows_raw_values() {
    let small = Id::<Marker>::from_raw(1);
    let large = Id::<Marker>::from_raw(2);
    assert!(small < large);
    assert!(!(large < small));
    assert!(small <= small.clone());
}
