use nebula::base::vector2::Vector2;

#[test]
fn vector_sum_is_componentwise() {
    let sum = Vector2::new(3, -4).add(Vector2::new(10, 20));
    assert_eq!(sum, Vector2 { x: 13, y: 16 });
}

#[test]
fn vector_sum_stops_at_the_bounds() {
    let sum = Vector2::new(i64::MAX, i64::MIN).add(Vector2::new(1, -1));
    assert_eq!(sum, Vector2 { x: i64::MAX, y: i64::MIN });
}
