use dimensional::dimension::add;
use dimensional::dimension::pack;
use dimensional::dimension::scale;
use dimensional::dimension::unpack;
use dimensional::dimension::zero_code;
use dimensional::quantity::Quantity;
use dimensional::quantity::QuantityRegistry;

#[test]
fn pack_unpack_round_trip() {
    let v: [i16; 7] = [1, 0, -2, 3, 0, -1, 2];
    assert_eq!(unpack(pack(&v)), v);
}

#[test]
fn pack_unpack_extremes() {
    let lo: [i16; 7] = [-256, -256, -256, -256, -256, -256, -256];
    let hi: [i16; 7] = [255, 255, 255, 255, 255, 255, 255];
    assert_eq!(unpack(pack(&lo)), lo);
    assert_eq!(unpack(pack(&hi)), hi);
}

#[test]
fn pack_is_injective_on_samples() {
    let a: [i16; 7] = [1, 0, 0, 0, 0, 0, 0];
    let b: [i16; 7] = [0, 1, 0, 0, 0, 0, 0];
    let c: [i16; 7] = [0, 0, 0, 0, 0, 0, 1];
    assert_ne!(pack(&a), pack(&b));
    assert_ne!(pack(&a), pack(&c));
    assert_ne!(pack(&b), pack(&c));
}

#[test]
fn add_matches_componentwise_sum() {
    let a: [i16; 7] = [1, 2, -3, 0, 4, -5, 6];
    let b: [i16; 7] = [-1, 1, 1, 2, -4, 5, -6];
    let expected: [i16; 7] = [0, 3, -2, 2, 0, 0, 0];
    assert_eq!(unpack(add(pack(&a), pack(&b))), expected);
}

#[test]
fn add_zero_is_identity() {
    let a: [i16; 7] = [2, -1, 0, 3, 0, 0, -2];
    let code = pack(&a);
    assert_eq!(add(zero_code(), code), code);
    assert_eq!(add(code, zero_code()), code);
}

#[test]
fn scale_matches_componentwise_product() {
    let a: [i16; 7] = [1, -2, 3, 0, 1, 0, -1];
    let expected: [i16; 7] = [3, -6, 9, 0, 3, 0, -3];
    assert_eq!(unpack(scale(pack(&a), 3)), expected);
}

#[test]
fn scale_by_negative_gives_reciprocal_dimensions() {
    let a: [i16; 7] = [1, 0, -2, 0, 0, 0, 0];
    let expected: [i16; 7] = [-1, 0, 2, 0, 0, 0, 0];
    assert_eq!(unpack(scale(pack(&a), -1)), expected);
}

#[test]
fn scale_by_zero_gives_dimensionless() {
    let a: [i16; 7] = [5, -3, 2, 1, 0, -7, 4];
    assert_eq!(scale(pack(&a), 0), zero_code());
}

#[test]
fn quantity_structural_equality() {
    let q1 = Quantity::new(&[1, 0, 0, 0, 0, 0, 0]);
    let q2 = Quantity::new(&[1, 0, 0, 0, 0, 0, 0]);
    let q3 = Quantity::new(&[0, 0, 1, 0, 0, 0, 0]);
    assert!(q1.same_quantity(&q2));
    assert_eq!(q1.code, q2.code);
    assert!(!q1.same_quantity(&q3));
}

#[test]
fn quantity_dimension_vector_round_trip() {
    let v: [i16; 7] = [2, 1, -2, 0, 0, 0, 0];
    let q = Quantity::new(&v);
    assert_eq!(q.dimension_vector(), v);
}

#[test]
fn quantity_mul_adds_dimensions() {
    let length = Quantity::new(&[1, 0, 0, 0, 0, 0, 0]);
    let time = Quantity::new(&[0, 0, 1, 0, 0, 0, 0]);
    let product = length.mul(&time);
    assert_eq!(product.dimension_vector(), [1, 0, 1, 0, 0, 0, 0]);
}

#[test]
fn quantity_div_subtracts_dimensions() {
    let length = Quantity::new(&[1, 0, 0, 0, 0, 0, 0]);
    let time = Quantity::new(&[0, 0, 1, 0, 0, 0, 0]);
    let velocity = length.div(&time);
    assert_eq!(velocity.dimension_vector(), [1, 0, -1, 0, 0, 0, 0]);
}

#[test]
fn quantity_powi_scales_dimensions() {
    let length = Quantity::new(&[1, 0, 0, 0, 0, 0, 0]);
    assert_eq!(length.powi(3).dimension_vector(), [3, 0, 0, 0, 0, 0, 0]);
    assert_eq!(length.powi(0).dimension_vector(), [0; 7]);
}

#[test]
fn quantity_recip_negates_dimensions() {
    let q = Quantity::new(&[1, -2, 3, 0, 0, 0, 0]);
    assert_eq!(q.recip().dimension_vector(), [-1, 2, -3, 0, 0, 0, 0]);
}

#[test]
fn dimensionless_is_all_zero() {
    assert_eq!(Quantity::dimensionless().dimension_vector(), [0; 7]);
}

#[test]
fn combined_quantities_share_one_code() {
    let length = Quantity::new(&[1, 0, 0, 0, 0, 0, 0]);
    let mass = Quantity::new(&[0, 1, 0, 0, 0, 0, 0]);
    let time = Quantity::new(&[0, 0, 1, 0, 0, 0, 0]);
    let velocity = Quantity::combine(&[(length, 1), (time, -1)]);
    assert_eq!(velocity.dimension_vector(), [1, 0, -1, 0, 0, 0, 0]);
    let force = Quantity::combine(&[(mass, 1), (length, 1), (time, -2)]);
    let force_from_momentum = Quantity::combine(&[(mass, 1), (velocity, 1), (time, -1)]);
    assert_eq!(force.code, force_from_momentum.code);
    assert!(force.same_quantity(&force_from_momentum));
}

#[test]
fn acceleration_two_routes_share_one_code() {
    let length = Quantity::new(&[1, 0, 0, 0, 0, 0, 0]);
    let time = Quantity::new(&[0, 0, 1, 0, 0, 0, 0]);
    let velocity = Quantity::combine(&[(length, 1), (time, -1)]);
    let acc1 = Quantity::combine(&[(velocity, 1), (time, -1)]);
    let acc2 = Quantity::combine(&[(length, 1), (time, -2)]);
    assert_eq!(acc1.code, acc2.code);
}

#[test]
fn registry_starts_empty() {
    let reg = QuantityRegistry::new();
    assert_eq!(reg.get_name(&[1, 0, 0, 0, 0, 0, 0]), None);
}

#[test]
fn registry_returns_registered_name() {
    let mut reg = QuantityRegistry::new();
    assert!(reg.register(&[1, 0, 0, 0, 0, 0, 0], String::from("length")));
    assert_eq!(
        reg.get_name(&[1, 0, 0, 0, 0, 0, 0]),
        Some(String::from("length"))
    );
    assert_eq!(reg.get_name(&[0, 1, 0, 0, 0, 0, 0]), None);
}

#[test]
fn registry_first_writer_wins() {
    let mut reg = QuantityRegistry::new();
    assert!(reg.register(&[0, 1, 0, 0, 0, 0, 0], String::from("mass")));
    assert!(!reg.register(&[0, 1, 0, 0, 0, 0, 0], String::from("heaviness")));
    assert_eq!(
        reg.get_name(&[0, 1, 0, 0, 0, 0, 0]),
        Some(String::from("mass"))
    );
}

#[test]
fn registry_keeps_distinct_dimensions_apart() {
    let mut reg = QuantityRegistry::new();
    assert!(reg.register(&[1, 0, 0, 0, 0, 0, 0], String::from("length")));
    assert!(reg.register(&[0, 0, 1, 0, 0, 0, 0], String::from("time")));
    assert_eq!(
        reg.get_name(&[1, 0, 0, 0, 0, 0, 0]),
        Some(String::from("length"))
    );
    assert_eq!(
        reg.get_name(&[0, 0, 1, 0, 0, 0, 0]),
        Some(String::from("time"))
    );
}
