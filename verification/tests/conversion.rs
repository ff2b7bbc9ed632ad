use dimensional::prefix::Prefix;
use dimensional::prefix::SIPrefix;
use dimensional::quantity::Quantity;
use dimensional::ratio::Ratio;
use dimensional::unit::compose_prefix;
use dimensional::unit::declare_base_unit;
use dimensional::unit::declare_unit;
use dimensional::value::Value;

fn as_f64(r: &Ratio) -> f64 {
    r.num as f64 / r.den as f64
}

fn mass() -> Quantity {
    Quantity::new(&[0, 1, 0, 0, 0, 0, 0])
}

fn length() -> Quantity {
    Quantity::new(&[1, 0, 0, 0, 0, 0, 0])
}

fn time() -> Quantity {
    Quantity::new(&[0, 0, 1, 0, 0, 0, 0])
}

/// Gram with its factor into the canonical kilogram representation.
fn gram() -> dimensional::unit::Unit {
    declare_unit(&mass(), Ratio::new(1, 1000), String::from("g"))
}

fn kilogram() -> dimensional::unit::Unit {
    let kilo = Prefix::new(Ratio::new(1000, 1), String::from("k"));
    compose_prefix(&kilo, &gram())
}

#[test]
fn prefix_abbreviations() {
    assert_eq!(SIPrefix::Kilo.abbreviation(), "k");
    assert_eq!(SIPrefix::Deca.abbreviation(), "da");
    assert_eq!(SIPrefix::One.abbreviation(), "");
    assert_eq!(SIPrefix::Micro.abbreviation(), "μ");
}

#[test]
fn prefix_factors_are_exact_powers_of_ten() {
    let kilo = SIPrefix::Kilo.factor();
    assert_eq!((kilo.num, kilo.den), (1000, 1));
    let milli = SIPrefix::Milli.factor();
    assert_eq!((milli.num, milli.den), (1, 1000));
    let yotta = SIPrefix::Yotta.factor();
    assert_eq!((yotta.num, yotta.den), (1_000_000_000_000_000_000_000_000, 1));
    let yocto = SIPrefix::Yocto.factor();
    assert_eq!((yocto.num, yocto.den), (1, 1_000_000_000_000_000_000_000_000));
}

#[test]
fn prefix_descriptor_carries_symbol_and_factor() {
    let p = SIPrefix::Milli.descriptor();
    assert_eq!(p.symbol, "m");
    assert_eq!((p.factor.num, p.factor.den), (1, 1000));
}

#[test]
fn composed_unit_concatenates_symbols() {
    let kg = kilogram();
    assert_eq!(kg.symbol(), "kg");
    assert_eq!((kg.factor_to_unit_base.num, kg.factor_to_unit_base.den), (1000, 1));
    assert_eq!(
        (kg.factor_to_quantity_base.num, kg.factor_to_quantity_base.den),
        (1, 1000)
    );
}

#[test]
fn raw_units_are_prefixable_and_prefixed_ones_are_not() {
    let metre = declare_base_unit(&length(), String::from("m"));
    assert!(metre.factor_to_unit_base.is_one());
    let kilo = Prefix::new(Ratio::new(1000, 1), String::from("k"));
    let kilometre = compose_prefix(&kilo, &metre);
    assert!(!kilometre.factor_to_unit_base.is_one());
}

#[test]
fn base_unit_has_unit_factors() {
    let second = declare_base_unit(&time(), String::from("s"));
    assert_eq!((second.factor_to_unit_base.num, second.factor_to_unit_base.den), (1, 1));
    assert_eq!(
        (second.factor_to_quantity_base.num, second.factor_to_quantity_base.den),
        (1, 1)
    );
    assert_eq!(second.symbol(), "s");
}

#[test]
fn kilogram_to_pound() {
    let pound = declare_unit(&mass(), Ratio::new(45359237, 100000000), String::from("lbs"));
    let kg_value = Value::new(Ratio::new(21240, 10000), kilogram());
    let lb_value = kg_value.convert(&pound);
    let expected = 2.1240 / 0.45359237;
    assert!((as_f64(&lb_value.magnitude) - expected).abs() < 1e-9);
    assert!((as_f64(&lb_value.magnitude) - 4.6825).abs() < 1e-3);
    assert_eq!(lb_value.unit.symbol(), "lbs");
}

#[test]
fn millistone_to_kilogram() {
    let stone = declare_unit(&mass(), Ratio::new(635029, 100000), String::from("st"));
    let milli = Prefix::new(Ratio::new(1, 1000), String::from("m"));
    let millistone = compose_prefix(&milli, &stone);
    let v = Value::new(Ratio::from_int(212431230), millistone);
    let kg = v.convert(&kilogram());
    let expected = 212431230.0 * 0.001 * 6.35029;
    assert!((as_f64(&kg.magnitude) - expected).abs() < 1e-3);
}

#[test]
fn convert_to_same_unit_is_exact_identity() {
    let kg = kilogram();
    let v = Value::new(Ratio::new(31240001, 7), kg);
    let r = v.convert(&kilogram());
    // The same number exactly.
    assert!(r.magnitude.same_number(&v.magnitude));
}

#[test]
fn round_trip_is_exact() {
    let pound = declare_unit(&mass(), Ratio::new(45359237, 100000000), String::from("lbs"));
    let v = Value::new(Ratio::new(21240, 10000), kilogram());
    let there = v.convert(&pound);
    let back = there.convert(&kilogram());
    assert!(back.magnitude.same_number(&v.magnitude));
}

#[test]
fn incompatible_quantities_are_refused() {
    let metre = declare_base_unit(&length(), String::from("m"));
    let second = declare_base_unit(&time(), String::from("s"));
    let distance = Value::new(Ratio::new(5, 1), metre);
    assert!(distance.convert_to(&second).is_none());
}

#[test]
fn compatible_quantities_convert_through_convert_to() {
    let metre = declare_base_unit(&length(), String::from("m"));
    let kilo = Prefix::new(Ratio::new(1000, 1), String::from("k"));
    let kilometre = compose_prefix(&kilo, &metre);
    let v = Value::new(Ratio::new(5, 1), kilometre);
    let in_metres = v.convert_to(&metre).expect("same quantity");
    assert!((as_f64(&in_metres.magnitude) - 5000.0).abs() < 1e-12);
}

#[test]
fn independently_declared_quantities_interconvert() {
    // Structural identity: two separate declarations of the same dimension
    // vector are one quantity for every conversion purpose.
    let mass_again = Quantity::new(&[0, 1, 0, 0, 0, 0, 0]);
    let gram_again = declare_unit(&mass_again, Ratio::new(1, 1000), String::from("g"));
    let v = Value::new(Ratio::new(3000, 1), gram_again);
    let kg = v.convert_to(&kilogram()).expect("structurally the same quantity");
    assert!((as_f64(&kg.magnitude) - 3.0).abs() < 1e-12);
}

#[test]
fn to_si_moves_into_canonical_base() {
    let metre = declare_base_unit(&length(), String::from("m"));
    let kilo = Prefix::new(Ratio::new(1000, 1), String::from("k"));
    let kilometre = compose_prefix(&kilo, &metre);
    let v = Value::new(Ratio::new(5, 1), kilometre);
    assert!((as_f64(&v.to_si()) - 5000.0).abs() < 1e-12);
    // The kilogram's prefix and raw-base factor cancel: its canonical
    // representation is itself.
    let w = Value::new(Ratio::new(7, 2), kilogram());
    assert!((as_f64(&w.to_si()) - 3.5).abs() < 1e-12);
}

#[test]
fn unit_product_combines_quantities_and_scales() {
    let a = declare_unit(&length(), Ratio::new(3, 2), String::from("a"));
    let b = declare_unit(&time(), Ratio::new(5, 7), String::from("b"));
    let ab = a.mul(&b);
    assert_eq!(ab.quantity.dimension_vector(), [1, 0, 1, 0, 0, 0, 0]);
    assert_eq!(
        (ab.factor_to_quantity_base.num, ab.factor_to_quantity_base.den),
        (15, 14)
    );
}

#[test]
fn unit_quotient_combines_quantities_and_scales() {
    let a = declare_unit(&length(), Ratio::new(3, 2), String::from("a"));
    let b = declare_unit(&time(), Ratio::new(5, 7), String::from("b"));
    let ab = a.div(&b);
    assert_eq!(ab.quantity.dimension_vector(), [1, 0, -1, 0, 0, 0, 0]);
    assert_eq!(
        (ab.factor_to_quantity_base.num, ab.factor_to_quantity_base.den),
        (21, 10)
    );
}

#[test]
fn value_product_multiplies_magnitudes() {
    let metre = declare_base_unit(&length(), String::from("m"));
    let second = declare_base_unit(&time(), String::from("s"));
    let d = Value::new(Ratio::new(3, 2), metre);
    let t = Value::new(Ratio::new(4, 1), second);
    let p = d.mul(&t);
    assert_eq!((p.magnitude.num, p.magnitude.den), (12, 2));
    assert_eq!(p.unit.quantity.dimension_vector(), [1, 0, 1, 0, 0, 0, 0]);
}

#[test]
fn value_quotient_divides_magnitudes() {
    let metre = declare_base_unit(&length(), String::from("m"));
    let second = declare_base_unit(&time(), String::from("s"));
    let d = Value::new(Ratio::new(6, 1), metre);
    let t = Value::new(Ratio::new(4, 1), second);
    let speed = d.div(&t);
    assert!((as_f64(&speed.magnitude) - 1.5).abs() < 1e-12);
    assert_eq!(speed.unit.quantity.dimension_vector(), [1, 0, -1, 0, 0, 0, 0]);
}

#[test]
fn value_quotient_by_negative_magnitude_keeps_positive_denominator() {
    let metre = declare_base_unit(&length(), String::from("m"));
    let second = declare_base_unit(&time(), String::from("s"));
    let d = Value::new(Ratio::new(6, 1), metre);
    let t = Value::new(Ratio::new(-4, 1), second);
    let speed = d.div(&t);
    assert!(speed.magnitude.den > 0);
    assert!((as_f64(&speed.magnitude) + 1.5).abs() < 1e-12);
}

#[test]
fn force_units_from_combined_quantities_interconvert() {
    // A newton-like unit built on the combined force quantity converts
    // against a horsepower-like unit of the same quantity.
    let force = Quantity::combine(&[(mass(), 1), (length(), 1), (time(), -2)]);
    let newton = declare_base_unit(&force, String::from("N"));
    let strong = declare_unit(&force, Ratio::new(7457, 10), String::from("hp"));
    let v = Value::new(Ratio::new(74570, 1), newton);
    let hp = v.convert_to(&strong).expect("same quantity");
    assert!((as_f64(&hp.magnitude) - 100.0).abs() < 1e-12);
}
