use gnos::units::Unit::{Compound, Feet, Kilo, Meter, Micro, Milli, Minute, Second};
use gnos::units::{canonical_units, check_commensurable, is_commensurable, normalize_units, unit_scales, Unit};

#[test]
fn test_mul_unit() {
    assert_eq!(Meter.mul(Meter), Compound(vec![Meter, Meter], vec![]));
    assert_eq!(Kilo.mul(Second), Compound(vec![Kilo, Second], vec![]));
    assert_eq!(
        (Meter.mul(Meter)).mul(Second.mul(Second)),
        Compound(vec![Meter, Meter, Second, Second], vec![])
    );
}

#[test]
fn test_div_unit() {
    assert_eq!(Meter.div(Second), Compound(vec![Meter], vec![Second]));
    assert_eq!(Second.mul(Meter).div(Second), Meter);
    assert_eq!(Second.mul(Meter.div(Second)), Meter);
    assert_eq!(Second.mul(Meter).div(Meter.mul(Second).mul(Second)), Compound(vec![], vec![Second]));
}

#[test]
fn division_undoes_multiplication() {
    assert_eq!(Meter.mul(Second).div(Second), Meter);
    assert_eq!(Kilo.mul(Meter).div(Meter), Kilo);
}

#[test]
fn unit_text() {
    assert_eq!(Meter.to_str(), "m");
    assert_eq!(Feet.to_str(), "ft");
    assert_eq!(Minute.to_str(), "min");
    assert_eq!(Micro.to_str(), "u");
    assert_eq!(Milli.to_str(), "m");
    assert_eq!(Meter.div(Second).to_str(), "m/s");
    assert_eq!(Kilo.mul(Meter).div(Second.mul(Second)).to_str(), "k*m/s*s");
    assert_eq!(Compound(vec![], vec![]).to_str(), "");
}

#[test]
fn unit_equality() {
    assert!(Meter.eq(&Meter));
    assert!(Meter.ne(&Feet));
    assert!(Meter.div(Second).eq(&Compound(vec![Meter], vec![Second])));
    let copy = Meter.div(Second).duplicate();
    assert_eq!(copy, Compound(vec![Meter], vec![Second]));
}

#[test]
fn commensurable_units() {
    assert!(is_commensurable(&Meter, &Feet));
    assert!(is_commensurable(&Meter.div(Second), &Feet.div(Minute)));
    assert!(!is_commensurable(&Meter, &Second));
    assert_eq!(check_commensurable(&Feet, &Meter, "convert_to"), Ok(()));
}

#[test]
fn incommensurable_message() {
    assert_eq!(
        check_commensurable(&Meter, &Second, "convert_to"),
        Err(String::from("incommensurable units for `m`.convert_to(`s`)"))
    );
}

#[test]
fn canonical_units_use_meters_and_seconds() {
    assert_eq!(canonical_units(&Feet), Meter);
    assert_eq!(canonical_units(&Minute), Second);
    assert_eq!(canonical_units(&Feet.div(Minute)), Compound(vec![Meter], vec![Second]));
}

#[test]
fn scales_to_canonical_units() {
    let (numer, denom) = unit_scales(&Feet.div(Minute));
    assert_eq!(numer.len(), 1);
    assert_eq!(denom.len(), 1);
    // a foot is 0.3048 m and a minute 60 s
    assert_eq!((numer[0].num, numer[0].den), (3048, 10000));
    assert_eq!((denom[0].num, denom[0].den), (60, 1));
}

#[test]
fn normalize_keeps_simple_units() {
    assert_eq!(normalize_units(Meter), Meter);
    assert_eq!(normalize_units(Compound(vec![Meter], vec![])), Meter);
}

#[test]
fn unit_is_simple() {
    assert!(Meter.is_simple());
    assert!(!Meter.div(Second).is_simple());
    let _: Unit = Kilo;
}
