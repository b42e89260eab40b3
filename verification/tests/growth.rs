use ecosim::growth::{crecimiento_gompertz, Gompertz};
use ecosim::organism::prey::{Species, MAX_WEIGHT};

/// The curve in floating point, in grams.
fn formula(a: f64, b: f64, k: f64, age: u32) -> f64 {
    a * (-b * (-k * age as f64).exp()).exp() * 1000.0
}

fn params(species: Species) -> (f64, f64, f64) {
    match species {
        Species::Cow => (700.0, 3.0, 0.008),
        Species::Goat => (75.0, 2.8, 0.01),
        Species::Rabbit => (5.0, 2.5, 0.05),
    }
}

#[test]
fn curve_keeps_its_parameters() {
    let curve = crecimiento_gompertz(700_000, 3_000_000, 8_000);
    assert_eq!(curve, Gompertz { a: 700_000, b: 3_000_000, k: 8_000 });
    assert_eq!(Species::Cow.curva(), curve);
    assert_eq!(Species::Goat.curva(), Gompertz { a: 75_000, b: 2_800_000, k: 10_000 });
    assert_eq!(Species::Rabbit.curva(), Gompertz { a: 5_000, b: 2_500_000, k: 50_000 });
}

#[test]
fn birth_weights_are_those_of_the_formula() {
    assert_eq!(Species::Cow.peso(0), 34_850);
    assert_eq!(Species::Goat.peso(0), 4_560);
    assert_eq!(Species::Rabbit.peso(0), 410);
    for species in [Species::Cow, Species::Goat, Species::Rabbit] {
        let (a, b, _) = params(species);
        let expected = a * (-b).exp() * 1000.0;
        let got = species.peso(0) as f64;
        assert!((got - expected).abs() < 1.0, "{:?}: {} against {}", species, got, expected);
    }
}

#[test]
fn weights_at_some_ages() {
    assert_eq!(Species::Cow.peso(280), 508_621);
    assert_eq!(Species::Goat.peso(100), 26_773);
    assert_eq!(Species::Rabbit.peso(30), 2_862);
}

#[test]
fn curve_follows_the_formula_within_a_gram() {
    for species in [Species::Cow, Species::Goat, Species::Rabbit] {
        let (a, b, k) = params(species);
        let mut age: u32 = 0;
        while age < 12_000 {
            let expected = formula(a, b, k, age);
            let got = species.peso(age) as f64;
            assert!(
                (got - expected).abs() < 1.0,
                "{:?} at {}: {} against {}",
                species,
                age,
                got,
                expected
            );
            age += 1;
        }
    }
}

#[test]
fn growth_never_decreases() {
    for species in [Species::Cow, Species::Goat, Species::Rabbit] {
        let mut before = species.peso(0);
        let mut age: u32 = 1;
        while age < 12_000 {
            let now = species.peso(age);
            assert!(before <= now, "{:?} shrinks at {}", species, age);
            before = now;
            age += 1;
        }
    }
}

#[test]
fn growth_ends_at_the_asymptote() {
    assert_eq!(Species::Cow.peso(9_125), 700_000);
    assert_eq!(Species::Goat.peso(5_475), 75_000);
    assert_eq!(Species::Rabbit.peso(2_920), 5_000);
    assert_eq!(Species::Cow.peso(u32::MAX), 700_000);
    assert_eq!(Species::Rabbit.peso(u32::MAX), 5_000);
    for species in [Species::Cow, Species::Goat, Species::Rabbit] {
        assert!(species.peso(u32::MAX) <= MAX_WEIGHT);
    }
}

#[test]
fn curve_with_extreme_parameters() {
    let flat = crecimiento_gompertz(1_000, 0, 0);
    assert_eq!(flat.peso(0), 1_000);
    assert_eq!(flat.peso(1_000_000), 1_000);
    let steep = crecimiento_gompertz(u64::MAX, u32::MAX, u32::MAX);
    assert_eq!(steep.peso(0), 0);
    assert_eq!(steep.peso(u32::MAX), u64::MAX);
    let nothing = crecimiento_gompertz(0, 3_000_000, 8_000);
    assert_eq!(nothing.peso(500), 0);
}

#[test]
fn species_tables() {
    assert_eq!(Species::Cow.edad_maxima(), 25 * 365);
    assert_eq!(Species::Goat.edad_maxima(), 15 * 365);
    assert_eq!(Species::Rabbit.edad_maxima(), 8 * 365);
    assert_eq!(Species::Cow.camada(), (1, 1));
    assert_eq!(Species::Goat.camada(), (1, 3));
    assert_eq!(Species::Rabbit.camada(), (3, 8));
}
