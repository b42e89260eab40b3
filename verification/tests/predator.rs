use ecosim::organism::predator::{HuntOutcome, Predator, SolvencyOutcome};
use ecosim::organism::prey::{Prey, Sex, Species};
use ecosim::organism::Organismo;

fn prey(id: u32, species: Species, age: u32) -> Organismo {
    let mut p = Prey::new(id, species, Sex::Female, 0, 0).unwrap();
    for _ in 0..age {
        p.envejecer();
    }
    Organismo::Presa(p)
}

fn ids(poblacion: &Vec<Organismo>) -> Vec<u32> {
    poblacion.iter().map(|o| o.identificador().unwrap()).collect()
}

#[test]
fn new_predator_is_healthy_and_has_not_eaten() {
    let d = Predator::new(10_000, 30_000, 280, 3_000_000);
    assert_eq!(
        d,
        Predator {
            min_reserve: 10_000,
            opt_reserve: 30_000,
            current_reserve: 3_000_000,
            sacrifice_age_days: 280,
            enfermo: false,
            consumido_hoy: 0,
        }
    );
    assert_eq!(d.current_reserve(), 3_000_000);
    assert!(d.esta_vivo());
    assert_eq!(d.nombre(), "Depredador");
    assert_eq!(d.peso(), 0);
    assert_eq!(d.especie(), None);
    assert_eq!(d.es_macho(), None);
    assert_eq!(d.prob_enfermar(), None);
    assert_eq!(d.prob_muerte_enfermedad(), None);
    assert_eq!(d.edad(), None);
}

#[test]
fn a_new_day_clears_what_was_eaten() {
    let mut d = Predator { consumido_hoy: 12_345, ..Predator::new(10_000, 30_000, 280, 500) };
    d.comenzar_dia();
    assert_eq!(d, Predator::new(10_000, 30_000, 280, 500));
    let mut sick = Predator { enfermo: true, consumido_hoy: 1, ..d };
    sick.comenzar_dia();
    assert_eq!(sick, Predator { enfermo: true, ..d });
}

#[test]
fn a_day_with_enough_eaten_ends_well() {
    let mut d = Predator { consumido_hoy: 10_000, enfermo: true, ..Predator::new(10_000, 30_000, 280, 7) };
    assert_eq!(d.chequear_al_final_del_dia(), SolvencyOutcome::Fed);
    assert_eq!(d, Predator { consumido_hoy: 10_000, ..Predator::new(10_000, 30_000, 280, 7) });
    assert!(d.esta_vivo());
    let mut full = Predator { consumido_hoy: 30_000, ..Predator::new(10_000, 30_000, 280, 7) };
    assert_eq!(full.chequear_al_final_del_dia(), SolvencyOutcome::Fed);
    assert_eq!(full.consumido_hoy, 30_000);
    assert_eq!(full.current_reserve, 7);
}

#[test]
fn the_reserve_covers_what_the_hunt_left_open() {
    let mut d = Predator { consumido_hoy: 4_000, ..Predator::new(10_000, 30_000, 280, 6_500) };
    assert_eq!(d.chequear_al_final_del_dia(), SolvencyOutcome::DrewReserve { shortfall: 6_000 });
    assert_eq!(d.current_reserve(), 500);
    assert_eq!(d.consumido_hoy, 4_000);
    assert!(d.esta_vivo());
    assert_eq!(
        d,
        Predator { consumido_hoy: 4_000, ..Predator::new(10_000, 30_000, 280, 500) }
    );

    let mut exact = Predator::new(10_000, 30_000, 280, 10_000);
    assert_eq!(exact.chequear_al_final_del_dia(), SolvencyOutcome::DrewReserve { shortfall: 10_000 });
    assert_eq!(exact.current_reserve(), 0);
    assert_eq!(exact.consumido_hoy, 0);
    assert!(!exact.enfermo);

    let mut healed = Predator { enfermo: true, ..Predator::new(10_000, 30_000, 280, 10_000) };
    assert_eq!(healed.chequear_al_final_del_dia(), SolvencyOutcome::DrewReserve { shortfall: 10_000 });
    assert!(healed.esta_vivo());
}

#[test]
fn the_predator_starves_when_the_reserve_falls_short() {
    let mut d = Predator { consumido_hoy: 4_000, ..Predator::new(10_000, 30_000, 280, 5_999) };
    assert_eq!(d.chequear_al_final_del_dia(), SolvencyOutcome::Starved);
    assert!(d.enfermo);
    assert!(!d.esta_vivo());
    assert_eq!(d.current_reserve(), 5_999);
    assert_eq!(d.consumido_hoy, 4_000);
}

#[test]
fn candidates_are_prey_of_the_sacrifice_age() {
    let d = Predator::new(10_000, 30_000, 280, 0);
    assert!(!d.es_candidato(&prey(1, Species::Cow, 279)));
    assert!(d.es_candidato(&prey(1, Species::Cow, 280)));
    assert!(d.es_candidato(&prey(1, Species::Rabbit, 281)));
    assert!(!d.es_candidato(&Organismo::Depredador(d)));
    let any = Predator::new(10_000, 30_000, 0, 0);
    assert!(any.es_candidato(&prey(1, Species::Goat, 0)));
    assert!(!any.es_candidato(&Organismo::Depredador(d)));
}

#[test]
fn the_heaviest_candidates_are_found_in_order() {
    let d = Predator::new(10_000, 30_000, 280, 0);
    let poblacion = vec![
        prey(1, Species::Goat, 300),
        prey(2, Species::Cow, 300),
        prey(3, Species::Cow, 100),
        prey(4, Species::Cow, 300),
        prey(5, Species::Cow, 299),
        Organismo::Depredador(d),
        prey(6, Species::Cow, 300),
    ];
    assert_eq!(d.mas_pesados(&poblacion), vec![1, 3, 6]);
    assert_eq!(d.mas_pesados(&vec![]), Vec::<usize>::new());
    assert_eq!(d.mas_pesados(&vec![prey(1, Species::Cow, 279)]), Vec::<usize>::new());
    assert_eq!(d.mas_pesados(&vec![prey(1, Species::Rabbit, 280)]), vec![0]);
}

#[test]
fn hunt_spares_the_young_however_heavy() {
    let mut d = Predator::new(10_000, 30_000_000, 280, 0);
    let mut poblacion = vec![
        prey(1, Species::Cow, 279),
        prey(2, Species::Rabbit, 280),
        prey(3, Species::Cow, 200),
    ];
    assert!(poblacion[0].peso() > poblacion[1].peso());
    for pick in 0..5 {
        let mut hunter = d;
        let mut herd = poblacion.clone();
        hunter.cazar_con(&mut herd, pick);
        assert_eq!(ids(&herd), vec![1, 3]);
    }
    let mut rng = rand::thread_rng();
    let outcome = d.cazar(&mut poblacion, &mut rng);
    assert_eq!(outcome, HuntOutcome::Whole { weight: Species::Rabbit.peso(280) });
    assert_eq!(ids(&poblacion), vec![1, 3]);
    d.comenzar_dia();
    assert_eq!(d.cazar(&mut poblacion, &mut rng), HuntOutcome::NoCandidates);
    assert_eq!(ids(&poblacion), vec![1, 3]);
}

#[test]
fn hunt_takes_exactly_one() {
    let mut rng = rand::thread_rng();
    let mut d = Predator::new(10_000, 30_000_000, 0, 0);
    let mut poblacion: Vec<Organismo> = (0..10).map(|i| prey(i, Species::Cow, 10 * i)).collect();
    let mut eaten = 0;
    for left in (0..10).rev() {
        let heaviest = poblacion[left].peso();
        assert_eq!(d.cazar(&mut poblacion, &mut rng), HuntOutcome::Whole { weight: heaviest });
        eaten += heaviest;
        assert_eq!(poblacion.len(), left);
        assert_eq!(d.consumido_hoy, eaten);
        assert_eq!(ids(&poblacion), (0..left as u32).collect::<Vec<u32>>());
    }
    assert_eq!(d.cazar(&mut poblacion, &mut rng), HuntOutcome::NoCandidates);
    assert_eq!(d.cazar_con(&mut poblacion, 3), HuntOutcome::NoCandidates);
    assert!(poblacion.is_empty());
    assert_eq!(d.current_reserve(), 0);
}

#[test]
fn a_sated_predator_does_not_hunt() {
    let mut rng = rand::thread_rng();
    let poblacion = vec![prey(1, Species::Cow, 300), prey(2, Species::Cow, 300)];
    for consumed in [30_000, 30_001, u64::MAX] {
        let d = Predator { consumido_hoy: consumed, ..Predator::new(10_000, 30_000, 280, 5) };
        let mut hunter = d;
        let mut herd = poblacion.clone();
        assert_eq!(hunter.cazar(&mut herd, &mut rng), HuntOutcome::Sated);
        assert_eq!(hunter, d);
        assert_eq!(herd, poblacion);
        assert_eq!(hunter.cazar_con(&mut herd, 1), HuntOutcome::Sated);
        assert_eq!(hunter, d);
        assert_eq!(herd, poblacion);
    }
    let mut none = Predator::new(0, 0, 0, 0);
    let mut herd = poblacion.clone();
    assert_eq!(none.cazar(&mut herd, &mut rng), HuntOutcome::Sated);
    assert_eq!(herd.len(), 2);
}

#[test]
fn what_exceeds_the_optimum_goes_to_the_reserve() {
    let mut d = Predator { consumido_hoy: 5_000, ..Predator::new(10_000, 30_000, 280, 1_000) };
    let mut poblacion = vec![prey(1, Species::Cow, 280), prey(2, Species::Goat, 280)];
    let weight = Species::Cow.peso(280);
    assert_eq!(weight, 508_621);
    let outcome = d.cazar_con(&mut poblacion, 0);
    assert_eq!(outcome, HuntOutcome::Partial { weight: 508_621, eaten: 25_000, banked: 483_621 });
    assert_eq!(d.consumido_hoy, 30_000);
    assert_eq!(d.current_reserve(), 1_000 + 508_621 - 25_000);
    assert_eq!(ids(&poblacion), vec![2]);
    assert_eq!(
        d,
        Predator {
            min_reserve: 10_000,
            opt_reserve: 30_000,
            current_reserve: 484_621,
            sacrifice_age_days: 280,
            enfermo: false,
            consumido_hoy: 30_000,
        }
    );
}

#[test]
fn prey_within_the_optimum_is_eaten_whole() {
    let mut rng = rand::thread_rng();
    let goat = Species::Goat.peso(300);
    let mut d = Predator::new(10_000, 2 * goat, 280, 1_000);
    let mut poblacion = vec![prey(1, Species::Goat, 300), prey(2, Species::Goat, 300)];
    assert_eq!(d.cazar(&mut poblacion, &mut rng), HuntOutcome::Whole { weight: goat });
    assert_eq!(d.consumido_hoy, goat);
    assert_eq!(d.current_reserve(), 1_000);
    assert_eq!(poblacion.len(), 1);
    assert_eq!(d.cazar(&mut poblacion, &mut rng), HuntOutcome::Whole { weight: goat });
    assert_eq!(d.consumido_hoy, 2 * goat);
    assert_eq!(d.current_reserve(), 1_000);
    assert!(poblacion.is_empty());
}

#[test]
fn the_draw_decides_among_the_heaviest() {
    let d = Predator::new(10_000, 30_000, 280, 0);
    let poblacion = vec![
        prey(1, Species::Cow, 300),
        prey(2, Species::Goat, 300),
        prey(3, Species::Cow, 300),
        prey(4, Species::Cow, 300),
    ];
    let left = [vec![2, 3, 4], vec![1, 2, 4], vec![1, 2, 3]];
    for pick in 0..9 {
        let mut hunter = d;
        let mut herd = poblacion.clone();
        hunter.cazar_con(&mut herd, pick);
        assert_eq!(ids(&herd), left[pick % 3], "pick {}", pick);
        assert_eq!(hunter.consumido_hoy, 30_000);
    }
    let mut hunter = d;
    let mut herd = poblacion.clone();
    hunter.cazar_con(&mut herd, usize::MAX);
    assert_eq!(ids(&herd), left[usize::MAX % 3]);
}

#[test]
fn the_random_source_decides_among_the_heaviest() {
    let mut rng = rand::thread_rng();
    let d = Predator::new(10_000, 30_000, 280, 0);
    let poblacion = vec![
        prey(1, Species::Cow, 300),
        prey(2, Species::Cow, 301),
        prey(3, Species::Goat, 300),
        prey(4, Species::Cow, 301),
        prey(5, Species::Cow, 250),
    ];
    let mut taken = [0usize; 6];
    for _ in 0..2_000 {
        let mut hunter = d;
        let mut herd = poblacion.clone();
        let outcome = hunter.cazar(&mut herd, &mut rng);
        assert_eq!(
            outcome,
            HuntOutcome::Partial {
                weight: Species::Cow.peso(301),
                eaten: 30_000,
                banked: Species::Cow.peso(301) - 30_000,
            }
        );
        assert_eq!(herd.len(), 4);
        let gone: Vec<u32> =
            ids(&poblacion).into_iter().filter(|id| !ids(&herd).contains(id)).collect();
        assert_eq!(gone.len(), 1);
        taken[gone[0] as usize] += 1;
    }
    assert_eq!(taken[1] + taken[3] + taken[5], 0);
    assert!(taken[2] > 0 && taken[4] > 0);
    assert_eq!(taken[2] + taken[4], 2_000);
}

#[test]
fn the_reserve_may_fill_to_the_brim() {
    let weight = Species::Cow.peso(300);
    let mut d = Predator::new(0, 1, 0, u64::MAX - (weight - 1));
    let mut poblacion = vec![prey(1, Species::Cow, 300)];
    assert_eq!(
        d.cazar_con(&mut poblacion, 0),
        HuntOutcome::Partial { weight, eaten: 1, banked: weight - 1 }
    );
    assert_eq!(d.current_reserve(), u64::MAX);
}

#[test]
fn closing_the_books_leaves_what_was_eaten() {
    let cases = [
        (0, 0, SolvencyOutcome::Starved),
        (0, 9_999, SolvencyOutcome::Starved),
        (0, 10_000, SolvencyOutcome::DrewReserve { shortfall: 10_000 }),
        (1, 9_999, SolvencyOutcome::DrewReserve { shortfall: 9_999 }),
        (9_999, 0, SolvencyOutcome::Starved),
        (9_999, 1, SolvencyOutcome::DrewReserve { shortfall: 1 }),
        (10_000, 0, SolvencyOutcome::Fed),
        (30_000, 77, SolvencyOutcome::Fed),
        (40_000, u64::MAX, SolvencyOutcome::Fed),
    ];
    for (eaten, reserve, expected) in cases {
        for sick in [false, true] {
            let before = Predator {
                consumido_hoy: eaten,
                enfermo: sick,
                ..Predator::new(10_000, 30_000, 280, reserve)
            };
            let mut d = before;
            assert_eq!(d.chequear_al_final_del_dia(), expected);
            let drawn = match expected {
                SolvencyOutcome::DrewReserve { shortfall } => shortfall,
                _ => 0,
            };
            assert_eq!(
                d,
                Predator {
                    current_reserve: reserve - drawn,
                    enfermo: expected == SolvencyOutcome::Starved,
                    ..before
                }
            );
            assert_eq!(d.consumido_hoy, eaten);
        }
    }
}
