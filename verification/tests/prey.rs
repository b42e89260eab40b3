use ecosim::chance::{probabilidad, MILLION};
use ecosim::error::ConfigError;
use ecosim::organism::predator::Predator;
use ecosim::organism::prey::{
    prob_macho, prob_parto, Prey, Sex, Species, BIRTH_CHANCE, FERTILE_AGE, MALE_CHANCE, MAX_LITTER,
};
use ecosim::organism::Organismo;

fn prey(id: u32, species: Species, sex: Sex, age: u32) -> Prey {
    let mut p = Prey::new(id, species, sex, 0, 0).unwrap();
    for _ in 0..age {
        p.envejecer();
    }
    p
}

fn herd(members: &[Prey]) -> Vec<Organismo> {
    members.iter().map(|p| Organismo::Presa(*p)).collect()
}

#[test]
fn new_prey_is_a_healthy_newborn() {
    let p = Prey::new(7, Species::Goat, Sex::Female, 1_000, 50_000).unwrap();
    assert_eq!(
        p,
        Prey {
            id: 7,
            species: Species::Goat,
            sex: Sex::Female,
            age_days: 0,
            weight_g: 4_560,
            prob_enfermar: 1_000,
            prob_muerte_enfermedad: 50_000,
            enfermo: false,
        }
    );
    assert!(p.is_valid());
    assert_eq!(p.peso(), Species::Goat.peso(0));
}

#[test]
fn new_prey_takes_the_whole_range_of_probabilities() {
    assert!(Prey::new(1, Species::Cow, Sex::Male, 0, 0).is_ok());
    assert!(Prey::new(1, Species::Cow, Sex::Male, MILLION, MILLION).is_ok());
}

#[test]
fn new_prey_refuses_a_probability_above_one() {
    assert_eq!(
        Prey::new(1, Species::Cow, Sex::Male, MILLION + 1, 0),
        Err(ConfigError::ProbabilityOutOfRange)
    );
    assert_eq!(
        Prey::new(1, Species::Cow, Sex::Male, 0, MILLION + 1),
        Err(ConfigError::ProbabilityOutOfRange)
    );
    assert_eq!(
        Prey::new(1, Species::Rabbit, Sex::Female, u32::MAX, u32::MAX),
        Err(ConfigError::ProbabilityOutOfRange)
    );
}

#[test]
fn validity_is_about_probabilities_and_weight() {
    let good = prey(1, Species::Cow, Sex::Male, 10);
    assert!(good.is_valid());
    assert!(!Prey { weight_g: good.weight_g + 1, ..good }.is_valid());
    assert!(!Prey { age_days: 11, ..good }.is_valid());
    assert!(!Prey { prob_enfermar: MILLION + 1, ..good }.is_valid());
    assert!(!Prey { prob_muerte_enfermedad: MILLION + 1, ..good }.is_valid());
    assert!(Prey { enfermo: true, id: 99, sex: Sex::Female, ..good }.is_valid());
}

#[test]
fn ageing_adds_a_day_and_follows_the_curve() {
    let mut p = Prey::new(1, Species::Cow, Sex::Female, 500, 50_000).unwrap();
    assert_eq!(p.peso(), 34_850);
    p.envejecer();
    assert_eq!(p.age_days, 1);
    assert_eq!(p.weight_g, 35_694);
    p.envejecer();
    assert_eq!(p.edad(), Some(2));
    assert_eq!(p.peso(), 36_550);
    assert_eq!(
        p,
        Prey {
            id: 1,
            species: Species::Cow,
            sex: Sex::Female,
            age_days: 2,
            weight_g: 36_550,
            prob_enfermar: 500,
            prob_muerte_enfermedad: 50_000,
            enfermo: false,
        }
    );
}

#[test]
fn healthy_prey_lives_up_to_the_maximal_age() {
    for (species, limit) in
        [(Species::Cow, 25 * 365), (Species::Goat, 15 * 365), (Species::Rabbit, 8 * 365)]
    {
        let mut p = prey(1, species, Sex::Male, limit - 1);
        assert_eq!(p.age_days, limit - 1);
        assert!(p.esta_vivo(), "{:?} one day below the limit", species);
        p.envejecer();
        assert_eq!(p.age_days, limit);
        assert!(!p.esta_vivo(), "{:?} at the limit", species);
        p.envejecer();
        assert!(!p.esta_vivo(), "{:?} past the limit", species);
    }
}

#[test]
fn sick_prey_lives_on_past_the_maximal_age() {
    let mut p = prey(1, Species::Rabbit, Sex::Female, 8 * 365 + 10);
    assert!(!p.esta_vivo());
    p.enfermo = true;
    assert!(p.esta_vivo());
    let young = Prey { enfermo: true, ..prey(2, Species::Cow, Sex::Male, 3) };
    assert!(young.esta_vivo());
}

#[test]
fn prey_answers_for_itself() {
    let p = Prey::new(3, Species::Rabbit, Sex::Male, 2_000, 100_000).unwrap();
    assert_eq!(p.nombre(), "Conejo");
    assert_eq!(p.especie(), Some(Species::Rabbit));
    assert_eq!(p.es_macho(), Some(true));
    assert_eq!(p.prob_enfermar(), Some(2_000));
    assert_eq!(p.prob_muerte_enfermedad(), Some(100_000));
    assert_eq!(p.edad(), Some(0));
    assert_eq!(p.peso(), 410);
    let q = Prey::new(4, Species::Cow, Sex::Female, 0, 0).unwrap();
    assert_eq!(q.nombre(), "Vaca");
    assert_eq!(q.es_macho(), Some(false));
    assert_eq!(Prey::new(5, Species::Goat, Sex::Female, 0, 0).unwrap().nombre(), "Cabra");
}

#[test]
fn organism_answers_as_its_kind_does() {
    let p = Prey::new(3, Species::Goat, Sex::Male, 2_000, 100_000).unwrap();
    let o = Organismo::Presa(p);
    assert_eq!(o.nombre(), "Cabra");
    assert_eq!(o.especie(), Some(Species::Goat));
    assert_eq!(o.es_macho(), Some(true));
    assert_eq!(o.prob_enfermar(), Some(2_000));
    assert_eq!(o.prob_muerte_enfermedad(), Some(100_000));
    assert_eq!(o.edad(), Some(0));
    assert_eq!(o.peso(), 4_560);
    assert_eq!(o.identificador(), Some(3));
    assert!(o.esta_vivo());
    let mut older = o;
    older.envejecer();
    assert_eq!(older.edad(), Some(1));
    assert_eq!(older.peso(), 4_689);

    let mut d = Organismo::Depredador(Predator::new(10_000, 30_000, 280, 0));
    assert_eq!(d.nombre(), "Depredador");
    assert_eq!(d.especie(), None);
    assert_eq!(d.es_macho(), None);
    assert_eq!(d.prob_enfermar(), None);
    assert_eq!(d.prob_muerte_enfermedad(), None);
    assert_eq!(d.edad(), None);
    assert_eq!(d.peso(), 0);
    assert_eq!(d.identificador(), None);
    assert!(d.esta_vivo());
    let before = d;
    d.envejecer();
    assert_eq!(d, before);
    assert!(!d.resolver_enfermedad(true));
    assert_eq!(d, before);
    let mut rng = rand::thread_rng();
    assert!(!d.tratar_enfermedad(&mut rng));
    assert!(!d.sortear_enfermedad(&mut rng));
    assert!(d.sortear_camada(&mut rng, &vec![o]).is_empty());
    assert!(d.reproducirse(&mut rng, &vec![o], 1000).is_empty());
    assert!(d.parir(&vec![o], &vec![Sex::Male], 1000).is_empty());
    assert_eq!(d, before);
}

#[test]
fn a_hit_makes_the_healthy_sick_and_kills_the_sick() {
    let mut p = Prey::new(1, Species::Cow, Sex::Female, 500, 50_000).unwrap();
    assert!(!p.resolver_enfermedad(false));
    assert!(!p.enfermo);
    assert!(!p.resolver_enfermedad(true));
    assert!(p.enfermo);
    let sick = p;
    assert!(!p.resolver_enfermedad(false));
    assert_eq!(p, sick);
    assert!(p.resolver_enfermedad(true));
    assert_eq!(p, sick);
}

#[test]
fn certain_trials_do_not_depend_on_the_draw() {
    let mut immune = Prey::new(1, Species::Cow, Sex::Female, 0, 0).unwrap();
    assert!(!immune.resolver_enfermedad(true));
    assert!(!immune.enfermo);
    immune.enfermo = true;
    assert!(!immune.resolver_enfermedad(true));
    assert!(immune.enfermo);

    let mut doomed = Prey::new(2, Species::Cow, Sex::Female, MILLION, MILLION).unwrap();
    assert!(!doomed.resolver_enfermedad(false));
    assert!(doomed.enfermo);
    assert!(doomed.resolver_enfermedad(false));
}

#[test]
fn drawn_trials_respect_the_certain_cases() {
    let mut rng = rand::thread_rng();
    let mut immune = Prey::new(1, Species::Goat, Sex::Male, 0, 0).unwrap();
    for _ in 0..1_000 {
        assert!(!immune.sortear_enfermedad(&mut rng));
        assert!(!immune.tratar_enfermedad(&mut rng));
        assert!(!immune.enfermo);
    }
    immune.enfermo = true;
    for _ in 0..1_000 {
        assert!(!immune.tratar_enfermedad(&mut rng));
        assert!(immune.enfermo);
    }
    let mut doomed = Prey::new(2, Species::Goat, Sex::Male, MILLION, MILLION).unwrap();
    assert!(doomed.sortear_enfermedad(&mut rng));
    assert!(!doomed.tratar_enfermedad(&mut rng));
    assert!(doomed.enfermo);
    assert!(doomed.tratar_enfermedad(&mut rng));
}

#[test]
fn bernoulli_trial_at_the_ends_and_in_between() {
    let mut rng = rand::thread_rng();
    for _ in 0..1_000 {
        assert!(!probabilidad(0, &mut rng));
        assert!(probabilidad(MILLION, &mut rng));
    }
    let mut hits = 0;
    for _ in 0..10_000 {
        if probabilidad(500_000, &mut rng) {
            hits += 1;
        }
    }
    assert!(hits > 4_000 && hits < 6_000, "{} hits of 10000 at one half", hits);
    let mut rare = 0;
    for _ in 0..10_000 {
        if probabilidad(BIRTH_CHANCE, &mut rng) {
            rare += 1;
        }
    }
    assert!(rare < 400, "{} hits of 10000 at one in a hundred", rare);
}

#[test]
fn fertility_needs_a_female_past_the_age_with_a_living_male_of_her_species() {
    let mother = prey(1, Species::Cow, Sex::Female, FERTILE_AGE + 1);
    let bull = prey(2, Species::Cow, Sex::Male, 0);
    let billy = prey(3, Species::Goat, Sex::Male, 400);
    let cow = prey(4, Species::Cow, Sex::Female, 400);
    let dead_bull = prey(5, Species::Cow, Sex::Male, 25 * 365);
    let sick_old_bull = Prey { enfermo: true, ..dead_bull };
    let hunter = Organismo::Depredador(Predator::new(1, 1, 0, 0));

    assert!(mother.es_fertil(&herd(&[mother, bull])));
    assert!(mother.tiene_pareja(&herd(&[billy, cow, bull])));
    assert!(mother.es_fertil(&herd(&[sick_old_bull])));
    assert!(!mother.es_fertil(&herd(&[])));
    assert!(!mother.es_fertil(&herd(&[mother, cow, billy])));
    assert!(!mother.es_fertil(&herd(&[dead_bull])));
    assert!(!mother.es_fertil(&vec![hunter]));

    let at_the_age = prey(6, Species::Cow, Sex::Female, FERTILE_AGE);
    assert!(!at_the_age.es_fertil(&herd(&[bull])));
    assert!(at_the_age.tiene_pareja(&herd(&[bull])));
    assert!(!bull.es_fertil(&herd(&[bull, mother])));
    let old_bull = prey(7, Species::Cow, Sex::Male, 400);
    assert!(!old_bull.es_fertil(&herd(&[bull, mother])));
}

#[test]
fn a_litter_is_born_as_the_draws_say() {
    let mother = Prey {
        prob_enfermar: 2_000,
        prob_muerte_enfermedad: 100_000,
        ..prey(1, Species::Rabbit, Sex::Female, 200)
    };
    let buck = prey(2, Species::Rabbit, Sex::Male, 200);
    let poblacion = herd(&[mother, buck]);
    let sexes = vec![Sex::Male, Sex::Female, Sex::Female, Sex::Male];
    let hijos = mother.parir(&poblacion, &sexes, 1_000);
    assert_eq!(hijos.len(), 4);
    for (i, hijo) in hijos.iter().enumerate() {
        assert_eq!(
            *hijo,
            Organismo::Presa(Prey {
                id: 1_000 + i as u32,
                species: Species::Rabbit,
                sex: sexes[i],
                age_days: 0,
                weight_g: 410,
                prob_enfermar: 2_000,
                prob_muerte_enfermedad: 100_000,
                enfermo: false,
            })
        );
    }
    assert_eq!(Organismo::Presa(mother).parir(&poblacion, &sexes, 1_000), hijos);
}

#[test]
fn litter_sizes_follow_the_species() {
    for (species, lo, hi) in [(Species::Cow, 1, 1), (Species::Goat, 1, 3), (Species::Rabbit, 3, 8)]
    {
        let mother = prey(1, species, Sex::Female, 181);
        let male = prey(2, species, Sex::Male, 0);
        let poblacion = herd(&[mother, male]);
        for size in 0..=(MAX_LITTER as usize + 2) {
            let sexes = vec![Sex::Female; size];
            let hijos = mother.parir(&poblacion, &sexes, 5_000);
            if lo <= size && size <= hi {
                assert_eq!(hijos.len(), size, "{:?} litter of {}", species, size);
            } else {
                assert!(hijos.is_empty(), "{:?} litter of {}", species, size);
            }
        }
    }
}

#[test]
fn no_litter_without_fertility() {
    let sexes = vec![Sex::Female];
    let mother = prey(1, Species::Cow, Sex::Female, 181);
    let bull = prey(2, Species::Cow, Sex::Male, 0);
    assert_eq!(mother.parir(&herd(&[mother, bull]), &sexes, 1_000).len(), 1);
    assert!(mother.parir(&herd(&[mother]), &sexes, 1_000).is_empty());
    let young = prey(3, Species::Cow, Sex::Female, 180);
    assert!(young.parir(&herd(&[young, bull]), &sexes, 1_000).is_empty());
    assert!(bull.parir(&herd(&[mother, bull]), &sexes, 1_000).is_empty());
}

#[test]
fn litter_takes_the_last_ids() {
    let mother = prey(1, Species::Rabbit, Sex::Female, 181);
    let buck = prey(2, Species::Rabbit, Sex::Male, 0);
    let sexes = vec![Sex::Female; 8];
    let hijos = mother.parir(&herd(&[mother, buck]), &sexes, u32::MAX - 7);
    assert_eq!(hijos.len(), 8);
    assert_eq!(hijos[0].identificador(), Some(u32::MAX - 7));
    assert_eq!(hijos[7].identificador(), Some(u32::MAX));
}

#[test]
fn no_offspring_without_a_male_of_the_species() {
    let mut rng = rand::thread_rng();
    let cow = prey(1, Species::Cow, Sex::Female, 400);
    let goat = prey(2, Species::Goat, Sex::Female, 400);
    let rabbit = prey(3, Species::Rabbit, Sex::Female, 400);
    let billy = prey(4, Species::Goat, Sex::Male, 400);
    let females = herd(&[cow, goat, rabbit]);
    for _ in 0..20_000 {
        assert!(cow.reproducirse(&mut rng, &females, 1_000).is_empty());
        assert!(goat.sortear_camada(&mut rng, &females).is_empty());
        assert!(Organismo::Presa(rabbit).reproducirse(&mut rng, &females, 1_000).is_empty());
    }
    let with_billy = herd(&[cow, goat, rabbit, billy]);
    for _ in 0..20_000 {
        assert!(cow.reproducirse(&mut rng, &with_billy, 1_000).is_empty());
        assert!(rabbit.reproducirse(&mut rng, &with_billy, 1_000).is_empty());
    }
    for size in 0..10 {
        assert!(cow.parir(&females, &vec![Sex::Male; size], 1_000).is_empty());
    }
}

#[test]
fn drawn_litters_follow_the_rules() {
    let mut rng = rand::thread_rng();
    for (species, lo, hi) in [(Species::Cow, 1, 1), (Species::Goat, 1, 3), (Species::Rabbit, 3, 8)]
    {
        let mother = Prey {
            prob_enfermar: 7,
            prob_muerte_enfermedad: 9,
            ..prey(1, species, Sex::Female, 181)
        };
        let male = prey(2, species, Sex::Male, 0);
        let poblacion = herd(&[mother, male]);
        let mut births = 0;
        let mut sizes = [0usize; 9];
        let mut males = 0;
        let mut females = 0;
        let trials = 200_000;
        for _ in 0..trials {
            let hijos = mother.reproducirse(&mut rng, &poblacion, 40_000);
            if hijos.is_empty() {
                continue;
            }
            births += 1;
            assert!(lo <= hijos.len() && hijos.len() <= hi, "{:?}: {}", species, hijos.len());
            sizes[hijos.len()] += 1;
            for (i, hijo) in hijos.iter().enumerate() {
                match hijo {
                    Organismo::Presa(c) => {
                        assert_eq!(c.id, 40_000 + i as u32);
                        assert_eq!(c.species, species);
                        assert_eq!(c.age_days, 0);
                        assert_eq!(c.weight_g, species.peso(0));
                        assert_eq!(c.prob_enfermar, 7);
                        assert_eq!(c.prob_muerte_enfermedad, 9);
                        assert!(!c.enfermo);
                        match c.sex {
                            Sex::Male => males += 1,
                            Sex::Female => females += 1,
                        }
                    }
                    Organismo::Depredador(_) => panic!("a predator was born"),
                }
            }
        }
        assert!(births > trials / 200 && births < trials / 50, "{:?}: {} births", species, births);
        assert!(males > 0 && females > 0);
        for size in lo..=hi {
            assert!(sizes[size] > 0, "{:?}: no litter of {}", species, size);
        }
    }
}

#[test]
fn the_draws_of_a_day_make_the_litter() {
    let mother = prey(1, Species::Rabbit, Sex::Female, 181);
    let buck = prey(2, Species::Rabbit, Sex::Male, 0);
    let poblacion = herd(&[mother, buck]);
    let coins = vec![true, false, false, true, true];
    assert_eq!(
        mother.camada_con(&poblacion, true, 5, &coins),
        vec![Sex::Male, Sex::Female, Sex::Female, Sex::Male, Sex::Male]
    );
    assert_eq!(
        mother.camada_con(&poblacion, true, 3, &coins),
        vec![Sex::Male, Sex::Female, Sex::Female]
    );
    // A missing coin is a miss.
    assert_eq!(
        mother.camada_con(&poblacion, true, 4, &vec![true]),
        vec![Sex::Male, Sex::Female, Sex::Female, Sex::Female]
    );
    // No litter where the trial fails, the size is none of the species, or
    // the individual is not fertile.
    assert!(mother.camada_con(&poblacion, false, 5, &coins).is_empty());
    assert!(mother.camada_con(&poblacion, true, 2, &coins).is_empty());
    assert!(mother.camada_con(&poblacion, true, 9, &coins).is_empty());
    assert!(mother.camada_con(&herd(&[mother]), true, 5, &coins).is_empty());
    assert!(buck.camada_con(&poblacion, true, 5, &coins).is_empty());
    let young = prey(3, Species::Rabbit, Sex::Female, 180);
    assert!(young.camada_con(&poblacion, true, 5, &coins).is_empty());

    let cow = prey(4, Species::Cow, Sex::Female, 200);
    let bull = prey(5, Species::Cow, Sex::Male, 200);
    let cattle = herd(&[cow, bull]);
    assert_eq!(cow.camada_con(&cattle, true, 1, &vec![false]), vec![Sex::Female]);
    assert_eq!(cow.camada_con(&cattle, true, 1, &vec![true, true]), vec![Sex::Male]);
    assert!(cow.camada_con(&cattle, true, 2, &vec![true, true]).is_empty());
}

#[test]
fn drawn_litters_are_of_both_sexes_and_of_every_size() {
    let mut rng = rand::thread_rng();
    let mother = prey(1, Species::Goat, Sex::Female, 181);
    let billy = prey(2, Species::Goat, Sex::Male, 0);
    let poblacion = herd(&[mother, billy]);
    let mut sizes = [0usize; 4];
    let mut males = 0;
    let mut females = 0;
    for _ in 0..200_000 {
        let sexes = Organismo::Presa(mother).sortear_camada(&mut rng, &poblacion);
        assert!(sexes.len() <= 3);
        sizes[sexes.len()] += 1;
        for sex in sexes {
            match sex {
                Sex::Male => males += 1,
                Sex::Female => females += 1,
            }
        }
        assert!(billy.sortear_camada(&mut rng, &poblacion).is_empty());
    }
    assert!(sizes[0] > 190_000);
    assert!(sizes[1] > 0 && sizes[2] > 0 && sizes[3] > 0);
    assert!(males > 0 && females > 0);
}

#[test]
fn the_chances_of_the_draws() {
    assert_eq!(prob_parto(), 10_000);
    assert_eq!(prob_parto(), BIRTH_CHANCE);
    assert_eq!(prob_macho(), 500_000);
    assert_eq!(prob_macho(), MALE_CHANCE);
    let healthy = Prey::new(1, Species::Cow, Sex::Female, 500, 50_000).unwrap();
    assert_eq!(healthy.prob_enfermedad_hoy(), 500);
    let sick = Prey { enfermo: true, ..healthy };
    assert_eq!(sick.prob_enfermedad_hoy(), 50_000);
}

#[test]
fn species_have_their_names() {
    assert_eq!(Species::Cow.nombre(), "Vaca");
    assert_eq!(Species::Goat.nombre(), "Cabra");
    assert_eq!(Species::Rabbit.nombre(), "Conejo");
}

#[test]
fn no_male_no_offspring_whatever_the_id() {
    let mut rng = rand::thread_rng();
    let billy = prey(9, Species::Goat, Sex::Male, 400);
    for sex in [Sex::Female, Sex::Male] {
        for age in [0, 180, 181, 5_000, 9_124, 9_125, 20_000] {
            let cow = prey(1, Species::Cow, sex, age);
            let poblacion = herd(&[cow, billy, prey(2, Species::Cow, Sex::Female, 400)]);
            for first_id in [0, 1_000, u32::MAX - 7, u32::MAX - 1, u32::MAX] {
                for _ in 0..200 {
                    assert!(cow.reproducirse(&mut rng, &poblacion, first_id).is_empty());
                    assert!(Organismo::Presa(cow)
                        .reproducirse(&mut rng, &poblacion, first_id)
                        .is_empty());
                }
                assert!(cow.parir(&poblacion, &vec![Sex::Male], first_id).is_empty());
            }
        }
    }
}
