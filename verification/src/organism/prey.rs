//! The herbivores: their growth, ageing, disease and reproduction.

use crate::chance::{gen_range_inclusive, probabilidad, valid_probability, settle, MILLION};
use crate::error::ConfigError;
use crate::growth::{crecimiento_gompertz, lemma_growth_monotone, lemma_weight_at_birth, Gompertz};
use crate::organism::Organismo;
use rand::rngs::ThreadRng;
use vstd::prelude::*;

verus! {

/// The age in days above which a female may reproduce.
pub const FERTILE_AGE: u32 = 180;

/// The chance, in parts per million, that a fertile female reproduces on a
/// given day.
pub const BIRTH_CHANCE: u32 = 10_000;

/// The chance, in parts per million, that a newborn is male.
pub const MALE_CHANCE: u32 = 500_000;

/// The largest litter of any species.
pub const MAX_LITTER: u32 = 8;

/// The largest weight in grams that any prey can reach.
pub const MAX_WEIGHT: u64 = 700_000;

/// The three kinds of prey.
#[derive(Clone, Copy, Debug, PartialEq, Eq, Structural)]
pub enum Species {
    Cow,
    Goat,
    Rabbit,
}

/// The sex of a prey.
#[derive(Clone, Copy, Debug, PartialEq, Eq, Structural)]
pub enum Sex {
    Male,
    Female,
}

impl Species {
    /// The growth curve of the species.
    pub open spec fn curve(self) -> Gompertz {
        match self {
            Species::Cow => Gompertz { a: 700_000, b: 3_000_000, k: 8_000 },
            Species::Goat => Gompertz { a: 75_000, b: 2_800_000, k: 10_000 },
            Species::Rabbit => Gompertz { a: 5_000, b: 2_500_000, k: 50_000 },
        }
    }

    /// The age in days at which a healthy individual dies.
    pub open spec fn max_age(self) -> nat {
        match self {
            Species::Cow => 9125,
            Species::Goat => 5475,
            Species::Rabbit => 2920,
        }
    }

    /// The smallest and the largest litter.
    pub open spec fn litter_range(self) -> (u32, u32) {
        match self {
            Species::Cow => (1, 1),
            Species::Goat => (1, 3),
            Species::Rabbit => (3, 8),
        }
    }

    /// The display name.
    pub open spec fn name(self) -> Seq<char> {
        match self {
            Species::Cow => "Vaca"@,
            Species::Goat => "Cabra"@,
            Species::Rabbit => "Conejo"@,
        }
    }

    /// The weight in grams of an individual of the given age in days.
    pub open spec fn weight_at(self, age: nat) -> int {
        self.curve().weight_at(age)
    }

    /// The growth curve of the species.
    pub fn curva(self) -> (curve: Gompertz)
        ensures
            curve == self.curve(),
    {
        match self {
            Species::Cow => crecimiento_gompertz(700_000, 3_000_000, 8_000),
            Species::Goat => crecimiento_gompertz(75_000, 2_800_000, 10_000),
            Species::Rabbit => crecimiento_gompertz(5_000, 2_500_000, 50_000),
        }
    }

    /// The weight in grams of an individual of the given age in days.
    pub fn peso(self, edad: u32) -> (w: u64)
        ensures
            w == self.weight_at(edad as nat),
            w <= MAX_WEIGHT,
    {
        self.curva().peso(edad)
    }

    /// The age in days at which a healthy individual dies.
    pub fn edad_maxima(self) -> (age: u32)
        ensures
            age == self.max_age(),
    {
        match self {
            Species::Cow => 25 * 365,
            Species::Goat => 15 * 365,
            Species::Rabbit => 8 * 365,
        }
    }

    /// The display name.
    pub fn nombre(self) -> (name: &'static str)
        ensures
            name@ == self.name(),
    {
        match self {
            Species::Cow => "Vaca",
            Species::Goat => "Cabra",
            Species::Rabbit => "Conejo",
        }
    }

    /// The smallest and the largest litter.
    pub fn camada(self) -> (range: (u32, u32))
        ensures
            range == self.litter_range(),
            1 <= range.0 <= range.1 <= MAX_LITTER,
    {
        match self {
            Species::Cow => (1, 1),
            Species::Goat => (1, 3),
            Species::Rabbit => (3, 8),
        }
    }
}

/// A herbivore. Its weight is never set by hand: it follows from species and
/// age.
#[derive(Clone, Copy, Debug, PartialEq, Eq, Structural)]
pub struct Prey {
    pub id: u32,
    pub species: Species,
    pub sex: Sex,
    pub age_days: u32,
    pub weight_g: u64,
    /// The chance per day, in parts per million, that a healthy individual
    /// falls sick.
    pub prob_enfermar: u32,
    /// The chance per day, in parts per million, that a sick individual dies.
    pub prob_muerte_enfermedad: u32,
    pub enfermo: bool,
}

impl Prey {
    /// The probabilities are probabilities and the weight is that of the
    /// growth curve.
    pub open spec fn wf(self) -> bool {
        &&& valid_probability(self.prob_enfermar)
        &&& valid_probability(self.prob_muerte_enfermedad)
        &&& self.weight_g == self.species.weight_at(self.age_days as nat)
    }

    /// A healthy individual of age zero.
    pub open spec fn newborn(
        id: u32,
        species: Species,
        sex: Sex,
        prob_enfermar: u32,
        prob_muerte_enfermedad: u32,
    ) -> Prey {
        Prey {
            id,
            species,
            sex,
            age_days: 0,
            weight_g: species.weight_at(0) as u64,
            prob_enfermar,
            prob_muerte_enfermedad,
            enfermo: false,
        }
    }

    /// The individual one day later.
    pub open spec fn aged(self) -> Prey {
        Prey {
            age_days: (self.age_days + 1) as u32,
            weight_g: self.species.weight_at((self.age_days + 1) as nat) as u64,
            ..self
        }
    }

    /// A sick individual lives on, whatever its age; a healthy one lives up to
    /// the maximal age of its species.
    pub open spec fn alive(self) -> bool {
        self.enfermo || self.age_days < self.species.max_age()
    }

    /// The chance of today's trial: of death for the sick, of falling sick for
    /// the healthy.
    pub open spec fn disease_chance(self) -> u32 {
        if self.enfermo {
            self.prob_muerte_enfermedad
        } else {
            self.prob_enfermar
        }
    }

    /// The individual after today's trial, and whether it died of it.
    pub open spec fn after_disease(self, draw: bool) -> (Prey, bool) {
        let hit = settle(self.disease_chance(), draw);
        if self.enfermo {
            (self, hit)
        } else {
            (Prey { enfermo: hit, ..self }, false)
        }
    }

    /// Whether the population holds a male of this individual's species,
    /// living or not.
    pub open spec fn has_male(self, poblacion: Seq<Organismo>) -> bool {
        exists|i: int|
            0 <= i < poblacion.len() && (#[trigger] poblacion[i]).species() == Some(self.species)
                && poblacion[i].is_male() == Some(true)
    }

    /// Whether the population holds a living male of this individual's
    /// species.
    pub open spec fn has_mate(self, poblacion: Seq<Organismo>) -> bool {
        exists|i: int|
            0 <= i < poblacion.len() && #[trigger] poblacion[i].is_live_male_of(self.species)
    }

    /// Only a female past the fertile age with a mate in the population can
    /// reproduce.
    pub open spec fn fertile(self, poblacion: Seq<Organismo>) -> bool {
        self.sex == Sex::Female && self.age_days > FERTILE_AGE && self.has_mate(poblacion)
    }

    /// Whether the species has litters of this size.
    pub open spec fn litter_allowed(self, size: nat) -> bool {
        self.species.litter_range().0 <= size <= self.species.litter_range().1
    }

    /// A newborn of this mother: of her species and with her disease
    /// probabilities.
    pub open spec fn child(self, id: u32, sex: Sex) -> Prey {
        Prey::newborn(id, self.species, sex, self.prob_enfermar, self.prob_muerte_enfermedad)
    }

    /// The litter that this individual has in the given population when the
    /// draws come out as `sexes`, one for each newborn; ids are handed out
    /// in order from `first_id`. A litter that the rules do not allow is not
    /// born.
    pub open spec fn litter(self, poblacion: Seq<Organismo>, sexes: Seq<Sex>, first_id: u32) -> Seq<
        Organismo,
    > {
        if self.fertile(poblacion) && self.litter_allowed(sexes.len()) {
            Seq::new(
                sexes.len(),
                |i: int| Organismo::Presa(self.child((first_id + i) as u32, sexes[i])),
            )
        } else {
            Seq::empty()
        }
    }

    /// A healthy newborn, or the reason why there is none.
    pub fn new(
        id: u32,
        species: Species,
        sex: Sex,
        prob_enfermar: u32,
        prob_muerte_enfermedad: u32,
    ) -> (made: Result<Prey, ConfigError>)
        ensures
            valid_probability(prob_enfermar) && valid_probability(prob_muerte_enfermedad) ==> made
                == Ok::<Prey, ConfigError>(
                Prey::newborn(id, species, sex, prob_enfermar, prob_muerte_enfermedad),
            ),
            !(valid_probability(prob_enfermar) && valid_probability(prob_muerte_enfermedad))
                ==> made == Err::<Prey, ConfigError>(ConfigError::ProbabilityOutOfRange),
            made is Ok ==> made.unwrap().wf() && made.unwrap().weight_g
                == species.curve().birth_weight(),
    {
        if prob_enfermar > MILLION || prob_muerte_enfermedad > MILLION {
            return Err(ConfigError::ProbabilityOutOfRange);
        }
        proof {
            lemma_weight_at_birth(species.curve());
        }
        Ok(
            Prey {
                id,
                species,
                sex,
                age_days: 0,
                weight_g: species.peso(0),
                prob_enfermar,
                prob_muerte_enfermedad,
                enfermo: false,
            },
        )
    }

    /// Whether the fields agree with each other.
    pub fn is_valid(&self) -> (ok: bool)
        ensures
            ok == self.wf(),
    {
        self.prob_enfermar <= MILLION && self.prob_muerte_enfermedad <= MILLION && self.weight_g
            == self.species.peso(self.age_days)
    }

    /// One day passes: the individual is a day older and as heavy as its new
    /// age makes it.
    pub fn envejecer(&mut self)
        requires
            old(self).age_days < u32::MAX,
        ensures
            *final(self) == old(self).aged(),
            old(self).wf() ==> final(self).wf() && old(self).weight_g <= final(self).weight_g,
    {
        proof {
            lemma_growth_monotone(
                self.species.curve(),
                self.age_days as nat,
                (self.age_days + 1) as nat,
            );
        }
        self.age_days += 1;
        self.weight_g = self.species.peso(self.age_days);
    }

    /// The weight in grams.
    pub fn peso(&self) -> (w: u64)
        ensures
            w == self.weight_g,
    {
        self.weight_g
    }

    /// A sick individual counts as alive whatever its age; a healthy one up to
    /// the day before it reaches the maximal age of its species.
    pub fn esta_vivo(&self) -> (alive: bool)
        ensures
            alive == self.alive(),
            !self.enfermo && self.age_days >= self.species.max_age() ==> !alive,
            self.age_days < self.species.max_age() ==> alive,
    {
        let vivo_por_edad = self.age_days < self.species.edad_maxima();
        if self.enfermo {
            true
        } else {
            vivo_por_edad
        }
    }

    /// The display name of the species.
    pub fn nombre(&self) -> (name: &'static str)
        ensures
            name@ == self.species.name(),
    {
        self.species.nombre()
    }

    /// The species.
    pub fn especie(&self) -> (species: Option<Species>)
        ensures
            species == Some(self.species),
    {
        Some(self.species)
    }

    /// Whether it is male.
    pub fn es_macho(&self) -> (male: Option<bool>)
        ensures
            male == Some(self.sex == Sex::Male),
    {
        Some(self.sex == Sex::Male)
    }

    /// The chance per day, in parts per million, of falling sick.
    pub fn prob_enfermar(&self) -> (p: Option<u32>)
        ensures
            p == Some(self.prob_enfermar),
    {
        Some(self.prob_enfermar)
    }

    /// The chance per day, in parts per million, that a sick individual dies.
    pub fn prob_muerte_enfermedad(&self) -> (p: Option<u32>)
        ensures
            p == Some(self.prob_muerte_enfermedad),
    {
        Some(self.prob_muerte_enfermedad)
    }

    /// The age in days.
    pub fn edad(&self) -> (age: Option<u32>)
        ensures
            age == Some(self.age_days),
    {
        Some(self.age_days)
    }

    /// Whether the population holds a living male of this individual's
    /// species.
    pub fn tiene_pareja(&self, poblacion: &Vec<Organismo>) -> (found: bool)
        ensures
            found == self.has_mate(poblacion@),
    {
        let mut i: usize = 0;
        while i < poblacion.len()
            invariant
                i <= poblacion.len(),
                forall|j: int| 0 <= j < i ==> !(#[trigger] poblacion@[j]).is_live_male_of(self.species),
            decreases poblacion.len() - i,
        {
            let ind = &poblacion[i];
            let es_pareja = match (ind.especie(), ind.es_macho()) {
                (Some(especie_i), Some(es_macho_i)) => especie_i == self.species && es_macho_i
                    && ind.esta_vivo(),
                _ => false,
            };
            if es_pareja {
                assert(poblacion@[i as int].is_live_male_of(self.species));
                return true;
            }
            i += 1;
        }
        false
    }

    /// Whether this individual can reproduce in the given population.
    pub fn es_fertil(&self, poblacion: &Vec<Organismo>) -> (fertile: bool)
        ensures
            fertile == self.fertile(poblacion@),
    {
        self.sex == Sex::Female && self.age_days > FERTILE_AGE && self.tiene_pareja(poblacion)
    }

    /// A newborn of this mother.
    fn cria(&self, id: u32, sex: Sex) -> (child: Prey)
        requires
            self.wf(),
        ensures
            child == self.child(id, sex),
            child.wf(),
    {
        Prey {
            id,
            species: self.species,
            sex,
            age_days: 0,
            weight_g: self.species.peso(0),
            prob_enfermar: self.prob_enfermar,
            prob_muerte_enfermedad: self.prob_muerte_enfermedad,
            enfermo: false,
        }
    }

    /// The litter with the draws already made: one newborn for each entry of
    /// `sexes`, where the rules allow a litter of that size, and none
    /// otherwise. Only a fertile individual needs room for the ids of a
    /// litter.
    pub fn parir(&self, poblacion: &Vec<Organismo>, sexes: &Vec<Sex>, first_id: u32) -> (hijos: Vec<
        Organismo,
    >)
        requires
            self.wf(),
            self.fertile(poblacion@) ==> first_id + MAX_LITTER <= u32::MAX + 1,
        ensures
            hijos@ == self.litter(poblacion@, sexes@, first_id),
            forall|i: int| 0 <= i < hijos@.len() ==> (#[trigger] hijos@[i]).wf(),
    {
        let mut hijos: Vec<Organismo> = Vec::new();
        let (lo, hi) = self.species.camada();
        if !self.es_fertil(poblacion) || sexes.len() < lo as usize || sexes.len() > hi as usize {
            assert(hijos@ =~= self.litter(poblacion@, sexes@, first_id));
            return hijos;
        }
        let mut i: usize = 0;
        while i < sexes.len()
            invariant
                i <= sexes.len() <= MAX_LITTER,
                first_id + MAX_LITTER <= u32::MAX + 1,
                self.wf(),
                hijos@.len() == i,
                forall|j: int|
                    0 <= j < i ==> #[trigger] hijos@[j] == Organismo::Presa(
                        self.child((first_id + j) as u32, sexes@[j]),
                    ),
                forall|j: int| 0 <= j < i ==> (#[trigger] hijos@[j]).wf(),
            decreases sexes.len() - i,
        {
            let id: u32 = first_id + i as u32;
            hijos.push(Organismo::Presa(self.cria(id, sexes[i])));
            i += 1;
        }
        assert(hijos@ =~= self.litter(poblacion@, sexes@, first_id));
        hijos
    }

    /// Draws today's litter: the sexes of the newborns, none where the
    /// individual is not fertile or the day's trial fails. The trial is drawn
    /// at `prob_parto`, the size from the range of `Species::camada`, and the
    /// coin of each newborn at `prob_macho`.
    pub fn sortear_camada(&self, rng: &mut ThreadRng, poblacion: &Vec<Organismo>) -> (sexes: Vec<
        Sex,
    >)
        ensures
            exists|hit: bool, size: u32, coins: Seq<bool>|
                sexes@ == #[trigger] self.drawn_litter(poblacion@, hit, size, coins),
            !self.fertile(poblacion@) ==> sexes@.len() == 0,
            sexes@.len() == 0 || (self.fertile(poblacion@) && self.litter_allowed(sexes@.len())),
    {
        let mut coins: Vec<bool> = Vec::new();
        let mut num_offspring: u32 = 0;
        if !self.tiene_pareja(poblacion) {
            return self.camada_con(poblacion, false, num_offspring, &coins);
        }
        let hit = self.sex == Sex::Female && self.age_days > FERTILE_AGE && probabilidad(
            prob_parto(),
            rng,
        );
        if hit {
            let (lo, hi) = self.species.camada();
            num_offspring = if lo == hi {
                lo
            } else {
                gen_range_inclusive(rng, lo, hi)
            };
            let mut i: u32 = 0;
            while i < num_offspring
                invariant
                    i <= num_offspring,
                    coins@.len() == i,
                decreases num_offspring - i,
            {
                coins.push(probabilidad(prob_macho(), rng));
                i += 1;
            }
        }
        self.camada_con(poblacion, hit, num_offspring, &coins)
    }

    /// What the draws of a day make of the litter: where the individual is
    /// fertile, the day's trial is a hit and the species has litters of the
    /// size drawn, one newborn for each of `size`, male where its coin is a
    /// hit; no newborn otherwise. A missing coin is a miss.
    pub open spec fn drawn_litter(
        self,
        poblacion: Seq<Organismo>,
        hit: bool,
        size: u32,
        coins: Seq<bool>,
    ) -> Seq<Sex> {
        if self.fertile(poblacion) && hit && self.litter_allowed(size as nat) {
            Seq::new(size as nat, |i: int| sex_of(coin_at(coins, i)))
        } else {
            Seq::empty()
        }
    }

    /// Today's litter with the draws already made: the trial of the day, the
    /// size of the litter and one coin for each newborn.
    pub fn camada_con(
        &self,
        poblacion: &Vec<Organismo>,
        hit: bool,
        size: u32,
        coins: &Vec<bool>,
    ) -> (sexes: Vec<Sex>)
        ensures
            sexes@ == self.drawn_litter(poblacion@, hit, size, coins@),
    {
        let mut sexes: Vec<Sex> = Vec::new();
        let (lo, hi) = self.species.camada();
        if !hit || size < lo || size > hi || !self.es_fertil(poblacion) {
            assert(sexes@ =~= self.drawn_litter(poblacion@, hit, size, coins@));
            return sexes;
        }
        let mut i: u32 = 0;
        while i < size
            invariant
                i <= size,
                sexes@.len() == i,
                forall|j: int| 0 <= j < i ==> #[trigger] sexes@[j] == sex_of(coin_at(coins@, j)),
            decreases size - i,
        {
            let male = (i as usize) < coins.len() && coins[i as usize];
            let sex = if male {
                Sex::Male
            } else {
                Sex::Female
            };
            sexes.push(sex);
            i += 1;
        }
        assert(sexes@ =~= self.drawn_litter(poblacion@, hit, size, coins@));
        sexes
    }

    /// Today's litter, drawn from the random source. Ids are handed out in
    /// order from `first_id`.
    pub fn reproducirse(
        &self,
        rng: &mut ThreadRng,
        poblacion: &Vec<Organismo>,
        first_id: u32,
    ) -> (hijos: Vec<Organismo>)
        requires
            self.wf(),
            self.fertile(poblacion@) ==> first_id + MAX_LITTER <= u32::MAX + 1,
        ensures
            exists|sexes: Seq<Sex>| hijos@ == self.litter(poblacion@, sexes, first_id),
            !self.fertile(poblacion@) ==> hijos@.len() == 0,
            !self.has_male(poblacion@) ==> hijos@.len() == 0,
            hijos@.len() == 0 || self.litter_allowed(hijos@.len()),
            forall|i: int|
                0 <= i < hijos@.len() ==> (#[trigger] hijos@[i]).wf() && exists|sex: Sex|
                    hijos@[i] == Organismo::Presa(#[trigger] self.child((first_id + i) as u32, sex)),
    {
        proof {
            lemma_mate_is_male(*self, poblacion@);
        }
        let sexes = self.sortear_camada(rng, poblacion);
        let hijos = self.parir(poblacion, &sexes, first_id);
        assert forall|i: int| 0 <= i < hijos@.len() implies exists|sex: Sex|
            (#[trigger] hijos@[i]) == Organismo::Presa(
                #[trigger] self.child((first_id + i) as u32, sex),
            ) by {
            assert(hijos@[i] == Organismo::Presa(self.child((first_id + i) as u32, sexes@[i])));
        }
        hijos
    }

    /// The chance of today's disease trial, in parts per million: the
    /// individual's own chance of death if it is sick, its own chance of
    /// falling sick if it is healthy.
    pub fn prob_enfermedad_hoy(&self) -> (chance: u32)
        ensures
            chance == self.disease_chance(),
    {
        if self.enfermo {
            self.prob_muerte_enfermedad
        } else {
            self.prob_enfermar
        }
    }

    /// Today's trial with the draw already made: a sick individual dies of a
    /// hit, a healthy one falls sick of it.
    pub fn resolver_enfermedad(&mut self, draw: bool) -> (died: bool)
        ensures
            (*final(self), died) == old(self).after_disease(draw),
            old(self).wf() ==> final(self).wf(),
    {
        let chance: u32 = self.prob_enfermedad_hoy();
        let hit = if chance == 0 {
            false
        } else if chance >= MILLION {
            true
        } else {
            draw
        };
        if self.enfermo {
            hit
        } else {
            if hit {
                self.enfermo = true;
            }
            false
        }
    }

    /// Draws today's trial from the random source, at the chance that
    /// `prob_enfermedad_hoy` gives. Where the chance is zero or one the draw
    /// is the certain outcome.
    pub fn sortear_enfermedad(&self, rng: &mut ThreadRng) -> (draw: bool)
        requires
            self.wf(),
        ensures
            settle(self.disease_chance(), draw) == draw,
    {
        probabilidad(self.prob_enfermedad_hoy(), rng)
    }

    /// Today's trial, drawn from the random source.
    pub fn tratar_enfermedad(&mut self, rng: &mut ThreadRng) -> (died: bool)
        requires
            old(self).wf(),
        ensures
            exists|draw: bool| (*final(self), died) == old(self).after_disease(draw),
            final(self).wf(),
    {
        let draw = self.sortear_enfermedad(rng);
        let ghost before = *self;
        let died = self.resolver_enfermedad(draw);
        assert((*self, died) == before.after_disease(draw));
        died
    }
}

/// The chance, in parts per million, that a fertile female reproduces on a
/// given day: one in a hundred.
pub fn prob_parto() -> (chance: u32)
    ensures
        chance == BIRTH_CHANCE,
        chance == 10_000,
{
    BIRTH_CHANCE
}

/// The chance, in parts per million, that a newborn is male: one in two.
pub fn prob_macho() -> (chance: u32)
    ensures
        chance == MALE_CHANCE,
        chance == 500_000,
{
    MALE_CHANCE
}

/// The sex that a coin decides: male on a hit.
pub open spec fn sex_of(male: bool) -> Sex {
    if male {
        Sex::Male
    } else {
        Sex::Female
    }
}

/// The coin of the newborn at position `i`: a miss where none is given.
pub open spec fn coin_at(coins: Seq<bool>, i: int) -> bool {
    0 <= i < coins.len() && coins[i]
}

/// No individual of any species ever loses weight with age, and none
/// outgrows the heaviest prey.
pub proof fn lemma_species_growth_monotone(species: Species, younger: nat, older: nat)
    requires
        younger <= older,
    ensures
        0 <= species.weight_at(younger) <= species.weight_at(older) <= MAX_WEIGHT,
{
    lemma_growth_monotone(species.curve(), younger, older);
}

/// A mate is a male of the species: where the population holds no such
/// male, no individual is fertile in it.
pub proof fn lemma_mate_is_male(individual: Prey, poblacion: Seq<Organismo>)
    ensures
        individual.has_mate(poblacion) ==> individual.has_male(poblacion),
        !individual.has_male(poblacion) ==> !individual.fertile(poblacion),
{
    if individual.has_mate(poblacion) {
        let i = choose|i: int|
            0 <= i < poblacion.len() && #[trigger] poblacion[i].is_live_male_of(
                individual.species,
            );
        assert(poblacion[i].species() == Some(individual.species));
    }
}

/// Without a male of her species in the population a female has no
/// offspring, whatever her age and whatever the draws.
pub proof fn lemma_no_male_no_offspring(
    mother: Prey,
    poblacion: Seq<Organismo>,
    sexes: Seq<Sex>,
    first_id: u32,
)
    requires
        forall|i: int|
            0 <= i < poblacion.len() ==> !((#[trigger] poblacion[i]).species() == Some(
                mother.species,
            ) && poblacion[i].is_male() == Some(true)),
    ensures
        mother.litter(poblacion, sexes, first_id).len() == 0,
{
}

} // verus!
