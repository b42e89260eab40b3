//! What the herd is made of: every member of the population answers the same
//! questions, each kind in its own way.

pub mod predator;
pub mod prey;

use crate::chance::settle;
use crate::organism::predator::Predator;
use crate::organism::prey::{Prey, Sex, Species, MAX_LITTER};
use rand::rngs::ThreadRng;
use vstd::prelude::*;

verus! {

/// A member of the population.
#[derive(Clone, Copy, Debug, PartialEq, Eq, Structural)]
pub enum Organismo {
    /// A herbivore.
    Presa(Prey),
    /// A hunter that lives among the herd.
    Depredador(Predator),
}

impl Organismo {
    /// Prey must be well formed; a predator always is.
    pub open spec fn wf(self) -> bool {
        match self {
            Organismo::Presa(p) => p.wf(),
            Organismo::Depredador(_) => true,
        }
    }

    /// The id, which only prey has.
    pub open spec fn id(self) -> Option<u32> {
        match self {
            Organismo::Presa(p) => Some(p.id),
            Organismo::Depredador(_) => None,
        }
    }

    /// The species, which only prey has.
    pub open spec fn species(self) -> Option<Species> {
        match self {
            Organismo::Presa(p) => Some(p.species),
            Organismo::Depredador(_) => None,
        }
    }

    /// Whether it is male, which only prey can be asked.
    pub open spec fn is_male(self) -> Option<bool> {
        match self {
            Organismo::Presa(p) => Some(p.sex == Sex::Male),
            Organismo::Depredador(_) => None,
        }
    }

    /// The age in days, which only prey has.
    pub open spec fn age(self) -> Option<u32> {
        match self {
            Organismo::Presa(p) => Some(p.age_days),
            Organismo::Depredador(_) => None,
        }
    }

    /// The weight in grams; a predator in the herd weighs nothing.
    pub open spec fn weight(self) -> u64 {
        match self {
            Organismo::Presa(p) => p.weight_g,
            Organismo::Depredador(_) => 0,
        }
    }

    /// Whether it is alive: see `Prey::alive`; a predator is alive unless sick.
    pub open spec fn alive(self) -> bool {
        match self {
            Organismo::Presa(p) => p.alive(),
            Organismo::Depredador(d) => !d.enfermo,
        }
    }

    /// The display name.
    pub open spec fn name(self) -> Seq<char> {
        match self {
            Organismo::Presa(p) => p.species.name(),
            Organismo::Depredador(_) => "Depredador"@,
        }
    }

    /// The chance per day, in parts per million, of falling sick.
    pub open spec fn onset_chance(self) -> Option<u32> {
        match self {
            Organismo::Presa(p) => Some(p.prob_enfermar),
            Organismo::Depredador(_) => None,
        }
    }

    /// The chance per day, in parts per million, that a sick one dies.
    pub open spec fn death_chance(self) -> Option<u32> {
        match self {
            Organismo::Presa(p) => Some(p.prob_muerte_enfermedad),
            Organismo::Depredador(_) => None,
        }
    }

    /// The chance of today's disease trial, in parts per million.
    pub open spec fn disease_chance(self) -> Option<u32> {
        match self {
            Organismo::Presa(p) => Some(p.disease_chance()),
            Organismo::Depredador(_) => None,
        }
    }

    /// Whether it can reproduce in the given population, which only prey can.
    pub open spec fn fertile(self, poblacion: Seq<Organismo>) -> bool {
        match self {
            Organismo::Presa(p) => p.fertile(poblacion),
            Organismo::Depredador(_) => false,
        }
    }

    /// Whether this is a living male of the given species.
    pub open spec fn is_live_male_of(self, species: Species) -> bool {
        self.species() == Some(species) && self.is_male() == Some(true) && self.alive()
    }

    /// Whether the age can still be counted up.
    pub open spec fn can_age(self) -> bool {
        match self {
            Organismo::Presa(p) => p.age_days < u32::MAX,
            Organismo::Depredador(_) => true,
        }
    }

    /// The organism one day later.
    pub open spec fn aged(self) -> Organismo {
        match self {
            Organismo::Presa(p) => Organismo::Presa(p.aged()),
            Organismo::Depredador(_) => self,
        }
    }

    /// The organism after today's trial, and whether it died of it.
    pub open spec fn after_disease(self, draw: bool) -> (Organismo, bool) {
        match self {
            Organismo::Presa(p) => (Organismo::Presa(p.after_disease(draw).0), p.after_disease(draw).1),
            Organismo::Depredador(_) => (self, false),
        }
    }

    /// The litter that this organism has in the given population when the
    /// draws come out as `sexes`. A predator has none.
    pub open spec fn litter(self, poblacion: Seq<Organismo>, sexes: Seq<Sex>, first_id: u32) -> Seq<
        Organismo,
    > {
        match self {
            Organismo::Presa(p) => p.litter(poblacion, sexes, first_id),
            Organismo::Depredador(_) => Seq::empty(),
        }
    }

    /// One day passes. Only prey grows older.
    pub fn envejecer(&mut self)
        requires
            old(self).can_age(),
        ensures
            *final(self) == old(self).aged(),
            old(self).wf() ==> final(self).wf(),
    {
        match self {
            Organismo::Presa(p) => p.envejecer(),
            Organismo::Depredador(d) => d.envejecer(),
        }
    }

    /// The litter with the draws already made.
    pub fn parir(&self, poblacion: &Vec<Organismo>, sexes: &Vec<Sex>, first_id: u32) -> (hijos: Vec<
        Organismo,
    >)
        requires
            self.wf(),
            self.fertile(poblacion@) ==> first_id + MAX_LITTER <= u32::MAX + 1,
        ensures
            hijos@ == self.litter(poblacion@, sexes@, first_id),
            forall|i: int| 0 <= i < hijos@.len() ==> (#[trigger] hijos@[i]).wf(),
    {
        match self {
            Organismo::Presa(p) => p.parir(poblacion, sexes, first_id),
            Organismo::Depredador(_) => Vec::new(),
        }
    }

    /// Today's litter, drawn from the random source.
    pub fn reproducirse(
        &self,
        rng: &mut ThreadRng,
        poblacion: &Vec<Organismo>,
        first_id: u32,
    ) -> (hijos: Vec<Organismo>)
        requires
            self.wf(),
            self.fertile(poblacion@) ==> first_id + MAX_LITTER <= u32::MAX + 1,
        ensures
            exists|sexes: Seq<Sex>| hijos@ == self.litter(poblacion@, sexes, first_id),
            !self.fertile(poblacion@) ==> hijos@.len() == 0,
            forall|i: int| 0 <= i < hijos@.len() ==> (#[trigger] hijos@[i]).wf(),
    {
        match self {
            Organismo::Presa(p) => {
                let hijos = p.reproducirse(rng, poblacion, first_id);
                proof {
                    let sexes = choose|sexes: Seq<Sex>|
                        hijos@ == p.litter(poblacion@, sexes, first_id);
                    assert(hijos@ == self.litter(poblacion@, sexes, first_id));
                }
                hijos
            },
            Organismo::Depredador(d) => {
                let hijos = d.reproducirse(rng, poblacion);
                assert(hijos@ =~= self.litter(poblacion@, Seq::<Sex>::empty(), first_id));
                hijos
            },
        }
    }

    /// The id, which only prey has.
    pub fn identificador(&self) -> (id: Option<u32>)
        ensures
            id == self.id(),
    {
        match self {
            Organismo::Presa(p) => Some(p.id),
            Organismo::Depredador(_) => None,
        }
    }

    /// The weight in grams.
    pub fn peso(&self) -> (w: u64)
        ensures
            w == self.weight(),
    {
        match self {
            Organismo::Presa(p) => p.peso(),
            Organismo::Depredador(d) => d.peso(),
        }
    }

    /// Whether it is alive.
    pub fn esta_vivo(&self) -> (alive: bool)
        ensures
            alive == self.alive(),
    {
        match self {
            Organismo::Presa(p) => p.esta_vivo(),
            Organismo::Depredador(d) => d.esta_vivo(),
        }
    }

    /// The display name.
    pub fn nombre(&self) -> (name: &'static str)
        ensures
            name@ == self.name(),
    {
        match self {
            Organismo::Presa(p) => p.nombre(),
            Organismo::Depredador(d) => d.nombre(),
        }
    }

    /// The species, which only prey has.
    pub fn especie(&self) -> (species: Option<Species>)
        ensures
            species == self.species(),
    {
        match self {
            Organismo::Presa(p) => p.especie(),
            Organismo::Depredador(d) => d.especie(),
        }
    }

    /// Whether it is male, which only prey can be asked.
    pub fn es_macho(&self) -> (male: Option<bool>)
        ensures
            male == self.is_male(),
    {
        match self {
            Organismo::Presa(p) => p.es_macho(),
            Organismo::Depredador(d) => d.es_macho(),
        }
    }

    /// The chance per day, in parts per million, of falling sick.
    pub fn prob_enfermar(&self) -> (p: Option<u32>)
        ensures
            p == self.onset_chance(),
    {
        match self {
            Organismo::Presa(p) => p.prob_enfermar(),
            Organismo::Depredador(d) => d.prob_enfermar(),
        }
    }

    /// The chance per day, in parts per million, that a sick one dies.
    pub fn prob_muerte_enfermedad(&self) -> (p: Option<u32>)
        ensures
            p == self.death_chance(),
    {
        match self {
            Organismo::Presa(p) => p.prob_muerte_enfermedad(),
            Organismo::Depredador(d) => d.prob_muerte_enfermedad(),
        }
    }

    /// The age in days, which only prey has.
    pub fn edad(&self) -> (age: Option<u32>)
        ensures
            age == self.age(),
    {
        match self {
            Organismo::Presa(p) => p.edad(),
            Organismo::Depredador(d) => d.edad(),
        }
    }

    /// Draws today's litter: the sexes of the newborns.
    pub fn sortear_camada(&self, rng: &mut ThreadRng, poblacion: &Vec<Organismo>) -> (sexes: Vec<
        Sex,
    >)
        ensures
            exists|hit: bool, size: u32, coins: Seq<bool>|
                sexes@ == #[trigger] self.drawn_litter(poblacion@, hit, size, coins),
            sexes@.len() == 0 || self.litter(poblacion@, sexes@, 0).len() == sexes@.len(),
    {
        match self {
            Organismo::Presa(p) => {
                let sexes = p.sortear_camada(rng, poblacion);
                proof {
                    let (hit, size, coins) = choose|hit: bool, size: u32, coins: Seq<bool>|
                        sexes@ == #[trigger] p.drawn_litter(poblacion@, hit, size, coins);
                    assert(sexes@ == self.drawn_litter(poblacion@, hit, size, coins));
                }
                sexes
            },
            Organismo::Depredador(_) => {
                let sexes: Vec<Sex> = Vec::new();
                assert(sexes@ == self.drawn_litter(poblacion@, false, 0, Seq::empty()));
                sexes
            },
        }
    }

    /// What the draws of a day make of the litter: see `Prey::drawn_litter`.
    /// A predator has none.
    pub open spec fn drawn_litter(
        self,
        poblacion: Seq<Organismo>,
        hit: bool,
        size: u32,
        coins: Seq<bool>,
    ) -> Seq<Sex> {
        match self {
            Organismo::Presa(p) => p.drawn_litter(poblacion, hit, size, coins),
            Organismo::Depredador(_) => Seq::empty(),
        }
    }

    /// Draws today's disease trial.
    pub fn sortear_enfermedad(&self, rng: &mut ThreadRng) -> (draw: bool)
        requires
            self.wf(),
        ensures
            match self.disease_chance() {
                Some(chance) => settle(chance, draw) == draw,
                None => !draw,
            },
    {
        match self {
            Organismo::Presa(p) => p.sortear_enfermedad(rng),
            Organismo::Depredador(_) => false,
        }
    }

    /// Today's trial with the draw already made.
    pub fn resolver_enfermedad(&mut self, draw: bool) -> (died: bool)
        ensures
            (*final(self), died) == old(self).after_disease(draw),
            old(self).wf() ==> final(self).wf(),
    {
        match self {
            Organismo::Presa(p) => p.resolver_enfermedad(draw),
            Organismo::Depredador(_) => false,
        }
    }

    /// Today's trial, drawn from the random source.
    pub fn tratar_enfermedad(&mut self, rng: &mut ThreadRng) -> (died: bool)
        requires
            old(self).wf(),
        ensures
            exists|draw: bool| (*final(self), died) == old(self).after_disease(draw),
            final(self).wf(),
    {
        match self {
            Organismo::Presa(p) => {
                let ghost before = *p;
                let died = p.tratar_enfermedad(rng);
                proof {
                    let draw = choose|draw: bool| (*p, died) == before.after_disease(draw);
                    assert((Organismo::Presa(*p), died) == Organismo::Presa(before).after_disease(
                        draw,
                    ));
                }
                died
            },
            Organismo::Depredador(d) => {
                let died = d.tratar_enfermedad(rng);
                assert((Organismo::Depredador(*d), died) == Organismo::Depredador(
                    *d,
                ).after_disease(false));
                died
            },
        }
    }
}

} // verus!
