//! The predator: what it needs each day, what it eats, and what it keeps in
//! reserve.
//!
//! Weights are whole grams. Two candidates are tied for the heaviest when
//! they weigh the same number of grams: prey of one species whose weights
//! differ by less than a gram, as they do near the end of their growth, are
//! tied.

use crate::chance::choose_one;
use crate::organism::prey::Species;
use crate::organism::Organismo;
use rand::rngs::ThreadRng;
use vstd::arithmetic::div_mod::lemma_small_mod;
use vstd::prelude::*;

verus! {

/// The single hunter of the herd. All amounts are grams.
#[derive(Clone, Copy, Debug, PartialEq, Eq, Structural)]
pub struct Predator {
    /// What it must take in each day.
    pub min_reserve: u64,
    /// What it eats in a day when it can.
    pub opt_reserve: u64,
    /// What it has put aside.
    pub current_reserve: u64,
    /// The age in days from which prey may be hunted.
    pub sacrifice_age_days: u32,
    /// Set on the day on which neither the hunt nor the reserve covers the
    /// minimum.
    pub enfermo: bool,
    /// What it has eaten today.
    pub consumido_hoy: u64,
}

/// How a day ended for the predator.
#[derive(Clone, Copy, Debug, PartialEq, Eq, Structural)]
pub enum SolvencyOutcome {
    /// The hunt covered the minimum.
    Fed,
    /// The reserve made up for what the hunt left open.
    DrewReserve { shortfall: u64 },
    /// Hunt and reserve together fell short of the minimum.
    Starved,
}

/// What came of a hunt.
#[derive(Clone, Copy, Debug, PartialEq, Eq, Structural)]
pub enum HuntOutcome {
    /// The optimum was already reached: no hunt.
    Sated,
    /// No prey was old enough.
    NoCandidates,
    /// The prey was eaten whole.
    Whole { weight: u64 },
    /// The prey was more than the predator still wanted: the rest went to the
    /// reserve.
    Partial { weight: u64, eaten: u64, banked: u64 },
}

impl Predator {
    /// Whether the optimum of the day is still to be reached.
    pub open spec fn hungry(self) -> bool {
        self.consumido_hoy < self.opt_reserve
    }

    /// Prey may be hunted once it has reached the sacrifice age.
    pub open spec fn is_candidate(self, o: Organismo) -> bool {
        o.species() is Some && o.age() is Some && o.age().unwrap() >= self.sacrifice_age_days
    }

    /// Whether any organism of the population may be hunted.
    pub open spec fn has_candidate(self, poblacion: Seq<Organismo>) -> bool {
        exists|i: int| 0 <= i < poblacion.len() && self.is_candidate(#[trigger] poblacion[i])
    }

    /// Whether position `i` holds a candidate that no other candidate
    /// outweighs, by the gram.
    pub open spec fn is_heaviest(self, poblacion: Seq<Organismo>, i: int) -> bool {
        &&& 0 <= i < poblacion.len()
        &&& self.is_candidate(poblacion[i])
        &&& forall|j: int|
            0 <= j < poblacion.len() && self.is_candidate(#[trigger] poblacion[j])
                ==> poblacion[j].weight() <= poblacion[i].weight()
    }

    /// The positions below `n` of the heaviest candidates, in rising order.
    pub open spec fn heaviest_upto(self, poblacion: Seq<Organismo>, n: nat) -> Seq<int>
        decreases n,
    {
        if n == 0 {
            Seq::empty()
        } else if self.is_heaviest(poblacion, n - 1) {
            self.heaviest_upto(poblacion, (n - 1) as nat).push(n - 1)
        } else {
            self.heaviest_upto(poblacion, (n - 1) as nat)
        }
    }

    /// The positions of the heaviest candidates, in rising order.
    pub open spec fn heaviest(self, poblacion: Seq<Organismo>) -> Seq<int> {
        self.heaviest_upto(poblacion, poblacion.len())
    }

    /// The position of the prey that is hunted when the draw among the
    /// heaviest candidates comes out as `pick`, if any is hunted.
    pub open spec fn victim(self, poblacion: Seq<Organismo>, pick: nat) -> Option<int> {
        let ties = self.heaviest(poblacion);
        if self.hungry() && ties.len() > 0 {
            Some(ties[(pick % ties.len()) as int])
        } else {
            None
        }
    }

    /// What of a prey of the given weight goes to the reserve: what exceeds
    /// the rest of the optimum.
    pub open spec fn surplus(self, weight: u64) -> int {
        if weight <= self.opt_reserve - self.consumido_hoy {
            0
        } else {
            weight - (self.opt_reserve - self.consumido_hoy)
        }
    }

    /// The predator after a prey of the given weight.
    pub open spec fn fed(self, weight: u64) -> Predator {
        Predator {
            consumido_hoy: (self.consumido_hoy + weight - self.surplus(weight)) as u64,
            current_reserve: (self.current_reserve + self.surplus(weight)) as u64,
            ..self
        }
    }

    /// How a prey of the given weight is eaten.
    pub open spec fn meal(self, weight: u64) -> HuntOutcome {
        if self.surplus(weight) == 0 {
            HuntOutcome::Whole { weight }
        } else {
            HuntOutcome::Partial {
                weight,
                eaten: (weight - self.surplus(weight)) as u64,
                banked: self.surplus(weight) as u64,
            }
        }
    }

    /// Whether `after` is what the hunt makes of predator and population when
    /// it takes the organism at position `i`: one of the heaviest candidates
    /// is eaten and leaves the population.
    pub open spec fn took(
        self,
        poblacion: Seq<Organismo>,
        i: int,
        after: (Predator, Seq<Organismo>),
    ) -> bool {
        &&& self.is_heaviest(poblacion, i)
        &&& after.0 == self.fed(poblacion[i].weight())
        &&& after.1 == poblacion.remove(i)
    }

    /// What a hunt does to the books, whichever prey it takes: a prey within
    /// the rest of the optimum is eaten whole; of a heavier one the predator
    /// eats up to the optimum, and the rest goes to the reserve.
    pub open spec fn booked(self, outcome: HuntOutcome, after: Predator) -> bool {
        match outcome {
            HuntOutcome::Sated | HuntOutcome::NoCandidates => after == self,
            HuntOutcome::Whole { weight } => {
                &&& weight <= self.opt_reserve - self.consumido_hoy
                &&& after == (Predator {
                    consumido_hoy: (self.consumido_hoy + weight) as u64,
                    ..self
                })
            },
            HuntOutcome::Partial { weight, eaten, banked } => {
                &&& eaten == self.opt_reserve - self.consumido_hoy
                &&& weight == eaten + banked
                &&& banked > 0
                &&& after == (Predator {
                    consumido_hoy: self.opt_reserve,
                    current_reserve: (self.current_reserve + banked) as u64,
                    ..self
                })
            },
        }
    }

    /// Predator and population after the hunt.
    pub open spec fn after_hunt(self, poblacion: Seq<Organismo>, pick: nat) -> (
        Predator,
        Seq<Organismo>,
    ) {
        match self.victim(poblacion, pick) {
            Some(i) => (self.fed(poblacion[i].weight()), poblacion.remove(i)),
            None => (self, poblacion),
        }
    }

    /// What comes of the hunt.
    pub open spec fn hunt_outcome(self, poblacion: Seq<Organismo>, pick: nat) -> HuntOutcome {
        if !self.hungry() {
            HuntOutcome::Sated
        } else {
            match self.victim(poblacion, pick) {
                Some(i) => self.meal(poblacion[i].weight()),
                None => HuntOutcome::NoCandidates,
            }
        }
    }

    /// Whether the reserve can take what a hunt may add to it.
    pub open spec fn can_bank(self, poblacion: Seq<Organismo>) -> bool {
        forall|i: int|
            self.hungry() && #[trigger] self.is_heaviest(poblacion, i) ==> self.current_reserve
                + self.surplus(poblacion[i].weight()) <= u64::MAX
    }
}

impl Predator {
    /// The predator at the start of a day: nothing eaten yet.
    pub open spec fn rested(self) -> Predator {
        Predator { consumido_hoy: 0, ..self }
    }

    /// The predator after the books of the day are closed. What was eaten
    /// today stands as the hunt left it: only the reserve and the health of
    /// the predator change.
    pub open spec fn settled(self) -> Predator {
        if self.consumido_hoy >= self.min_reserve {
            Predator { enfermo: false, ..self }
        } else if self.current_reserve >= self.min_reserve - self.consumido_hoy {
            Predator {
                current_reserve: (self.current_reserve - (self.min_reserve
                    - self.consumido_hoy)) as u64,
                enfermo: false,
                ..self
            }
        } else {
            Predator { enfermo: true, ..self }
        }
    }

    /// How the day ends.
    pub open spec fn solvency(self) -> SolvencyOutcome {
        if self.consumido_hoy >= self.min_reserve {
            SolvencyOutcome::Fed
        } else if self.current_reserve >= self.min_reserve - self.consumido_hoy {
            SolvencyOutcome::DrewReserve {
                shortfall: (self.min_reserve - self.consumido_hoy) as u64,
            }
        } else {
            SolvencyOutcome::Starved
        }
    }

    /// A healthy predator that has not eaten yet.
    pub fn new(
        min_reserve: u64,
        opt_reserve: u64,
        sacrifice_age_days: u32,
        initial_reserve: u64,
    ) -> (predator: Predator)
        ensures
            predator == (Predator {
                min_reserve,
                opt_reserve,
                current_reserve: initial_reserve,
                sacrifice_age_days,
                enfermo: false,
                consumido_hoy: 0,
            }),
    {
        Predator {
            min_reserve,
            opt_reserve,
            current_reserve: initial_reserve,
            sacrifice_age_days,
            enfermo: false,
            consumido_hoy: 0,
        }
    }

    /// What it has put aside, in grams.
    pub fn current_reserve(&self) -> (reserve: u64)
        ensures
            reserve == self.current_reserve,
    {
        self.current_reserve
    }

    /// A new day: nothing eaten yet.
    pub fn comenzar_dia(&mut self)
        ensures
            *final(self) == old(self).rested(),
    {
        self.consumido_hoy = 0;
    }

    /// Closes the books of the day. What the hunt left open of the minimum is
    /// taken from the reserve; where the reserve cannot cover it, the
    /// predator falls sick. What was eaten today is not touched.
    pub fn chequear_al_final_del_dia(&mut self) -> (outcome: SolvencyOutcome)
        ensures
            *final(self) == old(self).settled(),
            outcome == old(self).solvency(),
            *final(self) == (Predator {
                current_reserve: final(self).current_reserve,
                enfermo: final(self).enfermo,
                ..*old(self)
            }),
            final(self).enfermo == (outcome == SolvencyOutcome::Starved),
            final(self).current_reserve == match outcome {
                SolvencyOutcome::DrewReserve { shortfall } => old(self).current_reserve - shortfall,
                _ => old(self).current_reserve as int,
            },
    {
        if self.consumido_hoy < self.min_reserve {
            let falta: u64 = self.min_reserve - self.consumido_hoy;
            if self.current_reserve >= falta {
                self.current_reserve -= falta;
                self.enfermo = false;
                SolvencyOutcome::DrewReserve { shortfall: falta }
            } else {
                self.enfermo = true;
                SolvencyOutcome::Starved
            }
        } else {
            self.enfermo = false;
            SolvencyOutcome::Fed
        }
    }

    /// Whether the organism is prey that has reached the sacrifice age.
    pub fn es_candidato(&self, ind: &Organismo) -> (candidate: bool)
        ensures
            candidate == self.is_candidate(*ind),
    {
        if let Some(_especie) = ind.especie() {
            if let Some(edad_ind) = ind.edad() {
                if edad_ind >= self.sacrifice_age_days {
                    return true;
                }
            }
        }
        false
    }

    /// The positions of the heaviest candidates, in rising order.
    pub fn mas_pesados(&self, poblacion: &Vec<Organismo>) -> (ties: Vec<usize>)
        ensures
            ties@.map_values(|i: usize| i as int) == self.heaviest(poblacion@),
    {
        let mut max_peso: Option<u64> = None;
        let ghost mut at: int = 0;
        let mut i: usize = 0;
        while i < poblacion.len()
            invariant
                i <= poblacion.len(),
                max_peso is None ==> forall|j: int|
                    0 <= j < i ==> !self.is_candidate(#[trigger] poblacion@[j]),
                max_peso is Some ==> 0 <= at < i && self.is_candidate(poblacion@[at])
                    && poblacion@[at].weight() == max_peso.unwrap(),
                max_peso is Some ==> forall|j: int|
                    0 <= j < i && self.is_candidate(#[trigger] poblacion@[j])
                        ==> poblacion@[j].weight() <= max_peso.unwrap(),
            decreases poblacion.len() - i,
        {
            let ind = &poblacion[i];
            if self.es_candidato(ind) {
                let peso: u64 = ind.peso();
                let mayor = match max_peso {
                    Some(m) => peso > m,
                    None => true,
                };
                if mayor {
                    max_peso = Some(peso);
                    proof {
                        at = i as int;
                    }
                }
            }
            i += 1;
        }
        let mut ties: Vec<usize> = Vec::new();
        let mut k: usize = 0;
        while k < poblacion.len()
            invariant
                k <= poblacion.len(),
                ties@.map_values(|i: usize| i as int) == self.heaviest_upto(poblacion@, k as nat),
                max_peso is None ==> forall|j: int|
                    0 <= j < poblacion.len() ==> !self.is_candidate(#[trigger] poblacion@[j]),
                max_peso is Some ==> 0 <= at < poblacion.len() && self.is_candidate(poblacion@[at])
                    && poblacion@[at].weight() == max_peso.unwrap(),
                max_peso is Some ==> forall|j: int|
                    0 <= j < poblacion.len() && self.is_candidate(#[trigger] poblacion@[j])
                        ==> poblacion@[j].weight() <= max_peso.unwrap(),
            decreases poblacion.len() - k,
        {
            let ind = &poblacion[k];
            let empata = match max_peso {
                Some(m) => self.es_candidato(ind) && ind.peso() == m,
                None => false,
            };
            assert(empata == self.is_heaviest(poblacion@, k as int));
            if empata {
                assert(ties@.push(k).map_values(|i: usize| i as int) == ties@.map_values(
                    |i: usize| i as int,
                ).push(k as int));
                ties.push(k);
            }
            k += 1;
        }
        ties
    }

    /// Eats the prey at the given position and takes it out of the
    /// population.
    fn capturar(&mut self, poblacion: &mut Vec<Organismo>, elegido_idx: usize) -> (outcome:
        HuntOutcome)
        requires
            elegido_idx < old(poblacion).len(),
            old(self).hungry(),
            old(self).current_reserve + old(self).surplus(
                old(poblacion)@[elegido_idx as int].weight(),
            ) <= u64::MAX,
        ensures
            *final(self) == old(self).fed(old(poblacion)@[elegido_idx as int].weight()),
            final(poblacion)@ == old(poblacion)@.remove(elegido_idx as int),
            outcome == old(self).meal(old(poblacion)@[elegido_idx as int].weight()),
    {
        let peso_pres: u64 = poblacion[elegido_idx].peso();
        let faltar_para_optimo: u64 = self.opt_reserve - self.consumido_hoy;
        let outcome = if peso_pres <= faltar_para_optimo {
            self.consumido_hoy += peso_pres;
            HuntOutcome::Whole { weight: peso_pres }
        } else {
            self.consumido_hoy += faltar_para_optimo;
            let sobrante: u64 = peso_pres - faltar_para_optimo;
            self.current_reserve += sobrante;
            HuntOutcome::Partial { weight: peso_pres, eaten: faltar_para_optimo, banked: sobrante }
        };
        poblacion.remove(elegido_idx);
        outcome
    }

    /// The hunt with the draw already made: of the heaviest candidates, taken
    /// in the order of the population, the one that `pick` falls on is eaten
    /// and leaves the population.
    pub fn cazar_con(&mut self, poblacion: &mut Vec<Organismo>, pick: usize) -> (outcome:
        HuntOutcome)
        requires
            old(self).can_bank(old(poblacion)@),
        ensures
            (*final(self), final(poblacion)@) == old(self).after_hunt(
                old(poblacion)@,
                pick as nat,
            ),
            outcome == old(self).hunt_outcome(old(poblacion)@, pick as nat),
            old(self).hungry() && old(self).has_candidate(old(poblacion)@) ==> exists|i: int|
                #[trigger] old(self).took(old(poblacion)@, i, (*final(self), final(poblacion)@)),
            !(old(self).hungry() && old(self).has_candidate(old(poblacion)@)) ==> *final(self)
                == *old(self) && final(poblacion)@ == old(poblacion)@,
            old(self).booked(outcome, *final(self)),
    {
        proof {
            lemma_hunt_takes_one_or_none(*self, poblacion@);
        }
        if self.consumido_hoy >= self.opt_reserve {
            return HuntOutcome::Sated;
        }
        let mas_pesados = self.mas_pesados(poblacion);
        if mas_pesados.len() == 0 {
            return HuntOutcome::NoCandidates;
        }
        let elegido_idx: usize = mas_pesados[pick % mas_pesados.len()];
        proof {
            lemma_heaviest_members(*self, poblacion@, poblacion@.len());
            let ties = self.heaviest(poblacion@);
            assert(ties[(pick % mas_pesados.len()) as int] == elegido_idx as int);
            assert(self.is_heaviest(poblacion@, elegido_idx as int));
        }
        let ghost hunter = *self;
        let ghost herd = poblacion@;
        let outcome = self.capturar(poblacion, elegido_idx);
        assert(hunter.took(herd, elegido_idx as int, (*self, poblacion@)));
        outcome
    }

    /// The day's hunt. Unless the optimum is already reached, one of the
    /// heaviest prey that have reached the sacrifice age is eaten, as far as
    /// the optimum asks; what is left of it goes to the reserve. It leaves
    /// the population in either case.
    pub fn cazar(&mut self, poblacion: &mut Vec<Organismo>, rng: &mut ThreadRng) -> (outcome:
        HuntOutcome)
        requires
            old(self).can_bank(old(poblacion)@),
        ensures
            exists|pick: nat|
                (*final(self), final(poblacion)@) == #[trigger] old(self).after_hunt(
                    old(poblacion)@,
                    pick,
                ) && outcome == old(self).hunt_outcome(old(poblacion)@, pick),
            old(self).hungry() && old(self).has_candidate(old(poblacion)@) ==> exists|i: int|
                #[trigger] old(self).took(old(poblacion)@, i, (*final(self), final(poblacion)@)),
            !(old(self).hungry() && old(self).has_candidate(old(poblacion)@)) ==> *final(self)
                == *old(self) && final(poblacion)@ == old(poblacion)@,
            old(self).booked(outcome, *final(self)),
    {
        proof {
            lemma_hunt_takes_one_or_none(*self, poblacion@);
        }
        if self.consumido_hoy >= self.opt_reserve {
            assert((*self, poblacion@) == self.after_hunt(poblacion@, 0));
            return HuntOutcome::Sated;
        }
        let mas_pesados = self.mas_pesados(poblacion);
        match choose_one(rng, &mas_pesados) {
            Some(elegido_idx) => {
                proof {
                    lemma_heaviest_members(*self, poblacion@, poblacion@.len());
                    let ties = self.heaviest(poblacion@);
                    assert(mas_pesados@.contains(elegido_idx));
                    let pick = choose|k: int|
                        0 <= k < mas_pesados@.len() && mas_pesados@[k] == elegido_idx;
                    assert(ties.len() == mas_pesados@.len());
                    lemma_small_mod(pick as nat, ties.len());
                    assert(ties[pick] == elegido_idx as int);
                    assert(self.victim(poblacion@, pick as nat) == Some(elegido_idx as int));
                    assert(self.is_heaviest(poblacion@, elegido_idx as int));
                }
                let ghost hunter = *self;
                let ghost herd = poblacion@;
                let outcome = self.capturar(poblacion, elegido_idx);
                assert(hunter.took(herd, elegido_idx as int, (*self, poblacion@)));
                outcome
            },
            None => {
                assert((*self, poblacion@) == self.after_hunt(poblacion@, 0));
                HuntOutcome::NoCandidates
            },
        }
    }

    /// A predator does not age.
    pub fn envejecer(&mut self)
        ensures
            *final(self) == *old(self),
    {
    }

    /// A predator has no offspring.
    pub fn reproducirse(&self, _rng: &mut ThreadRng, _poblacion: &Vec<Organismo>) -> (hijos: Vec<
        Organismo,
    >)
        ensures
            hijos@.len() == 0,
    {
        Vec::new()
    }

    /// As a member of a herd a predator weighs nothing.
    pub fn peso(&self) -> (w: u64)
        ensures
            w == 0,
    {
        0
    }

    /// A predator is alive unless it is sick.
    pub fn esta_vivo(&self) -> (alive: bool)
        ensures
            alive == !self.enfermo,
    {
        !self.enfermo
    }

    /// The display name.
    pub fn nombre(&self) -> (name: &'static str)
        ensures
            name@ == "Depredador"@,
    {
        "Depredador"
    }

    /// A predator has no species.
    pub fn especie(&self) -> (species: Option<Species>)
        ensures
            species is None,
    {
        None
    }

    /// A predator has no sex.
    pub fn es_macho(&self) -> (male: Option<bool>)
        ensures
            male is None,
    {
        None
    }

    /// A predator does not fall sick of disease.
    pub fn prob_enfermar(&self) -> (p: Option<u32>)
        ensures
            p is None,
    {
        None
    }

    /// A predator does not die of disease.
    pub fn prob_muerte_enfermedad(&self) -> (p: Option<u32>)
        ensures
            p is None,
    {
        None
    }

    /// A predator has no disease trial: nothing changes and it does not die.
    pub fn tratar_enfermedad(&mut self, _rng: &mut ThreadRng) -> (died: bool)
        ensures
            *final(self) == *old(self),
            !died,
    {
        false
    }

    /// A predator has no age.
    pub fn edad(&self) -> (age: Option<u32>)
        ensures
            age is None,
    {
        None
    }
}

/// What `heaviest_upto` holds: below `n`, exactly the positions of the
/// heaviest candidates.
pub proof fn lemma_heaviest_members(predator: Predator, poblacion: Seq<Organismo>, n: nat)
    requires
        n <= poblacion.len(),
    ensures
        forall|k: int|
            0 <= k < predator.heaviest_upto(poblacion, n).len() ==> {
                &&& 0 <= (#[trigger] predator.heaviest_upto(poblacion, n)[k]) < n
                &&& predator.is_heaviest(poblacion, predator.heaviest_upto(poblacion, n)[k])
            },
        forall|i: int|
            0 <= i < n && #[trigger] predator.is_heaviest(poblacion, i) ==> predator.heaviest_upto(
                poblacion,
                n,
            ).contains(i),
    decreases n,
{
    if n > 0 {
        let before = predator.heaviest_upto(poblacion, (n - 1) as nat);
        let now = predator.heaviest_upto(poblacion, n);
        lemma_heaviest_members(predator, poblacion, (n - 1) as nat);
        assert forall|i: int|
            0 <= i < n && #[trigger] predator.is_heaviest(poblacion, i) implies now.contains(
            i,
        ) by {
            if i < n - 1 {
                let k = choose|k: int| 0 <= k < before.len() && before[k] == i;
                assert(now[k] == i);
            } else {
                assert(now[now.len() - 1] == i);
            }
        }
    }
}

/// Among the candidates below `n` one is heaviest.
pub proof fn lemma_heaviest_exists(predator: Predator, poblacion: Seq<Organismo>, n: nat) -> (best:
    int)
    requires
        n <= poblacion.len(),
        exists|j: int| 0 <= j < n && predator.is_candidate(#[trigger] poblacion[j]),
    ensures
        0 <= best < n,
        predator.is_candidate(poblacion[best]),
        forall|j: int|
            0 <= j < n && predator.is_candidate(#[trigger] poblacion[j]) ==> poblacion[j].weight()
                <= poblacion[best].weight(),
    decreases n,
{
    if exists|j: int| 0 <= j < n - 1 && predator.is_candidate(#[trigger] poblacion[j]) {
        let before = lemma_heaviest_exists(predator, poblacion, (n - 1) as nat);
        if predator.is_candidate(poblacion[n - 1]) && poblacion[n - 1].weight()
            > poblacion[before].weight() {
            n - 1
        } else {
            before
        }
    } else {
        n - 1
    }
}

/// The hunt takes exactly one organism out of the population when the
/// predator is still hungry and there is a candidate, and leaves predator and
/// population as they are otherwise.
pub proof fn lemma_hunt_takes_one_or_none(predator: Predator, poblacion: Seq<Organismo>)
    ensures
        predator.has_candidate(poblacion) <==> predator.heaviest(poblacion).len() > 0,
        forall|pick: nat|
            predator.hungry() && predator.has_candidate(poblacion) ==> {
                &&& (#[trigger] predator.victim(poblacion, pick)) is Some
                &&& predator.after_hunt(poblacion, pick).1.len() == poblacion.len() - 1
            },
        forall|pick: nat|
            !(predator.hungry() && predator.has_candidate(poblacion)) ==> {
                &&& (#[trigger] predator.victim(poblacion, pick)) is None
                &&& predator.after_hunt(poblacion, pick) == (predator, poblacion)
            },
{
    lemma_heaviest_members(predator, poblacion, poblacion.len());
    let ties = predator.heaviest(poblacion);
    if predator.has_candidate(poblacion) {
        let best = lemma_heaviest_exists(predator, poblacion, poblacion.len());
        assert(predator.is_heaviest(poblacion, best));
        assert(ties.contains(best));
    }
    if ties.len() > 0 {
        assert(predator.is_heaviest(poblacion, ties[0]));
    }
    assert forall|pick: nat| predator.hungry() && predator.has_candidate(poblacion) implies {
        &&& (#[trigger] predator.victim(poblacion, pick)) is Some
        &&& predator.after_hunt(poblacion, pick).1.len() == poblacion.len() - 1
    } by {
        let k = (pick % ties.len()) as int;
        assert(0 <= k < ties.len());
        assert(predator.is_heaviest(poblacion, ties[k]));
    }
}

/// The hunt never takes prey below the sacrifice age, however heavy: the
/// victim is a candidate, and no candidate outweighs it.
pub proof fn lemma_victim_is_heaviest_candidate(
    predator: Predator,
    poblacion: Seq<Organismo>,
    pick: nat,
)
    requires
        predator.victim(poblacion, pick) is Some,
    ensures
        predator.is_heaviest(poblacion, predator.victim(poblacion, pick).unwrap()),
        poblacion[predator.victim(poblacion, pick).unwrap()].age().unwrap()
            >= predator.sacrifice_age_days,
{
    lemma_heaviest_members(predator, poblacion, poblacion.len());
    let ties = predator.heaviest(poblacion);
    let k = (pick % ties.len()) as int;
    assert(0 <= k < ties.len());
    assert(predator.is_heaviest(poblacion, ties[k] as int));
}

/// Closing the books of the day changes the reserve and the health of the
/// predator and nothing else: what was eaten today is what the hunt left.
pub proof fn lemma_settling_keeps_consumption(predator: Predator)
    ensures
        predator.settled() == (Predator {
            current_reserve: predator.settled().current_reserve,
            enfermo: predator.settled().enfermo,
            ..predator
        }),
        predator.settled().current_reserve <= predator.current_reserve,
        predator.settled().enfermo == (predator.consumido_hoy + predator.current_reserve
            < predator.min_reserve),
{
}

/// A hunt only adds: to what was eaten today, up to the optimum, and to the
/// reserve. It changes nothing else about the predator.
pub proof fn lemma_hunt_only_adds(predator: Predator, poblacion: Seq<Organismo>, pick: nat)
    requires
        predator.can_bank(poblacion),
    ensures
        predator.after_hunt(poblacion, pick).0 == (Predator {
            consumido_hoy: predator.after_hunt(poblacion, pick).0.consumido_hoy,
            current_reserve: predator.after_hunt(poblacion, pick).0.current_reserve,
            ..predator
        }),
        predator.consumido_hoy <= predator.after_hunt(poblacion, pick).0.consumido_hoy,
        predator.hungry() ==> predator.after_hunt(poblacion, pick).0.consumido_hoy
            <= predator.opt_reserve,
        predator.current_reserve <= predator.after_hunt(poblacion, pick).0.current_reserve,
{
    if predator.victim(poblacion, pick) is Some {
        lemma_victim_is_heaviest_candidate(predator, poblacion, pick);
    }
}

/// Where the prey weighs more than what is left of the optimum, the day's
/// consumption ends at the optimum exactly and the reserve grows by the
/// rest of the prey.
pub proof fn lemma_reserve_accounting(predator: Predator, poblacion: Seq<Organismo>, pick: nat)
    requires
        predator.can_bank(poblacion),
        predator.victim(poblacion, pick) is Some,
        poblacion[predator.victim(poblacion, pick).unwrap()].weight() > predator.opt_reserve
            - predator.consumido_hoy,
    ensures
        predator.after_hunt(poblacion, pick).0.consumido_hoy == predator.opt_reserve,
        predator.after_hunt(poblacion, pick).0.current_reserve == predator.current_reserve
            + poblacion[predator.victim(poblacion, pick).unwrap()].weight() - (predator.opt_reserve
            - predator.consumido_hoy),
{
    lemma_victim_is_heaviest_candidate(predator, poblacion, pick);
}

} // verus!
