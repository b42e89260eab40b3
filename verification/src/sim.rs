//! The simulation: one call makes one day pass for the whole population.
//!
//! A day is a function of the state and of the day's draws. `State` and
//! `Draws` are the mathematical pictures of the two, and `State::advanced`
//! is that function; the executable day is proved to compute it.

use crate::chance::thread_rng;
use crate::error::ConfigError;
use crate::growth::lemma_growth_monotone;
use crate::organism::predator::{
    lemma_victim_is_heaviest_candidate, HuntOutcome, Predator, SolvencyOutcome,
};
use crate::organism::prey::{Sex, Species, MAX_LITTER, MAX_WEIGHT};
use crate::organism::Organismo;
use rand::rngs::ThreadRng;
use vstd::prelude::*;

verus! {

/// The first id that is handed out to offspring, unless the roster already
/// holds it or a higher one.
pub const FIRST_OFFSPRING_ID: u64 = 1000;

/// Ids are 32 bits wide: this is the first number that is none.
pub const ID_LIMIT: u64 = 0x1_0000_0000;

/// The state of a simulation.
pub struct State {
    pub day: u32,
    pub animals: Seq<Organismo>,
    pub predator: Predator,
    pub next_id: u64,
}

/// What a day draws from the random source.
pub struct Draws {
    /// For each organism, in the order of the population, how its disease
    /// trial comes out. A missing entry is a miss.
    pub disease: Seq<bool>,
    /// For each organism that is left after ageing and disease, in order, the
    /// sexes of its newborns. A missing entry is an empty litter.
    pub litters: Seq<Seq<Sex>>,
    /// The draw among the heaviest candidates of the hunt.
    pub pick: nat,
}

/// How many of each kind there are.
#[derive(Clone, Copy, Debug, PartialEq, Eq, Structural)]
pub struct Census {
    pub cows: usize,
    pub goats: usize,
    pub rabbits: usize,
    pub predators: usize,
}

/// What a day reports.
#[derive(Clone, Copy, Debug, PartialEq, Eq, Structural)]
pub struct DayReport {
    /// Those that died of disease today.
    pub disease_deaths: Census,
    /// What came of the hunt.
    pub hunt: HuntOutcome,
    /// The reserve in grams after the hunt, before the books are closed.
    pub reserve_after_hunt: u64,
    /// How the day ended for the predator.
    pub solvency: SolvencyOutcome,
    /// The population at the end of the day.
    pub census: Census,
}

/// The disease draw of the organism at position `i`: a miss where none is given.
pub open spec fn draw_at(draws: Seq<bool>, i: int) -> bool {
    0 <= i < draws.len() && draws[i]
}

/// The litter drawn for the organism at position `i`: empty where none is given.
pub open spec fn litter_at(litters: Seq<Seq<Sex>>, i: int) -> Seq<Sex> {
    if 0 <= i < litters.len() {
        litters[i]
    } else {
        Seq::empty()
    }
}

/// The day of one organism: it grows a day older and, if it can fall sick,
/// goes through the disease trial. It stays in the population unless the
/// trial kills it or it is no longer alive afterwards.
pub open spec fn day_of(o: Organismo, draw: bool) -> Option<Organismo> {
    let older = o.aged();
    let tried = if older.onset_chance() is Some {
        older.after_disease(draw)
    } else {
        (older, false)
    };
    if !tried.1 && tried.0.alive() {
        Some(tried.0)
    } else {
        None
    }
}

/// Whether the organism dies of today's disease trial.
pub open spec fn dies_of_disease(o: Organismo, draw: bool) -> bool {
    o.aged().onset_chance() is Some && o.aged().after_disease(draw).1
}

/// Those of the first `n` organisms that die of today's disease trial, in
/// order and as they are on that day.
pub open spec fn fallen_upto(animals: Seq<Organismo>, draws: Seq<bool>, n: nat) -> Seq<Organismo>
    decreases n,
{
    if n == 0 {
        Seq::empty()
    } else if dies_of_disease(animals[n - 1], draw_at(draws, n - 1)) {
        fallen_upto(animals, draws, (n - 1) as nat).push(animals[n - 1].aged())
    } else {
        fallen_upto(animals, draws, (n - 1) as nat)
    }
}

/// Those that die of today's disease trial.
pub open spec fn fallen(animals: Seq<Organismo>, draws: Seq<bool>) -> Seq<Organismo> {
    fallen_upto(animals, draws, animals.len())
}

/// Those of the first `n` organisms that are left after their day, in order.
pub open spec fn survivors_upto(animals: Seq<Organismo>, draws: Seq<bool>, n: nat) -> Seq<Organismo>
    decreases n,
{
    if n == 0 {
        Seq::empty()
    } else {
        match day_of(animals[n - 1], draw_at(draws, n - 1)) {
            Some(o) => survivors_upto(animals, draws, (n - 1) as nat).push(o),
            None => survivors_upto(animals, draws, (n - 1) as nat),
        }
    }
}

/// Those that are left after ageing and disease, in order.
pub open spec fn survivors(animals: Seq<Organismo>, draws: Seq<bool>) -> Seq<Organismo> {
    survivors_upto(animals, draws, animals.len())
}

/// The offspring of the first `n` organisms of the herd, litter after litter.
/// Every organism sees the herd as it was before any birth. Ids are handed
/// out in order from `first_id`.
pub open spec fn newborns_upto(
    herd: Seq<Organismo>,
    litters: Seq<Seq<Sex>>,
    first_id: u64,
    n: nat,
) -> Seq<Organismo>
    decreases n,
{
    if n == 0 {
        Seq::empty()
    } else {
        let before = newborns_upto(herd, litters, first_id, (n - 1) as nat);
        before + herd[n - 1].litter(
            herd,
            litter_at(litters, n - 1),
            (first_id + before.len()) as u32,
        )
    }
}

/// The offspring of the whole herd.
pub open spec fn newborns(herd: Seq<Organismo>, litters: Seq<Seq<Sex>>, first_id: u64) -> Seq<
    Organismo,
> {
    newborns_upto(herd, litters, first_id, herd.len())
}

/// How many of the organisms report the given species; with no species, how
/// many report none.
pub open spec fn head_count(animals: Seq<Organismo>, species: Option<Species>) -> nat {
    animals.filter(|o: Organismo| o.species() == species).len()
}

/// How many of each kind there are.
pub open spec fn census_of(animals: Seq<Organismo>) -> Census {
    Census {
        cows: head_count(animals, Some(Species::Cow)) as usize,
        goats: head_count(animals, Some(Species::Goat)) as usize,
        rabbits: head_count(animals, Some(Species::Rabbit)) as usize,
        predators: head_count(animals, None) as usize,
    }
}

/// The lowest id that is both above every id of the roster and not below
/// `FIRST_OFFSPRING_ID`, taken over the first `n` organisms.
pub open spec fn first_free_id_upto(animals: Seq<Organismo>, n: nat) -> u64
    decreases n,
{
    if n == 0 {
        FIRST_OFFSPRING_ID
    } else {
        let before = first_free_id_upto(animals, (n - 1) as nat);
        match animals[n - 1].id() {
            Some(id) => if id >= before {
                (id + 1) as u64
            } else {
                before
            },
            None => before,
        }
    }
}

/// The id that the first offspring of a new simulation gets.
pub open spec fn first_free_id(animals: Seq<Organismo>) -> u64 {
    first_free_id_upto(animals, animals.len())
}

/// Every organism is well formed.
pub open spec fn all_wf(animals: Seq<Organismo>) -> bool {
    forall|i: int| 0 <= i < animals.len() ==> (#[trigger] animals[i]).wf()
}

/// No two prey share an id.
pub open spec fn distinct_ids(animals: Seq<Organismo>) -> bool {
    forall|i: int, j: int|
        0 <= i < j < animals.len() && (#[trigger] animals[i]).id() is Some ==> animals[i].id() != (
        #[trigger] animals[j]).id()
}

/// Every id is below the bound.
pub open spec fn ids_below(animals: Seq<Organismo>, bound: u64) -> bool {
    forall|i: int|
        0 <= i < animals.len() && (#[trigger] animals[i]).id() is Some ==> animals[i].id().unwrap()
            < bound
}

impl State {
    /// Every organism is well formed, no two prey share an id, and every id
    /// in use is below the next one to be handed out.
    pub open spec fn wf(self) -> bool {
        &&& all_wf(self.animals)
        &&& distinct_ids(self.animals)
        &&& ids_below(self.animals, self.next_id)
        &&& self.next_id <= ID_LIMIT
    }

    /// Whether the counters have room for one more day: the day and every
    /// age can be counted up, a largest litter for every organism finds
    /// ids, and the reserve can take the heaviest prey.
    pub open spec fn can_advance(self) -> bool {
        &&& self.day < u32::MAX
        &&& forall|i: int| 0 <= i < self.animals.len() ==> (#[trigger] self.animals[i]).can_age()
        &&& self.next_id + MAX_LITTER * self.animals.len() <= ID_LIMIT
        &&& self.predator.current_reserve + MAX_WEIGHT <= u64::MAX
    }

    /// Those that are left after ageing and disease.
    pub open spec fn herd(self, draws: Draws) -> Seq<Organismo> {
        survivors(self.animals, draws.disease)
    }

    /// The day's offspring.
    pub open spec fn young(self, draws: Draws) -> Seq<Organismo> {
        newborns(self.herd(draws), draws.litters, self.next_id)
    }

    /// The population that the predator hunts in: the herd and its offspring.
    pub open spec fn grown(self, draws: Draws) -> Seq<Organismo> {
        self.herd(draws) + self.young(draws)
    }

    /// The state one day later: the predator starts its day, every organism
    /// has its day, the herd has its offspring, the predator hunts, and the
    /// books of the day are closed.
    pub open spec fn advanced(self, draws: Draws) -> State {
        let hunted = self.predator.rested().after_hunt(self.grown(draws), draws.pick);
        State {
            day: (self.day + 1) as u32,
            animals: hunted.1,
            predator: hunted.0.settled(),
            next_id: (self.next_id + self.young(draws).len()) as u64,
        }
    }

    /// What the day reports.
    pub open spec fn report(self, draws: Draws) -> DayReport {
        let hunted = self.predator.rested().after_hunt(self.grown(draws), draws.pick);
        DayReport {
            disease_deaths: census_of(fallen(self.animals, draws.disease)),
            hunt: self.predator.rested().hunt_outcome(self.grown(draws), draws.pick),
            reserve_after_hunt: hunted.0.current_reserve,
            solvency: hunted.0.solvency(),
            census: census_of(hunted.1),
        }
    }
}

/// An organism that stays after its day keeps its id, and stays well formed.
pub proof fn lemma_day_of(o: Organismo, draw: bool)
    requires
        day_of(o, draw) is Some,
    ensures
        day_of(o, draw).unwrap().id() == o.id(),
        o.wf() && o.can_age() ==> day_of(o, draw).unwrap().wf(),
        day_of(o, draw).unwrap().alive(),
{
    match o {
        Organismo::Presa(p) => {
            lemma_growth_monotone(p.species.curve(), p.age_days as nat, (p.age_days + 1) as nat);
        },
        Organismo::Depredador(_) => {},
    }
}

/// Ageing and disease take organisms out of the population and change
/// nothing else about it: those that are left are well formed, alive, and
/// carry ids of the population they come from, each at most once.
pub proof fn lemma_survivors(animals: Seq<Organismo>, draws: Seq<bool>, n: nat)
    requires
        n <= animals.len(),
    ensures
        survivors_upto(animals, draws, n).len() <= n,
        forall|k: int|
            0 <= k < survivors_upto(animals, draws, n).len() ==> exists|i: int|
                0 <= i < n && (#[trigger] animals[i]).id() == (#[trigger] survivors_upto(
                    animals,
                    draws,
                    n,
                )[k]).id(),
        forall|k: int|
            0 <= k < survivors_upto(animals, draws, n).len() ==> (#[trigger] survivors_upto(
                animals,
                draws,
                n,
            )[k]).alive(),
        all_wf(animals) && (forall|i: int| 0 <= i < n ==> (#[trigger] animals[i]).can_age())
            ==> all_wf(survivors_upto(animals, draws, n)),
        distinct_ids(animals) ==> distinct_ids(survivors_upto(animals, draws, n)),
    decreases n,
{
    if n > 0 {
        let before = survivors_upto(animals, draws, (n - 1) as nat);
        let now = survivors_upto(animals, draws, n);
        lemma_survivors(animals, draws, (n - 1) as nat);
        let last = day_of(animals[n - 1], draw_at(draws, n - 1));
        if last is Some {
            lemma_day_of(animals[n - 1], draw_at(draws, n - 1));
            assert forall|k: int| 0 <= k < now.len() implies exists|i: int|
                0 <= i < n && (#[trigger] animals[i]).id() == (#[trigger] now[k]).id() by {
                if k < before.len() {
                    let i = choose|i: int|
                        0 <= i < n - 1 && (#[trigger] animals[i]).id() == before[k].id();
                    assert(animals[i].id() == now[k].id());
                } else {
                    assert(animals[n - 1].id() == now[k].id());
                }
            }
            if distinct_ids(animals) {
                assert forall|k: int, l: int|
                    0 <= k < l < now.len() && (#[trigger] now[k]).id() is Some implies now[k].id()
                    != (#[trigger] now[l]).id() by {
                    if l < before.len() {
                        assert(before[k].id() != before[l].id());
                    } else {
                        let i = choose|i: int|
                            0 <= i < n - 1 && (#[trigger] animals[i]).id() == before[k].id();
                        assert(animals[i].id() != animals[n - 1].id());
                    }
                }
            }
        }
    }
}

/// The day's offspring are well-formed prey, and the newborn at position `p`
/// has the id `first_id + p`. No organism has more than the largest litter.
pub proof fn lemma_newborns(herd: Seq<Organismo>, litters: Seq<Seq<Sex>>, first_id: u64, n: nat)
    requires
        n <= herd.len(),
        all_wf(herd),
        first_id + MAX_LITTER * n <= ID_LIMIT,
    ensures
        newborns_upto(herd, litters, first_id, n).len() <= MAX_LITTER * n,
        forall|p: int|
            0 <= p < newborns_upto(herd, litters, first_id, n).len() ==> {
                &&& (#[trigger] newborns_upto(herd, litters, first_id, n)[p]).wf()
                &&& newborns_upto(herd, litters, first_id, n)[p].id() == Some((first_id + p) as u32)
                &&& newborns_upto(herd, litters, first_id, n)[p].age() == Some(0u32)
            },
    decreases n,
{
    if n > 0 {
        let before = newborns_upto(herd, litters, first_id, (n - 1) as nat);
        let now = newborns_upto(herd, litters, first_id, n);
        lemma_newborns(herd, litters, first_id, (n - 1) as nat);
        let born = herd[n - 1].litter(
            herd,
            litter_at(litters, n - 1),
            (first_id + before.len()) as u32,
        );
        assert(herd[n - 1].wf());
        match herd[n - 1] {
            Organismo::Presa(mother) => {
                lemma_growth_monotone(mother.species.curve(), 0, 0);
                assert(born.len() <= MAX_LITTER);
            },
            Organismo::Depredador(_) => {},
        }
        assert forall|p: int| 0 <= p < now.len() implies {
            &&& (#[trigger] now[p]).wf()
            &&& now[p].id() == Some((first_id + p) as u32)
            &&& now[p].age() == Some(0u32)
        } by {
            if p >= before.len() {
                assert(now[p] == born[p - before.len()]);
            }
        }
    }
}

/// A herd without a male has no offspring, whatever the draws.
pub proof fn lemma_no_male_no_newborns(
    herd: Seq<Organismo>,
    litters: Seq<Seq<Sex>>,
    first_id: u64,
    n: nat,
)
    requires
        n <= herd.len(),
        forall|i: int| 0 <= i < herd.len() ==> (#[trigger] herd[i]).is_male() != Some(true),
    ensures
        newborns_upto(herd, litters, first_id, n).len() == 0,
    decreases n,
{
    if n > 0 {
        lemma_no_male_no_newborns(herd, litters, first_id, (n - 1) as nat);
        match herd[n - 1] {
            Organismo::Presa(mother) => {
                assert forall|i: int| 0 <= i < herd.len() implies !(#[trigger] herd[i]).is_live_male_of(
                    mother.species,
                ) by {
                    assert(herd[i].is_male() != Some(true));
                }
            },
            Organismo::Depredador(_) => {},
        }
    }
}

/// No well-formed organism weighs more than the heaviest prey can.
pub proof fn lemma_weight_bounded(o: Organismo)
    requires
        o.wf(),
    ensures
        o.weight() <= MAX_WEIGHT,
{
    match o {
        Organismo::Presa(p) => {
            lemma_growth_monotone(p.species.curve(), p.age_days as nat, p.age_days as nat);
        },
        Organismo::Depredador(_) => {},
    }
}

/// Ageing and disease keep the books of the population in order: those that
/// are left are well formed, share no id and carry no id from the bound on.
pub proof fn lemma_herd_well_formed(animals: Seq<Organismo>, disease: Seq<bool>, bound: u64)
    requires
        all_wf(animals),
        distinct_ids(animals),
        ids_below(animals, bound),
        forall|i: int| 0 <= i < animals.len() ==> (#[trigger] animals[i]).can_age(),
    ensures
        survivors(animals, disease).len() <= animals.len(),
        all_wf(survivors(animals, disease)),
        distinct_ids(survivors(animals, disease)),
        ids_below(survivors(animals, disease), bound),
{
    let herd = survivors(animals, disease);
    lemma_survivors(animals, disease, animals.len());
    assert forall|k: int| 0 <= k < herd.len() && (#[trigger] herd[k]).id() is Some implies herd[k].id().unwrap()
        < bound by {
        let i = choose|i: int| 0 <= i < animals.len() && (#[trigger] animals[i]).id() == herd[k].id();
    }
}

/// Births keep the books of the population in order: herd and offspring
/// together are well formed and share no id, and the offspring carry the ids
/// from `first_id` on, one after the other.
pub proof fn lemma_grown_well_formed(herd: Seq<Organismo>, litters: Seq<Seq<Sex>>, first_id: u64)
    requires
        all_wf(herd),
        distinct_ids(herd),
        ids_below(herd, first_id),
        first_id + MAX_LITTER * herd.len() <= ID_LIMIT,
    ensures
        newborns(herd, litters, first_id).len() <= MAX_LITTER * herd.len(),
        all_wf(herd + newborns(herd, litters, first_id)),
        distinct_ids(herd + newborns(herd, litters, first_id)),
        ids_below(
            herd + newborns(herd, litters, first_id),
            (first_id + newborns(herd, litters, first_id).len()) as u64,
        ),
{
    let young = newborns(herd, litters, first_id);
    let grown = herd + young;
    lemma_newborns(herd, litters, first_id, herd.len());
    assert forall|i: int, j: int|
        0 <= i < j < grown.len() && (#[trigger] grown[i]).id() is Some implies grown[i].id() != (
    #[trigger] grown[j]).id() by {
        if j < herd.len() {
            assert(herd[i].id() != herd[j].id());
        } else if i < herd.len() {
            assert(herd[i].id().unwrap() < first_id);
            assert(grown[j] == young[j - herd.len()]);
        } else {
            assert(grown[i] == young[i - herd.len()]);
            assert(grown[j] == young[j - herd.len()]);
        }
    }
}

/// Taking an organism out keeps the books of the population in order.
pub proof fn lemma_removal_well_formed(animals: Seq<Organismo>, i: int, bound: u64)
    requires
        0 <= i < animals.len(),
        all_wf(animals),
        distinct_ids(animals),
        ids_below(animals, bound),
    ensures
        all_wf(animals.remove(i)),
        distinct_ids(animals.remove(i)),
        ids_below(animals.remove(i), bound),
{
    animals.remove_ensures(i);
    let rest = animals.remove(i);
    assert forall|k: int, l: int|
        0 <= k < l < rest.len() && (#[trigger] rest[k]).id() is Some implies rest[k].id() != (
    #[trigger] rest[l]).id() by {
        let from_k = if k < i {
            k
        } else {
            k + 1
        };
        let from_l = if l < i {
            l
        } else {
            l + 1
        };
        assert(animals[from_k].id() != animals[from_l].id());
    }
}

/// The reserve of a predator that can take the heaviest prey can take
/// whatever a hunt in a well-formed population adds to it.
pub proof fn lemma_reserve_has_room(predator: Predator, poblacion: Seq<Organismo>)
    requires
        all_wf(poblacion),
        predator.current_reserve + MAX_WEIGHT <= u64::MAX,
    ensures
        predator.can_bank(poblacion),
{
    assert forall|i: int| predator.hungry() && #[trigger] predator.is_heaviest(poblacion, i) implies predator.current_reserve
        + predator.surplus(poblacion[i].weight()) <= u64::MAX by {
        lemma_weight_bounded(poblacion[i]);
    }
}

/// A day keeps a well-formed state well formed: the organisms stay well
/// formed, no id is handed out twice, and the counter stays ahead of every
/// id in use. It also makes the day counter go up by one.
pub proof fn lemma_day_keeps_state_well_formed(state: State, draws: Draws)
    requires
        state.wf(),
        state.can_advance(),
    ensures
        state.advanced(draws).wf(),
        state.advanced(draws).day == state.day + 1,
        state.advanced(draws).next_id == state.next_id + state.young(draws).len(),
        state.predator.rested().can_bank(state.grown(draws)),
{
    let herd = state.herd(draws);
    let grown = state.grown(draws);
    let hunter = state.predator.rested();
    lemma_herd_well_formed(state.animals, draws.disease, state.next_id);
    assert(MAX_LITTER * herd.len() <= MAX_LITTER * state.animals.len()) by (nonlinear_arith)
        requires
            herd.len() <= state.animals.len(),
    ;
    lemma_grown_well_formed(herd, draws.litters, state.next_id);
    lemma_reserve_has_room(hunter, grown);
    match hunter.victim(grown, draws.pick) {
        Some(v) => {
            lemma_victim_is_heaviest_candidate(hunter, grown, draws.pick);
            lemma_removal_well_formed(grown, v, (state.next_id + state.young(draws).len()) as u64);
        },
        None => {},
    }
}

/// The same state and the same draws make the same day: the state after it
/// and its report are functions of the two.
pub proof fn lemma_day_is_determined(first: State, second: State, draws: Draws, other: Draws)
    requires
        first.day == second.day,
        first.animals =~= second.animals,
        first.predator == second.predator,
        first.next_id == second.next_id,
        draws.disease =~= other.disease,
        draws.litters =~= other.litters,
        draws.pick == other.pick,
    ensures
        first.advanced(draws) == second.advanced(other),
        first.report(draws) == second.report(other),
{
}

/// The draws of a day, made ahead of it.
pub struct DayDraws {
    /// For each organism, in the order of the population, how its disease
    /// trial comes out. A missing entry is a miss.
    pub disease: Vec<bool>,
    /// For each organism that is left after ageing and disease, in order, the
    /// sexes of its newborns. A missing entry is an empty litter.
    pub litters: Vec<Vec<Sex>>,
    /// The draw among the heaviest candidates of the hunt.
    pub pick: usize,
}

/// The litters as sequences.
pub open spec fn litters_of(litters: Seq<Vec<Sex>>) -> Seq<Seq<Sex>> {
    litters.map_values(|l: Vec<Sex>| l@)
}

impl View for DayDraws {
    type V = Draws;

    open spec fn view(&self) -> Draws {
        Draws {
            disease: self.disease@,
            litters: litters_of(self.litters@),
            pick: self.pick as nat,
        }
    }
}

/// A herd, its predator, and the days that have passed.
pub struct Simulation {
    day: u32,
    animals: Vec<Organismo>,
    predator: Predator,
    next_id: u64,
}

impl View for Simulation {
    type V = State;

    closed spec fn view(&self) -> State {
        State {
            day: self.day,
            animals: self.animals@,
            predator: self.predator,
            next_id: self.next_id,
        }
    }
}

/// How many of the organisms report the given species.
fn contar(animals: &Vec<Organismo>, species: Option<Species>) -> (count: usize)
    ensures
        count == head_count(animals@, species),
{
    let mut count: usize = 0;
    let mut i: usize = 0;
    assert(animals@.take(0) =~= Seq::<Organismo>::empty());
    while i < animals.len()
        invariant
            i <= animals.len(),
            count <= i,
            count == head_count(animals@.take(i as int), species),
        decreases animals.len() - i,
    {
        let same = match (animals[i].especie(), species) {
            (Some(a), Some(b)) => a == b,
            (None, None) => true,
            _ => false,
        };
        proof {
            reveal(Seq::filter);
            assert(animals@.take(i + 1).drop_last() =~= animals@.take(i as int));
        }
        if same {
            count += 1;
        }
        i += 1;
    }
    assert(animals@.take(animals.len() as int) =~= animals@);
    count
}

/// How many of each kind there are.
fn censar(animals: &Vec<Organismo>) -> (census: Census)
    ensures
        census == census_of(animals@),
{
    Census {
        cows: contar(animals, Some(Species::Cow)),
        goats: contar(animals, Some(Species::Goat)),
        rabbits: contar(animals, Some(Species::Rabbit)),
        predators: contar(animals, None),
    }
}

impl Simulation {
    /// A simulation at day zero, or the reason why the roster is refused: an
    /// organism that is not well formed, or an id that two prey share. Ids
    /// for offspring start above every id of the roster.
    pub fn new(initial: Vec<Organismo>, predator: Predator) -> (made: Result<
        Simulation,
        ConfigError,
    >)
        ensures
            !all_wf(initial@) ==> made is Err && made->Err_0 == ConfigError::MalformedOrganism,
            all_wf(initial@) && !distinct_ids(initial@) ==> made is Err && made->Err_0
                == ConfigError::DuplicateId,
            all_wf(initial@) && distinct_ids(initial@) ==> made is Ok && made->Ok_0@ == (State {
                day: 0,
                animals: initial@,
                predator,
                next_id: first_free_id(initial@),
            }) && made->Ok_0@.wf(),
    {
        let mut i: usize = 0;
        while i < initial.len()
            invariant
                i <= initial.len(),
                forall|j: int| 0 <= j < i ==> (#[trigger] initial@[j]).wf(),
            decreases initial.len() - i,
        {
            let valid = match &initial[i] {
                Organismo::Presa(p) => p.is_valid(),
                Organismo::Depredador(_) => true,
            };
            if !valid {
                return Err(ConfigError::MalformedOrganism);
            }
            i += 1;
        }
        let mut a: usize = 0;
        while a < initial.len()
            invariant
                a <= initial.len(),
                all_wf(initial@),
                forall|i: int, j: int|
                    0 <= i < j < initial.len() && i < a && (#[trigger] initial@[i]).id() is Some
                        ==> initial@[i].id() != (#[trigger] initial@[j]).id(),
            decreases initial.len() - a,
        {
            if let Some(id) = initial[a].identificador() {
                let mut b: usize = a + 1;
                while b < initial.len()
                    invariant
                        a < b <= initial.len(),
                        all_wf(initial@),
                        initial@[a as int].id() == Some(id),
                        forall|j: int|
                            a < j < b ==> initial@[a as int].id() != (#[trigger] initial@[j]).id(),
                    decreases initial.len() - b,
                {
                    let same = match initial[b].identificador() {
                        Some(other) => other == id,
                        None => false,
                    };
                    if same {
                        assert(initial@[a as int].id() is Some && initial@[a as int].id()
                            == initial@[b as int].id());
                        return Err(ConfigError::DuplicateId);
                    }
                    b += 1;
                }
            }
            a += 1;
        }
        let mut next_id: u64 = FIRST_OFFSPRING_ID;
        let mut k: usize = 0;
        while k < initial.len()
            invariant
                k <= initial.len(),
                next_id == first_free_id_upto(initial@, k as nat),
                next_id <= ID_LIMIT,
                forall|j: int|
                    0 <= j < k && (#[trigger] initial@[j]).id() is Some ==> initial@[j].id().unwrap()
                        < next_id,
            decreases initial.len() - k,
        {
            if let Some(id) = initial[k].identificador() {
                if id as u64 >= next_id {
                    next_id = id as u64 + 1;
                }
            }
            k += 1;
        }
        Ok(Simulation { day: 0, animals: initial, predator, next_id })
    }

    /// The days that have passed.
    pub fn get_day(&self) -> (day: u32)
        ensures
            day == self@.day,
    {
        self.day
    }

    /// The population, in its order.
    pub fn get_animals(&self) -> (animals: &Vec<Organismo>)
        ensures
            animals@ == self@.animals,
    {
        &self.animals
    }

    /// The predator.
    pub fn get_predator(&self) -> (predator: &Predator)
        ensures
            *predator == self@.predator,
    {
        &self.predator
    }

    /// How many of each kind there are.
    pub fn censo(&self) -> (census: Census)
        ensures
            census == census_of(self@.animals),
    {
        censar(&self.animals)
    }

    /// Whether the counters have room for one more day.
    pub fn puede_avanzar(&self) -> (room: bool)
        ensures
            room == self@.can_advance(),
    {
        if self.day == u32::MAX || self.predator.current_reserve > u64::MAX - MAX_WEIGHT {
            return false;
        }
        if self.next_id > ID_LIMIT || self.animals.len() as u64 > (ID_LIMIT - self.next_id) / (
        MAX_LITTER as u64) {
            return false;
        }
        let mut i: usize = 0;
        while i < self.animals.len()
            invariant
                i <= self.animals.len(),
                forall|j: int| 0 <= j < i ==> (#[trigger] self.animals@[j]).can_age(),
            decreases self.animals.len() - i,
        {
            let puede = match self.animals[i].edad() {
                Some(edad) => edad < u32::MAX,
                None => true,
            };
            if !puede {
                return false;
            }
            i += 1;
        }
        true
    }

    /// Draws the disease trial of every organism.
    fn sortear_enfermedades(&self, rng: &mut ThreadRng) -> (fates: Vec<bool>)
        requires
            all_wf(self.animals@),
        ensures
            fates@.len() == self.animals@.len(),
    {
        let mut fates: Vec<bool> = Vec::new();
        let mut i: usize = 0;
        while i < self.animals.len()
            invariant
                i <= self.animals.len(),
                fates@.len() == i,
                all_wf(self.animals@),
            decreases self.animals.len() - i,
        {
            fates.push(self.animals[i].sortear_enfermedad(rng));
            i += 1;
        }
        fates
    }

    /// Draws the litter of every organism.
    fn sortear_camadas(&self, rng: &mut ThreadRng) -> (litters: Vec<Vec<Sex>>)
        ensures
            litters@.len() == self.animals@.len(),
    {
        let mut litters: Vec<Vec<Sex>> = Vec::new();
        let mut i: usize = 0;
        while i < self.animals.len()
            invariant
                i <= self.animals.len(),
                litters@.len() == i,
            decreases self.animals.len() - i,
        {
            litters.push(self.animals[i].sortear_camada(rng, &self.animals));
            i += 1;
        }
        litters
    }

    /// Every organism has its day; those that die leave the population.
    /// Those that die of disease are handed back.
    fn depurar(&mut self, fates: &Vec<bool>) -> (caidos: Vec<Organismo>)
        requires
            forall|i: int|
                0 <= i < old(self).animals@.len() ==> (#[trigger] old(self).animals@[i]).can_age(),
        ensures
            caidos@ == fallen(old(self).animals@, fates@),
            final(self).animals@ == survivors(old(self).animals@, fates@),
            final(self).day == old(self).day,
            final(self).predator == old(self).predator,
            final(self).next_id == old(self).next_id,
    {
        let mut kept: Vec<Organismo> = Vec::new();
        let mut caidos: Vec<Organismo> = Vec::new();
        let mut i: usize = 0;
        while i < self.animals.len()
            invariant
                i <= self.animals.len(),
                *self == *old(self),
                forall|i: int|
                    0 <= i < self.animals@.len() ==> (#[trigger] self.animals@[i]).can_age(),
                kept@ == survivors_upto(self.animals@, fates@, i as nat),
                caidos@ == fallen_upto(self.animals@, fates@, i as nat),
            decreases self.animals.len() - i,
        {
            let mut a: Organismo = self.animals[i];
            let draw = i < fates.len() && fates[i];
            a.envejecer();
            let murio = if a.prob_enfermar().is_some() {
                a.resolver_enfermedad(draw)
            } else {
                false
            };
            if murio {
                caidos.push(a);
            } else if a.esta_vivo() {
                kept.push(a);
            }
            i += 1;
        }
        self.animals = kept;
        caidos
    }

    /// Every organism has its litter. The newborns join the population once
    /// all are born.
    fn criar(&mut self, litters: &Vec<Vec<Sex>>)
        requires
            all_wf(old(self).animals@),
            old(self).next_id + MAX_LITTER * old(self).animals@.len() <= ID_LIMIT,
        ensures
            final(self).animals@ == old(self).animals@ + newborns(
                old(self).animals@,
                litters_of(litters@),
                old(self).next_id,
            ),
            final(self).next_id == old(self).next_id + newborns(
                old(self).animals@,
                litters_of(litters@),
                old(self).next_id,
            ).len(),
            final(self).day == old(self).day,
            final(self).predator == old(self).predator,
    {
        let mut nuevos: Vec<Organismo> = Vec::new();
        let sin_camada: Vec<Sex> = Vec::new();
        let mut i: usize = 0;
        while i < self.animals.len()
            invariant
                i <= self.animals.len(),
                *self == *old(self),
                all_wf(self.animals@),
                self.next_id + MAX_LITTER * self.animals@.len() <= ID_LIMIT,
                sin_camada@.len() == 0,
                nuevos@ == newborns_upto(
                    self.animals@,
                    litters_of(litters@),
                    self.next_id,
                    i as nat,
                ),
            decreases self.animals.len() - i,
        {
            proof {
                lemma_newborns(self.animals@, litters_of(litters@), self.next_id, i as nat);
                assert(MAX_LITTER * (i + 1) <= MAX_LITTER * self.animals@.len())
                    by (nonlinear_arith)
                    requires
                        i + 1 <= self.animals@.len(),
                ;
            }
            let sexes: &Vec<Sex> = if i < litters.len() {
                &litters[i]
            } else {
                &sin_camada
            };
            assert(sexes@ =~= litter_at(litters_of(litters@), i as int));
            let first_id: u32 = (self.next_id + nuevos.len() as u64) as u32;
            let mut hijos = self.animals[i].parir(&self.animals, sexes, first_id);
            nuevos.append(&mut hijos);
            i += 1;
        }
        proof {
            lemma_newborns(
                self.animals@,
                litters_of(litters@),
                self.next_id,
                self.animals@.len(),
            );
        }
        self.next_id = self.next_id + nuevos.len() as u64;
        self.animals.append(&mut nuevos);
    }

    /// One day passes, with the draws made from the random source of the
    /// thread. Whatever is drawn, the day is one of those that `advanced`
    /// describes.
    pub fn simulate_day(&mut self) -> (report: DayReport)
        requires
            old(self)@.wf(),
            old(self)@.can_advance(),
        ensures
            exists|draws: Draws|
                final(self)@ == #[trigger] old(self)@.advanced(draws)
                    && report == old(self)@.report(draws),
            final(self)@.wf(),
            final(self)@.day == old(self)@.day + 1,
    {
        let ghost before = self@;
        let mut rng = thread_rng();
        self.day += 1;
        self.predator.comenzar_dia();
        let fates = self.sortear_enfermedades(&mut rng);
        let caidos = self.depurar(&fates);
        proof {
            lemma_herd_well_formed(before.animals, fates@, before.next_id);
            assert(MAX_LITTER * self.animals@.len() <= MAX_LITTER * before.animals.len())
                by (nonlinear_arith)
                requires
                    self.animals@.len() <= before.animals.len(),
            ;
        }
        let litters = self.sortear_camadas(&mut rng);
        self.criar(&litters);
        let ghost drawn = Draws { disease: fates@, litters: litters_of(litters@), pick: 0 };
        let ghost hunter = self.predator;
        let ghost grown = self.animals@;
        proof {
            lemma_grown_well_formed(before.herd(drawn), drawn.litters, before.next_id);
            lemma_reserve_has_room(hunter, grown);
        }
        let hunt = self.predator.cazar(&mut self.animals, &mut rng);
        let ghost pick = choose|pick: nat|
            (self.predator, self.animals@) == #[trigger] hunter.after_hunt(grown, pick) && hunt
                == hunter.hunt_outcome(grown, pick);
        let reserve_after_hunt: u64 = self.predator.current_reserve();
        let solvency = self.predator.chequear_al_final_del_dia();
        let census = self.censo();
        proof {
            let draws = Draws { pick, ..drawn };
            lemma_day_keeps_state_well_formed(before, draws);
            assert(self@ == before.advanced(draws));
        }
        DayReport { disease_deaths: censar(&caidos), hunt, reserve_after_hunt, solvency, census }
    }

    /// One day passes, with the draws made ahead.
    pub fn simulate_day_with(&mut self, draws: &DayDraws) -> (report: DayReport)
        requires
            old(self)@.wf(),
            old(self)@.can_advance(),
        ensures
            final(self)@ == old(self)@.advanced(draws@),
            report == old(self)@.report(draws@),
            final(self)@.wf(),
            final(self)@.day == old(self)@.day + 1,
    {
        let ghost before = self@;
        proof {
            lemma_day_keeps_state_well_formed(before, draws@);
            lemma_herd_well_formed(before.animals, draws@.disease, before.next_id);
            assert(MAX_LITTER * before.herd(draws@).len() <= MAX_LITTER * before.animals.len())
                by (nonlinear_arith)
                requires
                    before.herd(draws@).len() <= before.animals.len(),
            ;
        }
        self.day += 1;
        self.predator.comenzar_dia();
        let caidos = self.depurar(&draws.disease);
        self.criar(&draws.litters);
        let hunt = self.predator.cazar_con(&mut self.animals, draws.pick);
        let reserve_after_hunt: u64 = self.predator.current_reserve();
        let solvency = self.predator.chequear_al_final_del_dia();
        let census = self.censo();
        DayReport { disease_deaths: censar(&caidos), hunt, reserve_after_hunt, solvency, census }
    }
}

} // verus!
