//! The training loop: a fixed number of generations of rank, report and
//! advance.

use crate::dataset::{table, Dataset, Operator};
use crate::fitness::fitness;
use crate::model::{WeightVector, UNIT};
use crate::optimizer::{
    advance, bounded, is_advance_of, is_best_of, is_ranking_of, lemma_head_of_ranking_is_best,
    random_vectors, rank,
};
use rand::rngs::StdRng;
use vstd::prelude::*;
use vstd::seq_lib::to_multiset_len;

verus! {

/// What a run is set up with. Nothing of it changes while the run lasts.
#[derive(Clone, Copy, Debug, PartialEq, Eq)]
pub struct Config {
    /// The number of candidates, the same in every generation.
    pub population_size: usize,
    /// The number of best candidates that each generation keeps unchanged.
    pub elite_count: usize,
    /// The most that a mutation moves one weight, in fixed-point units.
    pub mutation_bound: i32,
    /// The number of generations.
    pub iterations: usize,
    /// The operator whose truth table the candidates are scored against.
    pub operator: Operator,
}

impl Config {
    /// A run needs at least one candidate, and a mutation bound that is not
    /// negative.
    pub open spec fn valid(&self) -> bool {
        &&& self.population_size >= 1
        &&& self.mutation_bound >= 0
    }

    /// Tells whether a run can be set up with this configuration.
    pub fn is_valid(&self) -> (ok: bool)
        ensures
            ok == self.valid(),
    {
        self.population_size >= 1 && self.mutation_bound >= 0
    }
}

impl Default for Config {
    /// 500 candidates, 10 elites, a mutation bound of 0.005, 100 generations,
    /// the operator AND.
    fn default() -> (config: Config)
        ensures
            config == (Config {
                population_size: 500,
                elite_count: 10,
                mutation_bound: 5_000,
                iterations: 100,
                operator: Operator::And,
            }),
            config.valid(),
            config.mutation_bound * 200 == UNIT,
    {
        Config {
            population_size: 500,
            elite_count: 10,
            mutation_bound: 5_000,
            iterations: 100,
            operator: Operator::And,
        }
    }
}

/// What one generation shows to whoever reports on the run: its index, the
/// ranked population and the best candidate, before any mutation.
#[derive(Debug, PartialEq, Eq)]
pub struct Snapshot {
    pub generation: usize,
    pub ranked: Vec<WeightVector>,
    pub best: WeightVector,
}

/// A run in progress: the population between two generations.
pub struct TrainingLoop {
    pub config: Config,
    pub dataset: Dataset,
    /// The current population. Only a snapshot shows it ranked.
    pub population: Vec<WeightVector>,
    /// The number of generations done so far.
    pub generation: usize,
    /// The first candidate of the latest ranking, once a generation is done.
    pub best: Option<WeightVector>,
}

impl TrainingLoop {
    /// The state of a run is consistent.
    pub open spec fn wf(&self) -> bool {
        &&& self.config.valid()
        &&& self.dataset@ == table(self.config.operator)
        &&& self.population.len() == self.config.population_size
        &&& self.generation <= self.config.iterations
        &&& (self.best is Some <==> self.generation > 0)
        &&& (self.generation > 0 && self.config.elite_count > 0 ==> self.best == Some(
            self.population[0],
        ))
    }

    /// All the generations are done.
    pub open spec fn finished(&self) -> bool {
        self.generation >= self.config.iterations
    }

    /// `next` is a state that one generation can lead to from this one when
    /// the ranking it reports is `ranked`: `ranked` is a ranking of the
    /// population, the population of `next` is a possible successor of
    /// `ranked`, and `next` remembers the first candidate of `ranked` as the
    /// best. Nothing else differs but the count of generations.
    pub open spec fn generation_leads_to(&self, ranked: Seq<WeightVector>, next: TrainingLoop) -> bool {
        &&& next.config == self.config
        &&& next.dataset == self.dataset
        &&& next.generation == self.generation + 1
        &&& is_ranking_of(ranked, self.population@, self.dataset)
        &&& is_advance_of(
            next.population@,
            ranked,
            self.config.elite_count as int,
            self.config.mutation_bound as int,
        )
        &&& next.best == Some(ranked[0])
    }

    /// `next` is a state that one generation can lead to from this one.
    pub open spec fn precedes(&self, next: TrainingLoop) -> bool {
        exists|ranked: Seq<WeightVector>| #[trigger] self.generation_leads_to(ranked, next)
    }

    /// `last` is a state that `count` generations, one after the other, can
    /// lead to from this one.
    pub open spec fn leads_to(&self, last: TrainingLoop, count: nat) -> bool
        decreases count,
    {
        if count == 0 {
            last == *self
        } else {
            exists|middle: TrainingLoop|
                self.leads_to(middle, (count - 1) as nat) && #[trigger] middle.precedes(last)
        }
    }

    /// Sets up a run on a population that is already there.
    pub fn with_population(config: Config, population: Vec<WeightVector>) -> (training:
        TrainingLoop)
        requires
            config.valid(),
            population.len() == config.population_size,
        ensures
            training.wf(),
            training.config == config,
            training.dataset@ == table(config.operator),
            training.population == population,
            training.generation == 0,
            training.best is None,
    {
        TrainingLoop {
            config,
            dataset: Dataset::for_operator(config.operator),
            population,
            generation: 0,
            best: None,
        }
    }

    /// Sets up a run: draws the initial population, every weight uniformly
    /// between -1.0 and 1.0.
    pub fn new(config: Config, rng: &mut StdRng) -> (training: TrainingLoop)
        requires
            config.valid(),
        ensures
            training.wf(),
            training.config == config,
            training.dataset@ == table(config.operator),
            training.generation == 0,
            training.best is None,
            forall|i: int|
                0 <= i < training.population.len() ==> bounded(
                    #[trigger] training.population[i],
                    UNIT as int,
                ),
    {
        let population = random_vectors(config.population_size, UNIT, rng);
        TrainingLoop::with_population(config, population)
    }

    /// Tells whether all the generations are done.
    pub fn is_finished(&self) -> (done: bool)
        ensures
            done == self.finished(),
    {
        self.generation >= self.config.iterations
    }

    /// Runs one generation, unless all are done: ranks the population, takes
    /// the snapshot, and replaces the population by its successor. Returns
    /// the snapshot, or `None` where no generation was left to run.
    pub fn step(&mut self, rng: &mut StdRng) -> (snapshot: Option<Snapshot>)
        requires
            old(self).wf(),
        ensures
            final(self).wf(),
            final(self).config == old(self).config,
            final(self).dataset == old(self).dataset,
            old(self).finished() ==> snapshot is None && *final(self) == *old(self),
            final(self).population.len() == old(self).population.len(),
            !old(self).finished() ==> {
                &&& snapshot matches Some(shown)
                &&& shown.generation == old(self).generation
                &&& shown.ranked.len() == old(self).population.len()
                &&& shown.best == shown.ranked[0]
                &&& old(self).generation_leads_to(shown.ranked@, *final(self))
                &&& is_best_of(shown.best, old(self).population@, old(self).dataset)
                &&& old(self).config.elite_count > 0 ==> (old(self).best matches Some(previous)
                    ==> fitness(shown.best, old(self).dataset) <= fitness(
                    previous,
                    old(self).dataset,
                ))
            },
    {
        if self.generation >= self.config.iterations {
            return None;
        }
        let ranked = rank(&self.population, &self.dataset);
        let best = ranked[0];
        proof {
            lemma_head_of_ranking_is_best(ranked@, self.population@, self.dataset);
        }
        let next = advance(&ranked, self.config.elite_count, self.config.mutation_bound, rng);
        let shown = Snapshot { generation: self.generation, ranked, best };
        self.population = next;
        self.generation = self.generation + 1;
        self.best = Some(best);
        Some(shown)
    }

    /// The trained candidate as it stands: the best of the latest ranking.
    /// Before the first generation nothing is ranked yet, and the result is a
    /// best candidate of the initial population, which stays as it is.
    pub fn result(&self) -> (best: WeightVector)
        requires
            self.wf(),
        ensures
            match self.best {
                Some(latest) => best == latest,
                None => is_best_of(best, self.population@, self.dataset),
            },
    {
        match self.best {
            Some(latest) => latest,
            None => {
                let ranked = rank(&self.population, &self.dataset);
                proof {
                    lemma_head_of_ranking_is_best(ranked@, self.population@, self.dataset);
                }
                ranked[0]
            },
        }
    }

    /// Runs the generations that are left, one after the other, and returns
    /// the trained candidate. With no generation left to run, the state stays
    /// as it is: for a run of zero generations the result is a best candidate
    /// of the initial population, and nothing is ever mutated.
    pub fn run(&mut self, rng: &mut StdRng) -> (best: WeightVector)
        requires
            old(self).wf(),
        ensures
            final(self).wf(),
            final(self).config == old(self).config,
            final(self).dataset == old(self).dataset,
            final(self).generation == old(self).config.iterations,
            final(self).population.len() == old(self).population.len(),
            old(self).leads_to(
                *final(self),
                (old(self).config.iterations - old(self).generation) as nat,
            ),
            old(self).finished() ==> *final(self) == *old(self),
            match final(self).best {
                Some(latest) => best == latest,
                None => is_best_of(best, final(self).population@, final(self).dataset),
            },
            old(self).config.elite_count > 0 ==> (old(self).best matches Some(previous)
                ==> fitness(best, old(self).dataset) <= fitness(previous, old(self).dataset)),
            old(self).config.elite_count > 0 && (old(self).generation == 0 || !old(self).finished())
                ==> forall|i: int|
                0 <= i < old(self).population.len() ==> fitness(best, old(self).dataset) <= fitness(
                    #[trigger] old(self).population[i],
                    old(self).dataset,
                ),
    {
        while self.generation < self.config.iterations
            invariant
                self.wf(),
                self.config == old(self).config,
                self.dataset == old(self).dataset,
                self.generation >= old(self).generation,
                old(self).leads_to(*self, (self.generation - old(self).generation) as nat),
                old(self).best is Some ==> self.best is Some,
                self.generation == old(self).generation ==> *self == *old(self),
                old(self).config.elite_count > 0 && self.generation > old(self).generation
                    ==> forall|i: int|
                    0 <= i < old(self).population.len() ==> fitness(
                        self.best->0,
                        old(self).dataset,
                    ) <= fitness(#[trigger] old(self).population[i], old(self).dataset),
                old(self).config.elite_count > 0 ==> (old(self).best matches Some(previous)
                    ==> fitness(self.best->0, old(self).dataset) <= fitness(
                    previous,
                    old(self).dataset,
                )),
            decreases self.config.iterations - self.generation,
        {
            let ghost before = *self;
            let snapshot = self.step(rng);
            proof {
                assert(before.generation_leads_to(snapshot->0.ranked@, *self));
                assert(before.precedes(*self));
            }
        }
        self.result()
    }
}

/// Generations change neither the size of the population nor the
/// configuration: a state that `count` generations lead to has the population
/// size of the state they started from, and `count` more generations done.
pub proof fn lemma_generations_keep_size(first: TrainingLoop, last: TrainingLoop, count: nat)
    requires
        first.leads_to(last, count),
    ensures
        last.population.len() == first.population.len(),
        last.config == first.config,
        last.dataset == first.dataset,
        last.generation == first.generation + count,
    decreases count,
{
    if count > 0 {
        let middle = choose|middle: TrainingLoop|
            first.leads_to(middle, (count - 1) as nat) && #[trigger] middle.precedes(last);
        lemma_generations_keep_size(first, middle, (count - 1) as nat);
        let ranked = choose|ranked: Seq<WeightVector>|
            #[trigger] middle.generation_leads_to(ranked, last);
        to_multiset_len(ranked);
        to_multiset_len(middle.population@);
    }
}

} // verus!
