//! The population optimizer: ranking by fitness, elitism and bounded
//! mutation.

use crate::dataset::Dataset;
use crate::fitness::{evaluate, fitness, Fitness};
use crate::model::WeightVector;
use crate::random::uniform;
use rand::rngs::StdRng;
use vstd::prelude::*;
use vstd::seq_lib::{to_multiset_build, to_multiset_contains, to_multiset_insert, to_multiset_len};

verus! {

/// The fitness never decreases along `population`.
pub open spec fn sorted_by_fitness(population: Seq<WeightVector>, d: Dataset) -> bool {
    forall|i: int, j: int|
        0 <= i <= j < population.len() ==> fitness(#[trigger] population[i], d) <= fitness(
            #[trigger] population[j],
            d,
        )
}

/// `ranked` holds the candidates of `population`, each as often as it occurs
/// there, in an order of ascending fitness. Where two candidates have the
/// same fitness, either may come first.
pub open spec fn is_ranking_of(
    ranked: Seq<WeightVector>,
    population: Seq<WeightVector>,
    d: Dataset,
) -> bool {
    &&& ranked.to_multiset() == population.to_multiset()
    &&& sorted_by_fitness(ranked, d)
}

/// `best` is a candidate of `population` and none has a lower fitness.
pub open spec fn is_best_of(best: WeightVector, population: Seq<WeightVector>, d: Dataset) -> bool {
    &&& population.contains(best)
    &&& forall|i: int|
        0 <= i < population.len() ==> fitness(best, d) <= fitness(#[trigger] population[i], d)
}

/// The first candidate of a ranking is a best candidate of the population
/// that was ranked.
pub proof fn lemma_head_of_ranking_is_best(
    ranked: Seq<WeightVector>,
    population: Seq<WeightVector>,
    d: Dataset,
)
    requires
        is_ranking_of(ranked, population, d),
        ranked.len() > 0,
    ensures
        is_best_of(ranked[0], population, d),
{
    assert(ranked.contains(ranked[0]));
    to_multiset_contains(ranked, ranked[0]);
    to_multiset_contains(population, ranked[0]);
    assert forall|i: int| 0 <= i < population.len() implies fitness(ranked[0], d) <= fitness(
        #[trigger] population[i],
        d,
    ) by {
        assert(population.contains(population[i]));
        to_multiset_contains(population, population[i]);
        to_multiset_contains(ranked, population[i]);
        let j = choose|j: int| 0 <= j < ranked.len() && ranked[j] == population[i];
        assert(fitness(ranked[0], d) <= fitness(ranked[j], d));
    }
}

/// Ranks a population: scores every candidate once and returns the
/// candidates in an order of ascending fitness, best first.
pub fn rank(population: &Vec<WeightVector>, dataset: &Dataset) -> (ranked: Vec<WeightVector>)
    ensures
        is_ranking_of(ranked@, population@, *dataset),
        ranked.len() == population.len(),
{
    let size = population.len();
    let mut ranked: Vec<WeightVector> = Vec::new();
    let mut scores: Vec<Fitness> = Vec::new();
    let mut i: usize = 0;
    assert(population@.take(0) =~= Seq::empty());
    while i < size
        invariant
            size == population.len(),
            i <= size,
            ranked.len() == i,
            scores.len() == i,
            forall|k: int| 0 <= k < i ==> #[trigger] scores[k] == fitness(ranked[k], *dataset),
            forall|a: int, b: int| 0 <= a <= b < i ==> scores[a] <= scores[b],
            ranked@.to_multiset() == population@.take(i as int).to_multiset(),
        decreases size - i,
    {
        let candidate = population[i];
        let score = evaluate(&candidate, dataset);
        let mut position: usize = i;
        while position > 0 && scores[position - 1] > score
            invariant
                position <= i,
                scores.len() == i,
                forall|k: int| position <= k < i ==> #[trigger] scores[k] > score,
            decreases position,
        {
            position = position - 1;
        }
        proof {
            to_multiset_insert(ranked@, position as int, candidate);
            to_multiset_build(population@.take(i as int), candidate);
            assert(population@.take(i + 1) =~= population@.take(i as int).push(candidate));
        }
        ranked.insert(position, candidate);
        scores.insert(position, score);
        i = i + 1;
    }
    assert(population@.take(size as int) =~= population@);
    assert forall|a: int, b: int| 0 <= a <= b < ranked@.len() implies fitness(
        #[trigger] ranked@[a],
        *dataset,
    ) <= fitness(#[trigger] ranked@[b], *dataset) by {
        assert(scores[a] <= scores[b]);
    }
    ranked
}

/// What is added to a candidate to mutate it, one entry per component.
pub type Perturbation = [i32; 3];

/// The nearest value to `x` that an `i32` can hold.
pub open spec fn clamp(x: int) -> int {
    if x < i32::MIN {
        i32::MIN as int
    } else if x > i32::MAX {
        i32::MAX as int
    } else {
        x
    }
}

/// Every component of `v` lies between `-bound` and `bound`.
pub open spec fn bounded(v: [i32; 3], bound: int) -> bool {
    &&& -bound <= v[0] <= bound
    &&& -bound <= v[1] <= bound
    &&& -bound <= v[2] <= bound
}

/// `child` is `parent` with `noise` added component by component, each sum
/// held to the range of an `i32`.
pub open spec fn is_mutation(child: WeightVector, parent: WeightVector, noise: Perturbation) -> bool {
    &&& child[0] == clamp(parent[0] + noise[0])
    &&& child[1] == clamp(parent[1] + noise[1])
    &&& child[2] == clamp(parent[2] + noise[2])
}

/// No component of `a` is further than `delta` from that of `b`.
pub open spec fn within(a: WeightVector, b: WeightVector, delta: int) -> bool {
    &&& -delta <= a[0] - b[0] <= delta
    &&& -delta <= a[1] - b[1] <= delta
    &&& -delta <= a[2] - b[2] <= delta
}

fn saturating_sum(a: i32, b: i32) -> (sum: i32)
    ensures
        sum == clamp(a + b),
{
    let wide: i64 = a as i64 + b as i64;
    if wide > i32::MAX as i64 {
        i32::MAX
    } else if wide < i32::MIN as i64 {
        i32::MIN
    } else {
        wide as i32
    }
}

/// Mutates one candidate: adds `noise` to `parent`, component by component.
/// A sum that an `i32` cannot hold stops at the end of its range.
pub fn mutate(parent: &WeightVector, noise: &Perturbation) -> (child: WeightVector)
    ensures
        is_mutation(child, *parent, *noise),
{
    [
        saturating_sum(parent[0], noise[0]),
        saturating_sum(parent[1], noise[1]),
        saturating_sum(parent[2], noise[2]),
    ]
}

/// A mutation moves no component by more than the largest entry of the
/// noise.
pub proof fn lemma_mutation_within(
    child: WeightVector,
    parent: WeightVector,
    noise: Perturbation,
    delta: int,
)
    requires
        is_mutation(child, parent, noise),
        bounded(noise, delta),
    ensures
        within(child, parent, delta),
{
}

/// Draws `count` vectors, each component uniformly between `-bound` and
/// `bound`, both included.
pub fn random_vectors(count: usize, bound: i32, rng: &mut StdRng) -> (vectors: Vec<[i32; 3]>)
    requires
        bound >= 0,
    ensures
        vectors.len() == count,
        forall|i: int| 0 <= i < count ==> bounded(#[trigger] vectors[i], bound as int),
{
    let mut vectors: Vec<[i32; 3]> = Vec::new();
    let mut i: usize = 0;
    while i < count
        invariant
            bound >= 0,
            i <= count,
            vectors.len() == i,
            forall|j: int| 0 <= j < i ==> bounded(#[trigger] vectors[j], bound as int),
        decreases count - i,
    {
        let x = uniform(rng, -bound, bound);
        let y = uniform(rng, -bound, bound);
        let z = uniform(rng, -bound, bound);
        vectors.push([x, y, z]);
        i = i + 1;
    }
    vectors
}

/// The number of candidates of a population of `size` that are not elites.
pub open spec fn mutable_count(size: int, elite_count: int) -> int {
    if elite_count >= size {
        0
    } else {
        size - elite_count
    }
}

/// `next` follows from `ranked` under the given noise: the first
/// `elite_count` candidates are kept as they are, and the candidate at every
/// later index is mutated by the noise vector of its place among the
/// candidates that are not elites.
pub open spec fn is_advance_under(
    next: Seq<WeightVector>,
    ranked: Seq<WeightVector>,
    elite_count: int,
    noise: Seq<Perturbation>,
) -> bool {
    &&& next.len() == ranked.len()
    &&& forall|i: int| 0 <= i < ranked.len() && i < elite_count ==> #[trigger] next[i] == ranked[i]
    &&& forall|i: int|
        elite_count <= i < ranked.len() ==> is_mutation(
            #[trigger] next[i],
            ranked[i],
            noise[i - elite_count],
        )
}

/// `next` is a possible successor of `ranked`: it has the same size, its
/// first `elite_count` candidates are those of `ranked`, unchanged, and every
/// later candidate is within `delta` of the one at its index in `ranked`, in
/// each component.
pub open spec fn is_advance_of(
    next: Seq<WeightVector>,
    ranked: Seq<WeightVector>,
    elite_count: int,
    delta: int,
) -> bool {
    &&& next.len() == ranked.len()
    &&& forall|i: int| 0 <= i < ranked.len() && i < elite_count ==> #[trigger] next[i] == ranked[i]
    &&& forall|i: int| elite_count <= i < ranked.len() ==> within(#[trigger] next[i], ranked[i], delta)
}

/// The next population for noise that is already drawn: elites are copied
/// through, every other candidate is mutated by its noise vector. `noise`
/// holds one vector for each candidate that is not an elite, in their order.
pub fn advance_with(
    ranked: &Vec<WeightVector>,
    elite_count: usize,
    noise: &Vec<Perturbation>,
) -> (next: Vec<WeightVector>)
    requires
        noise.len() == mutable_count(ranked.len() as int, elite_count as int),
    ensures
        is_advance_under(next@, ranked@, elite_count as int, noise@),
{
    let size = ranked.len();
    let mut next: Vec<WeightVector> = Vec::new();
    let mut i: usize = 0;
    while i < size
        invariant
            size == ranked.len(),
            noise.len() == mutable_count(size as int, elite_count as int),
            i <= size,
            next.len() == i,
            forall|j: int| 0 <= j < i && j < elite_count ==> #[trigger] next[j] == ranked[j],
            forall|j: int|
                elite_count <= j < i ==> is_mutation(
                    #[trigger] next[j],
                    ranked[j],
                    noise[j - elite_count],
                ),
        decreases size - i,
    {
        if i < elite_count {
            next.push(ranked[i]);
        } else {
            next.push(mutate(&ranked[i], &noise[i - elite_count]));
        }
        i = i + 1;
    }
    next
}

/// Under noise that stays within `delta`, what `advance_with` builds is a
/// possible successor for that `delta`.
pub proof fn lemma_advance_under_bounded_noise(
    next: Seq<WeightVector>,
    ranked: Seq<WeightVector>,
    elite_count: int,
    noise: Seq<Perturbation>,
    delta: int,
)
    requires
        elite_count >= 0,
        is_advance_under(next, ranked, elite_count, noise),
        noise.len() == mutable_count(ranked.len() as int, elite_count),
        forall|i: int| 0 <= i < noise.len() ==> bounded(#[trigger] noise[i], delta),
    ensures
        is_advance_of(next, ranked, elite_count, delta),
{
    assert forall|i: int| elite_count <= i < ranked.len() implies within(
        #[trigger] next[i],
        ranked[i],
        delta,
    ) by {
        lemma_mutation_within(next[i], ranked[i], noise[i - elite_count], delta);
    }
}

/// Produces the next population from a ranked one. The first `elite_count`
/// candidates are copied through unchanged. Every later candidate is
/// replaced by itself plus, in each component, a value drawn uniformly
/// between `-mutation_bound` and `mutation_bound`.
pub fn advance(
    ranked: &Vec<WeightVector>,
    elite_count: usize,
    mutation_bound: i32,
    rng: &mut StdRng,
) -> (next: Vec<WeightVector>)
    requires
        mutation_bound >= 0,
    ensures
        is_advance_of(next@, ranked@, elite_count as int, mutation_bound as int),
{
    let size = ranked.len();
    let count = if elite_count >= size {
        0
    } else {
        size - elite_count
    };
    let noise = random_vectors(count, mutation_bound, rng);
    let next = advance_with(ranked, elite_count, &noise);
    proof {
        lemma_advance_under_bounded_noise(
            next@,
            ranked@,
            elite_count as int,
            noise@,
            mutation_bound as int,
        );
    }
    next
}

/// With at least one elite, the best candidate of a ranking is still there
/// after the advance: no ranking of the successor starts with a worse
/// candidate.
pub proof fn lemma_elitism_keeps_best(
    ranked: Seq<WeightVector>,
    next: Seq<WeightVector>,
    reranked: Seq<WeightVector>,
    elite_count: int,
    delta: int,
    d: Dataset,
)
    requires
        ranked.len() > 0,
        elite_count > 0,
        is_advance_of(next, ranked, elite_count, delta),
        is_ranking_of(reranked, next, d),
    ensures
        reranked.len() > 0,
        fitness(reranked[0], d) <= fitness(ranked[0], d),
{
    to_multiset_len(reranked);
    to_multiset_len(next);
    lemma_head_of_ranking_is_best(reranked, next, d);
    assert(next[0] == ranked[0]);
}

} // verus!
