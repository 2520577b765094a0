//! Scoring one candidate against a dataset.

use crate::dataset::{table, Dataset, Example, Operator};
use crate::model::{activation, dot, predict, step, weighted_sum, WeightVector};
use vstd::prelude::*;

verus! {

/// The score of a candidate: the sum of its squared classification errors.
/// Lower is better, and zero means that every example is classified as
/// expected.
pub type Fitness = u128;

/// The input handed to the model for an example: the constant one that
/// carries the bias, then the two inputs.
pub open spec fn model_input(e: Example) -> Seq<i32> {
    seq![1i32, e.a, e.b]
}

/// The weighted sum of a candidate on an example, before the step.
pub open spec fn raw_output(w: WeightVector, e: Example) -> int {
    dot(model_input(e), w@)
}

/// The label that a candidate gives an example.
pub open spec fn label(w: WeightVector, e: Example) -> int {
    step(raw_output(w, e))
}

/// The squared difference between the expected label and the given one.
pub open spec fn squared_error(w: WeightVector, e: Example) -> int {
    (e.expected - label(w, e)) * (e.expected - label(w, e))
}

/// The squared errors of a candidate on the first `n` examples, summed.
pub open spec fn total_error(w: WeightVector, examples: Seq<Example>, n: nat) -> int
    decreases n,
{
    if n == 0 {
        0
    } else {
        total_error(w, examples, (n - 1) as nat) + squared_error(w, examples[n - 1])
    }
}

/// The fitness of a candidate on a dataset: its squared errors on all the
/// examples, summed, with no division by their number.
pub open spec fn fitness(w: WeightVector, d: Dataset) -> int {
    total_error(w, d@, d@.len())
}

/// A candidate classifies an example correctly when its label is the
/// expected one.
pub open spec fn classifies(w: WeightVector, e: Example) -> bool {
    label(w, e) == e.expected
}

/// The weighted sum on an example is the bias plus each weight times its
/// input.
pub proof fn lemma_raw_output(w: WeightVector, e: Example)
    ensures
        raw_output(w, e) == w[0] + w[1] * e.a + w[2] * e.b,
{
    let x = model_input(e);
    let sum = |n: nat| weighted_sum(x, w@, n);
    assert(x[0] == 1 && x[1] == e.a && x[2] == e.b);
    assert(w@[0] == w[0] && w@[1] == w[1] && w@[2] == w[2]);
    assert(sum(0) == 0);
    assert(sum(1) == sum(0) + x[0] * w@[0]);
    assert(sum(1) == w[0]);
    assert(sum(2) == w[0] + w[1] * e.a) by (nonlinear_arith)
        requires
            sum(2) == sum(1) + x[1] * w@[1],
            sum(1) == w[0],
            x[1] == e.a,
            w@[1] == w[1],
    ;
    assert(sum(3) == w[0] + w[1] * e.a + w[2] * e.b) by (nonlinear_arith)
        requires
            sum(3) == sum(2) + x[2] * w@[2],
            sum(2) == w[0] + w[1] * e.a,
            x[2] == e.b,
            w@[2] == w[2],
    ;
}

proof fn lemma_raw_output_on_bits(w: WeightVector, e: Example)
    requires
        e.a == 0 || e.a == 1,
        e.b == 0 || e.b == 1,
    ensures
        raw_output(w, e) == w[0] + (if e.a == 1 {
            w[1] as int
        } else {
            0
        }) + (if e.b == 1 {
            w[2] as int
        } else {
            0
        }),
{
    lemma_raw_output(w, e);
    assert(w[1] * e.a == (if e.a == 1 {
        w[1] as int
    } else {
        0
    })) by (nonlinear_arith)
        requires
            e.a == 0 || e.a == 1,
    ;
    assert(w[2] * e.b == (if e.b == 1 {
        w[2] as int
    } else {
        0
    })) by (nonlinear_arith)
        requires
            e.b == 0 || e.b == 1,
    ;
}

proof fn lemma_total_error(w: WeightVector, examples: Seq<Example>, n: nat)
    requires
        n <= examples.len(),
    ensures
        total_error(w, examples, n) >= 0,
        total_error(w, examples, n) == 0 <==> forall|i: int|
            0 <= i < n ==> classifies(w, #[trigger] examples[i]),
    decreases n,
{
    if n > 0 {
        let m = (n - 1) as nat;
        lemma_total_error(w, examples, m);
        let miss = examples[n - 1].expected - label(w, examples[n - 1]);
        assert(miss * miss >= 0 && (miss * miss == 0 <==> miss == 0)) by (nonlinear_arith);
        if total_error(w, examples, n) == 0 {
            assert forall|i: int| 0 <= i < n implies classifies(w, #[trigger] examples[i]) by {
                if i < m {
                } else {
                    assert(i == n - 1);
                }
            }
        }
    }
}

/// Fitness is never negative, and it is zero exactly when the candidate
/// classifies every example of the dataset correctly.
pub proof fn lemma_fitness_zero_iff_all_correct(w: WeightVector, d: Dataset)
    ensures
        fitness(w, d) >= 0,
        fitness(w, d) == 0 <==> forall|i: int|
            0 <= i < d@.len() ==> classifies(w, #[trigger] d@[i]),
{
    lemma_total_error(w, d@, d@.len());
}

proof fn lemma_fitness_zero_iff_four_correct(w: WeightVector, d: Dataset)
    ensures
        fitness(w, d) == 0 <==> classifies(w, d@[0]) && classifies(w, d@[1]) && classifies(
            w,
            d@[2],
        ) && classifies(w, d@[3]),
{
    lemma_fitness_zero_iff_all_correct(w, d);
}

/// On the truth table of AND a candidate has fitness zero exactly when the
/// sum of bias and both weights reaches zero while the bias alone, and the
/// bias with either single weight, stays below it. Its labels are then
/// 1, 0, 0, 0.
pub proof fn lemma_and_solutions(w: WeightVector, d: Dataset)
    requires
        d@ == table(Operator::And),
    ensures
        fitness(w, d) == 0 <==> (w[0] + w[1] + w[2] >= 0 && w[0] + w[1] < 0 && w[0] + w[2] < 0
            && w[0] < 0),
        fitness(w, d) == 0 ==> label(w, d@[0]) == 1 && label(w, d@[1]) == 0 && label(w, d@[2]) == 0
            && label(w, d@[3]) == 0,
{
    lemma_fitness_zero_iff_four_correct(w, d);
    lemma_raw_output_on_bits(w, d@[0]);
    lemma_raw_output_on_bits(w, d@[1]);
    lemma_raw_output_on_bits(w, d@[2]);
    lemma_raw_output_on_bits(w, d@[3]);
}

/// On the truth table of OR a candidate has fitness zero exactly when the
/// bias alone stays below zero while the bias with either single weight, and
/// with both, reaches it. Its labels are then 1, 1, 1, 0.
pub proof fn lemma_or_solutions(w: WeightVector, d: Dataset)
    requires
        d@ == table(Operator::Or),
    ensures
        fitness(w, d) == 0 <==> (w[0] + w[1] + w[2] >= 0 && w[0] + w[1] >= 0 && w[0] + w[2] >= 0
            && w[0] < 0),
        fitness(w, d) == 0 ==> label(w, d@[0]) == 1 && label(w, d@[1]) == 1 && label(w, d@[2]) == 1
            && label(w, d@[3]) == 0,
{
    lemma_fitness_zero_iff_four_correct(w, d);
    lemma_raw_output_on_bits(w, d@[0]);
    lemma_raw_output_on_bits(w, d@[1]);
    lemma_raw_output_on_bits(w, d@[2]);
    lemma_raw_output_on_bits(w, d@[3]);
}

/// The raw weighted sum of a candidate on an example.
pub fn output(weights: &WeightVector, example: &Example) -> (y: i128)
    ensures
        y == raw_output(*weights, *example),
{
    let input: [i32; 3] = [1, example.a, example.b];
    assert(input@ =~= model_input(*example));
    predict(&input, weights)
}

/// The label that a candidate gives an example.
pub fn classify(weights: &WeightVector, example: &Example) -> (y: i32)
    ensures
        y == label(*weights, *example),
{
    activation(output(weights, example))
}

/// The raw weighted sums of a candidate on the examples of a dataset, in
/// their order.
pub fn outputs(weights: &WeightVector, dataset: &Dataset) -> (raw: [i128; 4])
    ensures
        forall|i: int| 0 <= i < 4 ==> #[trigger] raw[i] == raw_output(*weights, dataset@[i]),
{
    [
        output(weights, &dataset.examples[0]),
        output(weights, &dataset.examples[1]),
        output(weights, &dataset.examples[2]),
        output(weights, &dataset.examples[3]),
    ]
}

/// The labels that a candidate gives the examples of a dataset, in their
/// order.
pub fn labels(weights: &WeightVector, dataset: &Dataset) -> (given: [i32; 4])
    ensures
        forall|i: int| 0 <= i < 4 ==> #[trigger] given[i] == label(*weights, dataset@[i]),
{
    [
        classify(weights, &dataset.examples[0]),
        classify(weights, &dataset.examples[1]),
        classify(weights, &dataset.examples[2]),
        classify(weights, &dataset.examples[3]),
    ]
}

/// Scores a candidate: the sum over the dataset of the squared difference
/// between the expected label and the label the candidate gives.
pub fn evaluate(weights: &WeightVector, dataset: &Dataset) -> (score: Fitness)
    ensures
        score == fitness(*weights, *dataset),
{
    let mut score: u128 = 0;
    let mut i: usize = 0;
    while i < 4
        invariant
            i <= 4,
            score == total_error(*weights, dataset@, i as nat),
            score <= i * 0x4000_0001_0000_0001,
        decreases 4 - i,
    {
        let example = dataset.examples[i];
        let y = classify(weights, &example);
        let miss: i64 = example.expected as i64 - y as i64;
        assert(0 <= miss * miss <= 0x4000_0001_0000_0001) by (nonlinear_arith)
            requires
                -0x8000_0001 <= miss <= 0x7fff_ffff,
        ;
        let square: i64 = miss * miss;
        score = score + square as u128;
        i = i + 1;
    }
    score
}

} // verus!
