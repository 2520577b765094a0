//! The linear model: a weighted sum and the step that turns it into a label.

use vstd::prelude::*;

verus! {

/// The fixed-point representation of `1.0` for a weight.
pub const UNIT: i32 = 1_000_000;

/// A candidate: the bias and the weights of the two inputs, in this order.
pub type WeightVector = [i32; 3];

/// The sum of the first `n` products `x[i] * w[i]`.
pub open spec fn weighted_sum(x: Seq<i32>, w: Seq<i32>, n: nat) -> int
    decreases n,
{
    if n == 0 {
        0
    } else {
        weighted_sum(x, w, (n - 1) as nat) + x[n - 1] * w[n - 1]
    }
}

/// The dot product of an input and a weight sequence of the same length.
pub open spec fn dot(x: Seq<i32>, w: Seq<i32>) -> int {
    weighted_sum(x, w, x.len())
}

/// The largest magnitude that the product of two `i32` values can have.
spec fn max_product() -> int {
    0x4000_0000_0000_0000
}

proof fn lemma_product_bound(a: i32, b: i32)
    ensures
        -max_product() <= a * b <= max_product(),
{
    assert(-0x4000_0000_0000_0000 <= a * b <= 0x4000_0000_0000_0000) by (nonlinear_arith)
        requires
            -0x8000_0000 <= a <= 0x7fff_ffff,
            -0x8000_0000 <= b <= 0x7fff_ffff,
    ;
}

/// Computes the weighted sum of `input` under `weights`: the exact dot
/// product of the two. Both must have the same length.
pub fn predict(input: &[i32], weights: &[i32]) -> (y: i128)
    requires
        input.len() == weights.len(),
    ensures
        y == dot(input@, weights@),
{
    let n = input.len();
    let mut y: i128 = 0;
    let mut i: usize = 0;
    while i < n
        invariant
            n == input.len(),
            n == weights.len(),
            i <= n,
            y == weighted_sum(input@, weights@, i as nat),
            -(i * max_product()) <= y <= i * max_product(),
        decreases n - i,
    {
        proof {
            lemma_product_bound(input[i as int], weights[i as int]);
            assert(i * max_product() + max_product() <= 0x1_0000_0000_0000_0000 * max_product())
                by (nonlinear_arith)
                requires
                    i < 0x1_0000_0000_0000_0000,
                    max_product() >= 0,
            ;
        }
        let product: i64 = (input[i] as i64) * (weights[i] as i64);
        y = y + product as i128;
        i = i + 1;
    }
    y
}

/// An input was handed to the model whose length is not that of the weights.
#[derive(Clone, Copy, Debug, PartialEq, Eq, Structural)]
pub struct LengthMismatch {
    /// The length of the weights.
    pub expected: usize,
    /// The length of the input.
    pub actual: usize,
}

/// `predict` for a caller that cannot tell beforehand whether the lengths
/// match. An input of another length than the weights is refused, never cut
/// or filled up.
pub fn try_predict(input: &[i32], weights: &[i32]) -> (result: Result<i128, LengthMismatch>)
    ensures
        match result {
            Ok(y) => input.len() == weights.len() && y == dot(input@, weights@),
            Err(mismatch) => input.len() != weights.len() && mismatch == (LengthMismatch {
                expected: weights.len(),
                actual: input.len(),
            }),
        },
{
    if input.len() == weights.len() {
        Ok(predict(input, weights))
    } else {
        Err(LengthMismatch { expected: weights.len(), actual: input.len() })
    }
}

/// The step function: one from zero upwards, zero below.
pub open spec fn step(x: int) -> int {
    if x >= 0 {
        1
    } else {
        0
    }
}

/// Turns a raw weighted sum into a label. The boundary is inclusive: a sum of
/// exactly zero gives the label one.
pub fn activation(x: i128) -> (label: i32)
    ensures
        label == step(x as int),
{
    if x >= 0 {
        1
    } else {
        0
    }
}

} // verus!
