use perceptron_evolve::dataset::{Dataset, Example, Operator};
use perceptron_evolve::fitness::{classify, evaluate, labels, output, outputs};
use perceptron_evolve::model::WeightVector;

const AND_SOLUTION: WeightVector = [-1_500_000, 1_000_000, 1_000_000];
const OR_SOLUTION: WeightVector = [-500_000, 1_000_000, 1_000_000];

#[test]
fn and_is_solved_by_the_textbook_weights() {
    let dataset = Dataset::for_operator(Operator::And);
    assert_eq!(evaluate(&AND_SOLUTION, &dataset), 0);
    assert_eq!(labels(&AND_SOLUTION, &dataset), [1, 0, 0, 0]);
    for (example, given) in dataset.examples.iter().zip(labels(&AND_SOLUTION, &dataset)) {
        assert_eq!(example.expected, given);
    }
}

#[test]
fn and_is_solved_by_any_weights_that_meet_the_four_inequalities() {
    let dataset = Dataset::for_operator(Operator::And);
    let candidates: [WeightVector; 4] =
        [[-3, 2, 2], [-2, 1, 1], [-2_000_000, 1_999_999, 1], [i32::MIN, i32::MAX, 1]];
    for w in candidates {
        let (b, w1, w2) = (w[0] as i64, w[1] as i64, w[2] as i64);
        assert!(b + w1 + w2 >= 0 && b + w1 < 0 && b + w2 < 0 && b < 0);
        assert_eq!(evaluate(&w, &dataset), 0);
        assert_eq!(labels(&w, &dataset), [1, 0, 0, 0]);
    }
}

#[test]
fn or_is_solved_by_the_textbook_weights() {
    let dataset = Dataset::for_operator(Operator::Or);
    assert_eq!(evaluate(&OR_SOLUTION, &dataset), 0);
    assert_eq!(labels(&OR_SOLUTION, &dataset), [1, 1, 1, 0]);
}

#[test]
fn the_or_solution_misses_two_rows_of_and() {
    let dataset = Dataset::for_operator(Operator::And);
    assert_eq!(labels(&OR_SOLUTION, &dataset), [1, 1, 1, 0]);
    assert_eq!(evaluate(&OR_SOLUTION, &dataset), 2);
}

#[test]
fn the_and_solution_misses_two_rows_of_or() {
    let dataset = Dataset::for_operator(Operator::Or);
    assert_eq!(evaluate(&AND_SOLUTION, &dataset), 2);
}

#[test]
fn all_zero_weights_label_everything_one() {
    let and = Dataset::for_operator(Operator::And);
    let or = Dataset::for_operator(Operator::Or);
    assert_eq!(labels(&[0, 0, 0], &and), [1, 1, 1, 1]);
    assert_eq!(evaluate(&[0, 0, 0], &and), 3);
    assert_eq!(evaluate(&[0, 0, 0], &or), 1);
}

#[test]
fn a_negative_bias_alone_labels_everything_zero() {
    let and = Dataset::for_operator(Operator::And);
    let or = Dataset::for_operator(Operator::Or);
    assert_eq!(labels(&[-1, 0, 0], &and), [0, 0, 0, 0]);
    assert_eq!(evaluate(&[-1, 0, 0], &and), 1);
    assert_eq!(evaluate(&[-1, 0, 0], &or), 3);
}

#[test]
fn fitness_is_zero_exactly_when_every_label_is_the_expected_one() {
    let candidates: [WeightVector; 6] = [
        AND_SOLUTION,
        OR_SOLUTION,
        [0, 0, 0],
        [-1, 0, 0],
        [1_000_000, -2_000_000, -2_000_000],
        [-1, 1, -1],
    ];
    for op in [Operator::And, Operator::Or] {
        let dataset = Dataset::for_operator(op);
        for w in candidates {
            let given = labels(&w, &dataset);
            let all_correct = (0..4).all(|i| given[i] == dataset.examples[i].expected);
            assert_eq!(evaluate(&w, &dataset) == 0, all_correct);
        }
    }
}

#[test]
fn fitness_adds_up_squared_differences_without_averaging() {
    let dataset = Dataset::new([
        Example::new(1, 1, 3),
        Example::new(1, 0, -2),
        Example::new(0, 1, 1),
        Example::new(0, 0, 0),
    ]);
    // labels under the AND solution are 1, 0, 0, 0
    assert_eq!(evaluate(&AND_SOLUTION, &dataset), 4 + 4 + 1 + 0);
}

#[test]
fn fitness_holds_the_largest_possible_errors() {
    let dataset = Dataset::new([Example::new(0, 0, i32::MIN); 4]);
    let miss: u128 = (1 << 31) + 1;
    assert_eq!(evaluate(&[0, 0, 0], &dataset), 4 * miss * miss);
}

#[test]
fn output_is_bias_plus_weighted_inputs() {
    assert_eq!(output(&AND_SOLUTION, &Example::new(1, 1, 1)), 500_000);
    assert_eq!(output(&AND_SOLUTION, &Example::new(1, 0, 0)), -500_000);
    assert_eq!(output(&AND_SOLUTION, &Example::new(0, 0, 0)), -1_500_000);
    assert_eq!(output(&[7, 3, -5], &Example::new(2, 4, 0)), 7 + 6 - 20);
}

#[test]
fn outputs_are_the_raw_sums_in_dataset_order() {
    let dataset = Dataset::for_operator(Operator::And);
    assert_eq!(outputs(&AND_SOLUTION, &dataset), [500_000, -500_000, -500_000, -1_500_000]);
}

#[test]
fn classify_puts_a_sum_of_exactly_zero_on_the_side_of_one() {
    assert_eq!(classify(&[-2, 1, 1], &Example::new(1, 1, 1)), 1);
    assert_eq!(classify(&[-2, 1, 1], &Example::new(1, 0, 0)), 0);
    assert_eq!(classify(&[0, 0, 0], &Example::new(0, 0, 0)), 1);
}
