//! The labelled examples of a two-input boolean operator.

use vstd::prelude::*;

verus! {

/// One labelled example: two inputs and the label expected for them. In the
/// tables of this module each of the three is zero or one.
#[derive(Clone, Copy, Debug, PartialEq, Eq, Structural)]
pub struct Example {
    pub a: i32,
    pub b: i32,
    pub expected: i32,
}

/// The boolean operator whose truth table serves as the dataset.
#[derive(Clone, Copy, Debug, PartialEq, Eq, Structural)]
pub enum Operator {
    And,
    Or,
}

/// The four examples a candidate is scored against, in a fixed order.
#[derive(Clone, Copy, Debug, PartialEq, Eq)]
pub struct Dataset {
    pub examples: [Example; 4],
}

/// The name an operator is selected and printed by.
pub open spec fn name_of(op: Operator) -> Seq<char> {
    match op {
        Operator::And => "AND"@,
        Operator::Or => "OR"@,
    }
}

/// The operator that a name selects: AND for the name "AND", OR for every
/// other name.
pub open spec fn named(name: Seq<char>) -> Operator {
    if name == "AND"@ {
        Operator::And
    } else {
        Operator::Or
    }
}

/// Selecting an operator by its own name gives that operator.
pub proof fn lemma_named_by_own_name(op: Operator)
    ensures
        named(name_of(op)) == op,
{
    reveal_strlit("AND");
    reveal_strlit("OR");
    assert("AND"@.len() == 3);
    assert("OR"@.len() == 2);
}

impl Operator {
    /// The operator that `name` selects.
    pub fn from_name(name: &str) -> (op: Operator)
        ensures
            op == named(name@),
    {
        let given = name.to_owned();
        let and = "AND".to_owned();
        if given == and {
            Operator::And
        } else {
            Operator::Or
        }
    }

    /// The name of the operator.
    pub fn name(&self) -> (text: &'static str)
        ensures
            text@ == name_of(*self),
    {
        match self {
            Operator::And => "AND",
            Operator::Or => "OR",
        }
    }
}

/// The value of `op` on two inputs that are zero or one.
pub open spec fn truth(op: Operator, a: int, b: int) -> int {
    match op {
        Operator::And => if a == 1 && b == 1 {
            1
        } else {
            0
        },
        Operator::Or => if a == 1 || b == 1 {
            1
        } else {
            0
        },
    }
}

/// The example that pairs two inputs with the value of `op` on them.
pub open spec fn row(op: Operator, a: int, b: int) -> Example {
    Example { a: a as i32, b: b as i32, expected: truth(op, a, b) as i32 }
}

/// The truth table of `op`: the input pairs (1,1), (1,0), (0,1), (0,0), in
/// this order, each with the operator's value.
pub open spec fn table(op: Operator) -> Seq<Example> {
    seq![row(op, 1, 1), row(op, 1, 0), row(op, 0, 1), row(op, 0, 0)]
}

impl View for Dataset {
    type V = Seq<Example>;

    open spec fn view(&self) -> Seq<Example> {
        self.examples@
    }
}

impl Example {
    /// The example with the given inputs and expected label.
    pub fn new(a: i32, b: i32, expected: i32) -> (example: Example)
        ensures
            example == (Example { a, b, expected }),
    {
        Example { a, b, expected }
    }
}

impl Dataset {
    /// A dataset of four examples chosen by the caller.
    pub fn new(examples: [Example; 4]) -> (dataset: Dataset)
        ensures
            dataset.examples == examples,
            dataset@ == examples@,
    {
        Dataset { examples }
    }

    /// The truth table of `op`.
    pub fn for_operator(op: Operator) -> (dataset: Dataset)
        ensures
            dataset@ == table(op),
    {
        let examples = match op {
            Operator::And => [
                Example::new(1, 1, 1),
                Example::new(1, 0, 0),
                Example::new(0, 1, 0),
                Example::new(0, 0, 0),
            ],
            Operator::Or => [
                Example::new(1, 1, 1),
                Example::new(1, 0, 1),
                Example::new(0, 1, 1),
                Example::new(0, 0, 0),
            ],
        };
        assert(examples@ =~= table(op));
        Dataset { examples }
    }
}

} // verus!
