//! A labelled training example and its one-hot target.

use crate::error::NetworkError;
use crate::number::ONE;
use crate::number::ZERO;
use vstd::prelude::*;

verus! {

/// The target for class `index` among `num` classes: `1.0` at `index` and
/// `0.0` elsewhere.
pub open spec fn one_hot(index: usize, num: usize) -> Seq<u32> {
    Seq::new(
        num as nat,
        |k: int|
            if k == index {
                ONE
            } else {
                ZERO
            },
    )
}

/// A labelled example: the inputs, the class they belong to, and the
/// outputs that a network should give for them.
#[derive(Clone, Debug)]
pub struct DataPoint {
    pub inputs: Vec<u32>,
    pub expected_outputs: Vec<u32>,
    pub label: usize,
}

impl DataPoint {
    /// A point is well formed when its target is the one-hot vector of its
    /// label.
    pub open spec fn wf(&self) -> bool {
        &&& self.label < self.expected_outputs@.len()
        &&& self.expected_outputs@ == one_hot(self.label, self.expected_outputs.len())
    }

    /// Builds a point for one of `num_labels` classes. A label that names
    /// no class is refused.
    pub fn new(inputs: Vec<u32>, label: usize, num_labels: usize) -> (made: Result<Self, NetworkError>)
        ensures
            label < num_labels ==> made is Ok,
            label >= num_labels ==> made == Err::<Self, NetworkError>(NetworkError::LabelOutOfRange),
            made is Ok ==> {
                let point = made->Ok_0;
                &&& point.wf()
                &&& point.inputs == inputs
                &&& point.label == label
                &&& point.expected_outputs@ == one_hot(label, num_labels)
            },
    {
        if label >= num_labels {
            return Err(NetworkError::LabelOutOfRange);
        }
        Ok(DataPoint { inputs, label, expected_outputs: Self::create_one_hot(label, num_labels) })
    }

    /// Builds the one-hot target of a class.
    fn create_one_hot(index: usize, num: usize) -> (target: Vec<u32>)
        requires
            index < num,
        ensures
            target@ == one_hot(index, num),
    {
        let mut target: Vec<u32> = Vec::new();
        let mut k: usize = 0;
        while k < num
            invariant
                k <= num,
                target@.len() == k,
                forall|j: int| 0 <= j < k ==> target@[j] == ZERO,
            decreases num - k,
        {
            target.push(ZERO);
            k += 1;
        }
        target[index] = ONE;
        assert(target@ =~= one_hot(index, num));
        target
    }
}

/// A one-hot vector has one entry for each class, `1.0` at the label and
/// `0.0` at every other position.
pub proof fn one_hot_marks_the_label_alone(label: usize, num_labels: usize)
    requires
        label < num_labels,
    ensures
        one_hot(label, num_labels).len() == num_labels,
        one_hot(label, num_labels)[label as int] == ONE,
        forall|k: int| 0 <= k < num_labels && k != label ==> one_hot(label, num_labels)[k] == ZERO,
        ONE != ZERO,
{
}

} // verus!
