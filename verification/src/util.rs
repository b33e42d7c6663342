//! Collection of utility functions for various use cases.

use vstd::prelude::*;

verus! {

/// Transposes a two-dimensional vector: element `j` of input row `i` becomes
/// element `i` of output row `j`. All input rows must have the length of the
/// first row.
pub fn transpose_vec<Item: Copy>(elements: &[Vec<Item>]) -> (r: Vec<Vec<Item>>)
    requires
        elements@.len() > 0,
        forall|i: int|
            0 <= i < elements@.len() ==> (#[trigger] elements@[i])@.len()
                == elements@[0]@.len(),
    ensures
        r@.len() == elements@[0]@.len(),
        forall|i: int| 0 <= i < r@.len() ==> (#[trigger] r@[i])@.len() == elements@.len(),
        forall|i: int, j: int|
            0 <= i < r@.len() && 0 <= j < elements@.len() ==> (#[trigger] r@[i]@[j])
                == elements@[j]@[i],
{
    let capacity = elements[0].len();
    let image_count = elements.len();

    let mut transformed: Vec<Vec<Item>> = Vec::new();
    let mut i: usize = 0;
    while i < capacity
        invariant
            i <= capacity,
            capacity == elements@[0]@.len(),
            image_count == elements@.len(),
            elements@.len() > 0,
            forall|ii: int|
                0 <= ii < elements@.len() ==> (#[trigger] elements@[ii])@.len() == capacity,
            transformed@.len() == i,
            forall|ii: int|
                0 <= ii < i ==> (#[trigger] transformed@[ii])@.len() == image_count,
            forall|ii: int, jj: int|
                0 <= ii < i && 0 <= jj < image_count ==> (#[trigger] transformed@[ii]@[jj])
                    == elements@[jj]@[ii],
        decreases capacity - i,
    {
        let mut row: Vec<Item> = Vec::new();
        let mut j: usize = 0;
        while j < image_count
            invariant
                i < capacity,
                j <= image_count,
                capacity == elements@[0]@.len(),
                image_count == elements@.len(),
                forall|ii: int|
                    0 <= ii < elements@.len() ==> (#[trigger] elements@[ii])@.len() == capacity,
                row@.len() == j,
                forall|jj: int| 0 <= jj < j ==> (#[trigger] row@[jj]) == elements@[jj]@[i as int],
            decreases image_count - j,
        {
            row.push(elements[j][i]);
            j = j + 1;
        }
        transformed.push(row);
        i = i + 1;
    }
    transformed
}

} // verus!
