//! Parameters of the vector index that a dataset builds.

use vstd::prelude::*;

verus! {

/// How many IVF partitions an index over `num_rows` rows uses: a quarter of
/// the rows, and at least one, below 256 rows; 256 from there on.
pub open spec fn ivf_partitions(num_rows: nat) -> nat {
    if num_rows < 256 {
        if num_rows / 4 >= 1 {
            num_rows / 4
        } else {
            1
        }
    } else {
        256
    }
}

/// The number of IVF partitions for a vector index over `num_rows` rows.
pub fn ivf_partition_count(num_rows: usize) -> (r: usize)
    ensures
        r == ivf_partitions(num_rows as nat),
        1 <= r <= 256,
{
    if num_rows < 256 {
        let quarter = num_rows / 4;
        if quarter >= 1 {
            quarter
        } else {
            1
        }
    } else {
        256
    }
}

} // verus!
