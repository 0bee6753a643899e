//! Partition of a list of files into consecutive batches of bounded size.

use vstd::prelude::*;

verus! {

/// A run of consecutive positions, from `start` up to but not including
/// `end`.
#[derive(Debug, Clone, Copy, PartialEq, Eq, Structural)]
pub struct Batch {
    pub start: usize,
    pub end: usize,
}

/// Whether `batches` cuts the positions `0..total` into consecutive, non-empty
/// runs of at most `limit` positions, each but the last of exactly `limit`.
/// For a given `total` and `limit` there is one such sequence.
pub open spec fn is_partition(batches: Seq<Batch>, total: int, limit: int) -> bool {
    &&& (batches.len() == 0 <==> total == 0)
    &&& batches.len() > 0 ==> batches[0].start == 0 && batches[batches.len() - 1].end == total
    &&& forall|j: int|
        0 <= j < batches.len() ==> (#[trigger] batches[j]).start < batches[j].end
            && batches[j].end - batches[j].start <= limit
    &&& forall|j: int|
        0 <= j < batches.len() - 1 ==> (#[trigger] batches[j]).end == batches[j + 1].start
            && batches[j].end - batches[j].start == limit
}

/// Cuts the positions `0..total` into batches of at most `limit`: the batch
/// at place `j` begins at `j * limit`, and there are as many batches as it
/// takes to reach `total`.
pub fn plan_batches(total: usize, limit: usize) -> (batches: Vec<Batch>)
    requires
        limit >= 1,
    ensures
        is_partition(batches@, total as int, limit as int),
        forall|j: int| 0 <= j < batches@.len() ==> (#[trigger] batches@[j]).start == j * limit,
        total <= batches@.len() * limit,
        batches@.len() > 0 ==> (batches@.len() - 1) * limit < total,
{
    let mut batches: Vec<Batch> = Vec::new();
    let mut start: usize = 0;
    while start < total
        invariant
            limit >= 1,
            start <= total,
            batches@.len() == 0 <==> start == 0,
            batches@.len() > 0 ==> batches@[0].start == 0 && batches@[batches@.len() - 1].end
                == start,
            forall|j: int|
                0 <= j < batches@.len() ==> (#[trigger] batches@[j]).start < batches@[j].end
                    && batches@[j].end - batches@[j].start <= limit,
            forall|j: int|
                0 <= j < batches@.len() - 1 ==> (#[trigger] batches@[j]).end == batches@[j
                    + 1].start,
            forall|j: int|
                0 <= j < batches@.len() && (j < batches@.len() - 1 || start < total) ==> (
                #[trigger] batches@[j]).end - batches@[j].start == limit,
            forall|j: int| 0 <= j < batches@.len() ==> (#[trigger] batches@[j]).start == j * limit,
            start < total ==> start == batches@.len() * limit,
        decreases total - start,
    {
        let end = if total - start <= limit {
            total
        } else {
            start + limit
        };
        proof {
            let n = batches@.len() as int;
            assert((n + 1) * limit == n * limit + limit) by (nonlinear_arith);
        }
        batches.push(Batch { start, end });
        start = end;
    }
    proof {
        let n = batches@.len() as int;
        if n > 0 {
            assert((n - 1) * limit + limit == n * limit) by (nonlinear_arith);
        } else {
            assert(0 * limit == 0) by (nonlinear_arith);
        }
    }
    batches
}

} // verus!
