//! Per-file results of a batch run and the report that sums them up.
use vstd::prelude::*;

verus! {

/// The outcome of processing one input file.
pub struct ProcessItemResult {
    pub input_path: String,
    pub output_path: Option<String>,
    pub success: bool,
    pub error: Option<String>,
    pub duration_ms: u128,
}

/// The summary of a batch run.
pub struct ProcessReport {
    pub total_files: usize,
    pub successful: usize,
    pub failed: usize,
    pub duration_ms: u128,
    pub items: Vec<ProcessItemResult>,
}

/// How many of `items` succeeded.
pub open spec fn count_successes(items: Seq<ProcessItemResult>) -> nat
    decreases items.len(),
{
    if items.len() == 0 {
        0
    } else {
        count_successes(items.drop_last()) + if items.last().success {
            1nat
        } else {
            0nat
        }
    }
}

proof fn lemma_count_successes_bound(items: Seq<ProcessItemResult>)
    ensures
        count_successes(items) <= items.len(),
    decreases items.len(),
{
    if items.len() > 0 {
        lemma_count_successes_bound(items.drop_last());
    }
}

/// Sums up a batch run: every item is counted as a success or a failure,
/// except in a dry run, which writes nothing and counts neither.
pub fn summarize_batch(items: Vec<ProcessItemResult>, dry_run: bool, duration_ms: u128) -> (r: ProcessReport)
    ensures
        r.total_files == items@.len(),
        r.items@ == items@,
        r.duration_ms == duration_ms,
        dry_run ==> r.successful == 0 && r.failed == 0,
        !dry_run ==> r.successful == count_successes(items@),
        !dry_run ==> r.failed == items@.len() - count_successes(items@),
        !dry_run ==> r.successful + r.failed == r.total_files,
{
    let total_files = items.len();
    let mut successful: usize = 0;
    let mut failed: usize = 0;
    if !dry_run {
        let mut i: usize = 0;
        while i < items.len()
            invariant
                i <= items@.len(),
                successful == count_successes(items@.take(i as int)),
                successful + failed == i,
            decreases items@.len() - i,
        {
            let ghost pre = items@.take(i as int);
            assert(items@.take(i + 1).drop_last() =~= pre);
            proof {
                lemma_count_successes_bound(pre);
            }
            if items[i].success {
                successful = successful + 1;
            } else {
                failed = failed + 1;
            }
            i = i + 1;
        }
        assert(items@.take(items@.len() as int) =~= items@);
    }
    ProcessReport { total_files, successful, failed, duration_ms, items }
}

} // verus!
