//! The compute side of snapshot loading: turning deserialized raw records
//! into allocations with derived peak data, and validating what the loader
//! found in the archive (entry counts, shard names, shard completeness).
//! The actual file, zip and JSON work stays with the shell that calls in.
use crate::allocation::{peak_times_upto, seq_u64_max, Allocation, RawAllocationData};
use crate::strings::{digits_value, ends_with_str, is_u64_numeral, parse_u64, starts_with_str};
use vstd::prelude::*;

verus! {

/// Derive every allocation from its raw record, in order.
pub fn build_allocations(raws: Vec<RawAllocationData>) -> (allocs: Vec<Allocation>)
    requires
        forall|i: int| 0 <= i < raws@.len() ==> (#[trigger] raws@[i]).wf(),
    ensures
        allocs@.len() == raws@.len(),
        forall|i: int| 0 <= i < allocs@.len() ==> (#[trigger] allocs@[i]).wf(),
        forall|i: int|
            0 <= i < allocs@.len() ==> (#[trigger] allocs@[i]).timesteps@ == raws@[i].timesteps@
                && allocs@[i].offsets@ == raws@[i].offsets@ && allocs@[i].size == raws@[i].size,
        forall|i: int|
            0 <= i < allocs@.len() ==> (#[trigger] allocs@[i]).peak_mem == seq_u64_max(
                raws@[i].offsets@,
            ) + raws@[i].size,
        forall|i: int|
            0 <= i < allocs@.len() ==> (#[trigger] allocs@[i]).peak_timestamps@ == peak_times_upto(
                raws@[i].timesteps@,
                raws@[i].offsets@,
                seq_u64_max(raws@[i].offsets@),
                raws@[i].timesteps@.len() as int,
            ),
{
    let ghost orig = raws@;
    let mut raws = raws;
    let mut allocs: Vec<Allocation> = Vec::new();
    let n: usize = raws.len();
    let mut i: usize = 0;
    while i < n
        invariant
            n == orig.len(),
            raws@.len() == n - i,
            0 <= i <= n,
            forall|k: int| 0 <= k < raws@.len() ==> raws@[k] == orig[k + i],
            forall|k: int| 0 <= k < orig.len() ==> (#[trigger] orig[k]).wf(),
            allocs@.len() == i,
            forall|k: int| 0 <= k < i ==> (#[trigger] allocs@[k]).wf(),
            forall|k: int|
                0 <= k < i ==> (#[trigger] allocs@[k]).timesteps@ == orig[k].timesteps@
                    && allocs@[k].offsets@ == orig[k].offsets@ && allocs@[k].size == orig[k].size,
            forall|k: int|
                0 <= k < i ==> (#[trigger] allocs@[k]).peak_mem == seq_u64_max(orig[k].offsets@)
                    + orig[k].size,
            forall|k: int|
                0 <= k < i ==> (#[trigger] allocs@[k]).peak_timestamps@ == peak_times_upto(
                    orig[k].timesteps@,
                    orig[k].offsets@,
                    seq_u64_max(orig[k].offsets@),
                    orig[k].timesteps@.len() as int,
                ),
        decreases n - i,
    {
        let raw: RawAllocationData = raws.remove(0);
        let alloc: Allocation = raw.into_allocation();
        allocs.push(alloc);
        i = i + 1;
    }
    allocs
}

/// Whether the loader found a usable snapshot: one element entry per
/// allocation record, and at least one record.
pub fn entry_counts_usable(num_allocs: usize, num_elements: usize) -> (ok: bool)
    ensures
        ok == (num_allocs == num_elements && num_allocs > 0),
{
    num_allocs == num_elements && num_allocs > 0
}

/// Parse a sharded element file name of the form `elements_<idx>.json`,
/// yielding the shard index.
pub fn element_file_name(filename: &str) -> (r: Option<u64>)
    ensures
        match r {
            Some(idx) => {
                &&& filename@.len() > "elements_"@.len() + ".json"@.len()
                &&& filename@.take("elements_"@.len() as int) == "elements_"@
                &&& filename@.skip(filename@.len() - ".json"@.len()) == ".json"@
                &&& is_u64_numeral(
                    filename@.subrange(
                        "elements_"@.len() as int,
                        filename@.len() - ".json"@.len(),
                    ),
                )
                &&& idx == digits_value(
                    filename@.subrange(
                        "elements_"@.len() as int,
                        filename@.len() - ".json"@.len(),
                    ),
                )
            },
            None => true,
        },
{
    let n: usize = filename.unicode_len();
    let pn: usize = "elements_".unicode_len();
    let sn: usize = ".json".unicode_len();
    proof {
        reveal_strlit("elements_");
        reveal_strlit(".json");
        assert(pn == 9);
        assert(sn == 5);
    }
    if !starts_with_str(filename, "elements_") {
        return None;
    }
    if !ends_with_str(filename, ".json") {
        return None;
    }
    if n <= pn + sn {
        return None;
    }
    let middle: &str = filename.substring_char(pn, n - sn);
    parse_u64(middle)
}

/// Whether every shard index below `num_shard` occurs among the shard
/// indices the loader found.
pub fn all_shards_present(found: &Vec<u64>, num_shard: u64) -> (ok: bool)
    ensures
        ok == (forall|k: int| 0 <= k < num_shard ==> #[trigger] found@.contains(k as u64)),
{
    let mut k: u64 = 0;
    while k < num_shard
        invariant
            0 <= k <= num_shard,
            forall|j: int| 0 <= j < k ==> #[trigger] found@.contains(j as u64),
        decreases num_shard - k,
    {
        let mut hit: bool = false;
        let n: usize = found.len();
        let mut i: usize = 0;
        while i < n
            invariant
                n == found@.len(),
                0 <= i <= n,
                hit ==> found@.contains(k),
                !hit ==> forall|j: int| 0 <= j < i ==> #[trigger] found@[j] != k,
            decreases n - i,
        {
            if found[i] == k {
                hit = true;
            }
            i = i + 1;
        }
        if !hit {
            proof {
                assert(!found@.contains(k));
                assert(0 <= k < num_shard && !found@.contains((k as int) as u64));
            }
            return false;
        }
        k = k + 1;
    }
    true
}

} // verus!
