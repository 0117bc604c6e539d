//! Raw allocation records: a time-interval/byte-interval rectangle per
//! allocation, as the external loader supplies them.
use crate::utils::{push_u64, push_u64_list, spec_format_bytes, u64_list_debug};
use vstd::prelude::*;

verus! {

/// One memory-interval record: a strictly ascending time trajectory, the
/// base offset during each interval, a constant height, and the derived peak
/// data.
pub struct Allocation {
    /// Time samples, strictly ascending; length at least two.
    pub timesteps: Vec<u64>,
    /// Base offset during the interval ending at the matching time sample;
    /// same length as `timesteps`.
    pub offsets: Vec<u64>,
    /// Constant interval height (bytes) over the allocation's lifetime.
    pub size: u64,
    /// Largest offset plus `size`.
    pub peak_mem: u64,
    /// The time samples at which the largest offset is reached.
    pub peak_timestamps: Vec<u64>,
}

/// Largest value in a sequence (zero for an empty one).
pub open spec fn seq_u64_max(s: Seq<u64>) -> int
    decreases s.len(),
{
    if s.len() == 0 {
        0
    } else {
        let rest = seq_u64_max(s.drop_last());
        if s.last() as int > rest {
            s.last() as int
        } else {
            rest
        }
    }
}

/// The time samples among the first `n` whose offset equals `peak`, in
/// order.
pub open spec fn peak_times_upto(ts: Seq<u64>, offs: Seq<u64>, peak: int, n: int) -> Seq<u64>
    decreases n,
{
    if n <= 0 {
        Seq::empty()
    } else {
        let prefix = peak_times_upto(ts, offs, peak, n - 1);
        if offs[n - 1] == peak {
            prefix.push(ts[n - 1])
        } else {
            prefix
        }
    }
}

/// Every element of a sequence is at most its maximum.
pub proof fn lemma_seq_u64_max_ge(s: Seq<u64>, i: int)
    requires
        0 <= i < s.len(),
    ensures
        s[i] <= seq_u64_max(s),
    decreases s.len(),
{
    if i + 1 < s.len() {
        lemma_seq_u64_max_ge(s.drop_last(), i);
    }
}

impl Allocation {
    /// Invariant of a loaded record: index-aligned trajectories of length at
    /// least two, strictly ascending time samples.
    pub open spec fn wf(self) -> bool {
        &&& self.timesteps@.len() == self.offsets@.len()
        &&& self.timesteps@.len() >= 2
        &&& forall|i: int, j: int|
            0 <= i < j < self.timesteps@.len() ==> #[trigger] self.timesteps@[i]
                < #[trigger] self.timesteps@[j]
    }

    /// Whether the allocation is alive at `timestamp`: inside its closed
    /// time range.
    pub fn is_alive_at(&self, timestamp: u64) -> (alive: bool)
        requires
            self.wf(),
        ensures
            alive == (self.timesteps@[0] <= timestamp
                <= self.timesteps@[self.timesteps@.len() - 1]),
    {
        let n: usize = self.timesteps.len();
        self.timesteps[0] <= timestamp && timestamp <= self.timesteps[n - 1]
    }

    /// Whether the allocation is alive at both ends of `[start, stop]`.
    pub fn is_alive_in_interval(&self, start: u64, stop: u64) -> (alive: bool)
        requires
            self.wf(),
        ensures
            alive == ((self.timesteps@[0] <= start <= self.timesteps@[self.timesteps@.len() - 1])
                && (self.timesteps@[0] <= stop <= self.timesteps@[self.timesteps@.len() - 1])),
    {
        self.is_alive_at(start) && self.is_alive_at(stop)
    }

    /// The human-readable details block shown when an allocation is
    /// inspected.
    pub open spec fn spec_summary(self) -> Seq<char> {
        "Allocation Details:\n"@ + "|- Size: "@ + spec_format_bytes(self.size as int, 2) + seq![
            '\n',
        ] + "|- Peak Memory: "@ + spec_format_bytes(self.peak_mem as int, 2) + seq!['\n']
            + "|- Peak Timestamps: "@ + u64_list_debug(self.peak_timestamps@) + seq!['\n']
            + "|- Timesteps: start "@ + crate::utils::dec_digits(self.timesteps@[0] as nat)
            + ", stop "@ + crate::utils::dec_digits(
            self.timesteps@[self.timesteps@.len() - 1] as nat,
        ) + seq!['\n'] + "|- Offsets: omitted\n"@
    }

    /// Render the details block: size, peak memory, peak time samples, and
    /// the time range (offsets are omitted).
    pub fn summary(&self) -> (r: String)
        requires
            self.wf(),
            self.size <= 0x7fffffffffffffff,
            self.peak_mem <= 0x7fffffffffffffff,
        ensures
            r@ == self.spec_summary(),
    {
        let mut out: String = String::new();
        out.append("Allocation Details:\n");
        out.append("|- Size: ");
        let size_text: String = crate::utils::format_bytes(self.size as i64);
        out.append(size_text.as_str());
        out.append("\n");
        out.append("|- Peak Memory: ");
        let peak_text: String = crate::utils::format_bytes(self.peak_mem as i64);
        out.append(peak_text.as_str());
        out.append("\n");
        out.append("|- Peak Timestamps: ");
        push_u64_list(&mut out, &self.peak_timestamps);
        out.append("\n");
        out.append("|- Timesteps: start ");
        push_u64(&mut out, self.timesteps[0]);
        out.append(", stop ");
        let n: usize = self.timesteps.len();
        push_u64(&mut out, self.timesteps[n - 1]);
        out.append("\n");
        out.append("|- Offsets: omitted\n");
        proof {
            reveal_strlit("\n");
            assert(out@ =~= self.spec_summary());
        }
        out
    }

    /// First and last time sample.
    pub fn start_end_time(&self) -> (r: (u64, u64))
        requires
            self.wf(),
        ensures
            r.0 == self.timesteps@[0],
            r.1 == self.timesteps@[self.timesteps@.len() - 1],
    {
        let n: usize = self.timesteps.len();
        (self.timesteps[0], self.timesteps[n - 1])
    }
}

/// An allocation record as deserialized from the snapshot, before the peak
/// data is derived.
pub struct RawAllocationData {
    pub timesteps: Vec<u64>,
    pub offsets: Vec<u64>,
    pub size: u64,
}

/// Largest value in a vector (zero for an empty one).
pub fn max_value_u64(v: &Vec<u64>) -> (m: u64)
    ensures
        m == seq_u64_max(v@),
{
    let n: usize = v.len();
    let mut m: u64 = 0;
    let mut i: usize = 0;
    while i < n
        invariant
            n == v@.len(),
            0 <= i <= n,
            m == seq_u64_max(v@.take(i as int)),
        decreases n - i,
    {
        proof {
            assert(v@.take(i + 1).drop_last() =~= v@.take(i as int));
            assert(v@.take(i + 1).last() == v@[i as int]);
        }
        if v[i] > m {
            m = v[i];
        }
        i = i + 1;
    }
    proof {
        assert(v@.take(n as int) =~= v@);
    }
    m
}

impl RawAllocationData {
    /// Invariant of a raw record (same as the loaded one, plus headroom so
    /// the peak fits a machine word).
    pub open spec fn wf(self) -> bool {
        &&& self.timesteps@.len() == self.offsets@.len()
        &&& self.timesteps@.len() >= 2
        &&& forall|i: int, j: int|
            0 <= i < j < self.timesteps@.len() ==> #[trigger] self.timesteps@[i]
                < #[trigger] self.timesteps@[j]
        &&& seq_u64_max(self.offsets@) + self.size <= u64::MAX
    }

    /// Derive the peak data: the peak is the largest offset plus the size,
    /// and the peak time samples are those whose offset equals the largest
    /// offset.
    pub fn into_allocation(self) -> (a: Allocation)
        requires
            self.wf(),
        ensures
            a.wf(),
            a.timesteps@ == self.timesteps@,
            a.offsets@ == self.offsets@,
            a.size == self.size,
            a.peak_mem == seq_u64_max(self.offsets@) + self.size,
            a.peak_timestamps@ == peak_times_upto(
                self.timesteps@,
                self.offsets@,
                seq_u64_max(self.offsets@),
                self.timesteps@.len() as int,
            ),
    {
        let n: usize = self.offsets.len();
        let peak_base: u64 = max_value_u64(&self.offsets);

        let mut peak_timestamps: Vec<u64> = Vec::new();
        let mut j: usize = 0;
        while j < n
            invariant
                n == self.offsets@.len(),
                n == self.timesteps@.len(),
                0 <= j <= n,
                peak_base == seq_u64_max(self.offsets@),
                peak_timestamps@ == peak_times_upto(
                    self.timesteps@,
                    self.offsets@,
                    peak_base as int,
                    j as int,
                ),
            decreases n - j,
        {
            if self.offsets[j] == peak_base {
                peak_timestamps.push(self.timesteps[j]);
            }
            j = j + 1;
        }

        let peak_mem: u64 = peak_base + self.size;
        Allocation {
            timesteps: self.timesteps,
            offsets: self.offsets,
            size: self.size,
            peak_mem,
            peak_timestamps,
        }
    }
}

} // verus!
