//! The deadline/partition scheduler: maps a miner's proving-period epoch to
//! provable time windows, packs committed sectors into fixed-size partitions
//! within those windows, and resolves partition index ranges.

use vstd::prelude::*;

use crate::bitfield::{BitField, seq_insert, seq_insert_all, sorted};

verus! {

/// Number of challenge windows in one proving period.
pub const WPOST_PERIOD_DEADLINES: usize = 48;

/// Length of one proving period, in epochs.
pub const WPOST_PROVING_PERIOD: i64 = 2880;

/// Length of one challenge window, in epochs.
pub const WPOST_CHALLENGE_WINDOW: i64 = 60;

/// How far before a window opens its challenge randomness is drawn.
pub const WPOST_CHALLENGE_LOOKBACK: i64 = 20;

/// How far before a window opens faults for it must be declared.
pub const FAULT_DECLARATION_CUTOFF: i64 = WPOST_CHALLENGE_LOOKBACK + 50;

/// Deadline descriptor: one challenge window of a proving period, derived
/// purely from the period's start epoch and the current epoch.
#[derive(Clone, Copy, Debug, PartialEq, Eq, Structural)]
pub struct DeadlineInfo {
    /// Epoch the descriptor was computed at.
    pub current_epoch: i64,
    /// First epoch of the proving period.
    pub period_start: i64,
    /// Window index; equals `WPOST_PERIOD_DEADLINES` once the period has
    /// fully elapsed.
    pub index: usize,
    /// First epoch of the window.
    pub open: i64,
    /// First epoch after the window.
    pub close: i64,
    /// Epoch the window's challenge randomness is drawn at.
    pub challenge: i64,
    /// First epoch at which faults for the window can no longer be declared.
    pub fault_cutoff: i64,
}

/// The machine limits under which the deadline arithmetic stays inside
/// 64-bit epochs; every realistic chain epoch satisfies them.
pub open spec fn deadline_inputs_ok(period_start: int, current_epoch: int) -> bool {
    &&& period_start - FAULT_DECLARATION_CUTOFF >= i64::MIN
    &&& period_start + WPOST_PROVING_PERIOD + WPOST_CHALLENGE_WINDOW <= i64::MAX
    &&& current_epoch - period_start <= i64::MAX
}

/// Window index of `current_epoch` within the period starting at
/// `period_start`: elapsed epochs divided by the window length, capped at the
/// past-all-windows sentinel.
pub open spec fn spec_deadline_index(period_start: int, current_epoch: int) -> int {
    if current_epoch < period_start {
        0
    } else {
        let q = (current_epoch - period_start) / (WPOST_CHALLENGE_WINDOW as int);
        if q < WPOST_PERIOD_DEADLINES as int {
            q
        } else {
            WPOST_PERIOD_DEADLINES as int
        }
    }
}

/// Opening epoch of that window, extrapolated consistently when the period
/// has fully elapsed.
pub open spec fn spec_deadline_open(period_start: int, current_epoch: int) -> int {
    period_start + spec_deadline_index(period_start, current_epoch) * WPOST_CHALLENGE_WINDOW
}

/// What `compute_proving_period_deadline` returns for the given inputs: the
/// whole descriptor is pinned, field by field. Once the period has fully
/// elapsed the sentinel window has no duration.
pub open spec fn is_deadline_info_for(d: DeadlineInfo, period_start: i64, current_epoch: i64) -> bool {
    &&& d.current_epoch == current_epoch
    &&& d.period_start == period_start
    &&& d.index == spec_deadline_index(period_start as int, current_epoch as int)
    &&& d.open == spec_deadline_open(period_start as int, current_epoch as int)
    &&& d.close == if d.index == WPOST_PERIOD_DEADLINES {
        d.open as int
    } else {
        d.open + WPOST_CHALLENGE_WINDOW
    }
    &&& d.challenge == d.open - WPOST_CHALLENGE_LOOKBACK
    &&& d.fault_cutoff == d.open - FAULT_DECLARATION_CUTOFF
}

/// Computes the deadline descriptor for `current_epoch` within the proving
/// period starting at `period_start`. The period need not have started:
/// before `period_start` the first window is reported, not yet open.
pub fn compute_proving_period_deadline(period_start: i64, current_epoch: i64) -> (r: DeadlineInfo)
    requires
        deadline_inputs_ok(period_start as int, current_epoch as int),
    ensures
        is_deadline_info_for(r, period_start, current_epoch),
        // Until the period has fully elapsed, the window has the fixed
        // shape around its opening epoch; the sentinel past all windows
        // has no duration.
        r.index < WPOST_PERIOD_DEADLINES ==> r.close - r.open == WPOST_CHALLENGE_WINDOW,
        r.index == WPOST_PERIOD_DEADLINES ==> r.close == r.open,
        r.challenge == r.open - WPOST_CHALLENGE_LOOKBACK,
        r.fault_cutoff == r.open - FAULT_DECLARATION_CUTOFF,
        // Before the period starts, the first window is reported at the
        // period's start.
        current_epoch < period_start ==> r.index == 0 && r.open == period_start,
        r.index <= WPOST_PERIOD_DEADLINES,
{
    let sentinel: u64 = WPOST_PERIOD_DEADLINES as u64;
    let (index, open): (usize, i64) = if current_epoch < period_start {
        (0, period_start)
    } else {
        let elapsed: u64 = (current_epoch - period_start) as u64;
        let q: u64 = elapsed / (WPOST_CHALLENGE_WINDOW as u64);
        let idx: u64 = if q < sentinel {
            q
        } else {
            sentinel
        };
        (idx as usize, period_start + (idx as i64) * WPOST_CHALLENGE_WINDOW)
    };
    DeadlineInfo {
        current_epoch,
        period_start,
        index,
        open,
        close: if index == WPOST_PERIOD_DEADLINES {
            open
        } else {
            open + WPOST_CHALLENGE_WINDOW
        },
        challenge: open - WPOST_CHALLENGE_LOOKBACK,
        fault_cutoff: open - FAULT_DECLARATION_CUTOFF,
    }
}

/// The deadline descriptor is a pure function of its two epoch inputs: any
/// two descriptors computed for the same inputs are identical.
pub proof fn lemma_compute_deadline_deterministic(
    d1: DeadlineInfo,
    d2: DeadlineInfo,
    period_start: i64,
    current_epoch: i64,
)
    requires
        is_deadline_info_for(d1, period_start, current_epoch),
        is_deadline_info_for(d2, period_start, current_epoch),
    ensures
        d1 == d2,
{
}

impl DeadlineInfo {
    /// The period has started at the epoch this descriptor was computed at.
    pub fn period_started(&self) -> (r: bool)
        ensures
            r == (self.current_epoch >= self.period_start),
    {
        self.current_epoch >= self.period_start
    }

    /// Every window of the period has closed.
    pub fn period_elapsed(&self) -> (r: bool)
        ensures
            r == (self.index == WPOST_PERIOD_DEADLINES),
    {
        self.index == WPOST_PERIOD_DEADLINES
    }

    /// The current epoch lies inside the window.
    pub fn is_open(&self) -> (r: bool)
        ensures
            r == (self.open <= self.current_epoch && self.current_epoch < self.close),
    {
        self.open <= self.current_epoch && self.current_epoch < self.close
    }

    /// The window has already closed.
    pub fn has_elapsed(&self) -> (r: bool)
        ensures
            r == (self.current_epoch >= self.close),
    {
        self.current_epoch >= self.close
    }

    /// Faults for this window can no longer be declared.
    pub fn fault_cutoff_passed(&self) -> (r: bool)
        ensures
            r == (self.current_epoch >= self.fault_cutoff),
    {
        self.current_epoch >= self.fault_cutoff
    }

    /// Last epoch of the proving period.
    pub fn period_end(&self) -> (r: i64)
        requires
            self.period_start + WPOST_PROVING_PERIOD <= i64::MAX,
        ensures
            r == self.period_start + WPOST_PROVING_PERIOD - 1,
    {
        self.period_start + WPOST_PROVING_PERIOD - 1
    }

    /// First epoch of the following proving period.
    pub fn next_period_start(&self) -> (r: i64)
        requires
            self.period_start + WPOST_PROVING_PERIOD <= i64::MAX,
        ensures
            r == self.period_start + WPOST_PROVING_PERIOD,
    {
        self.period_start + WPOST_PROVING_PERIOD
    }
}

/// Scheduler errors; all of the illegal-argument class.
#[derive(Clone, Copy, Debug, PartialEq, Eq, Structural)]
pub enum DeadlineError {
    /// A deadline index at or past the number of windows in a period.
    InvalidDeadline { deadline: u64 },
    /// A partition index outside the range a deadline currently occupies;
    /// carries the deadline, the offending index, the deadline's first
    /// partition index and its sector count.
    InvalidPartition { deadline: u64, partition: u64, first: u64, count: u64 },
    /// No deadline has room left for another sector.
    DeadlinesFull,
}

/// One sector set per challenge window of the proving period. A sector
/// number is meant to appear in at most one window's set.
#[derive(Clone, Debug)]
pub struct Deadlines {
    pub due: Vec<BitField>,
}

impl Deadlines {
    /// Well-formed: one set per window, each sorted.
    pub open spec fn wf(&self) -> bool {
        &&& self.due@.len() == WPOST_PERIOD_DEADLINES
        &&& forall|d: int| 0 <= d < self.due@.len() ==> (#[trigger] self.due@[d]).wf()
    }

    /// All sector sets, as sequences of sector numbers.
    pub open spec fn views(&self) -> Seq<Seq<u64>> {
        self.due@.map_values(|b: BitField| b@)
    }

    /// Empty schedule: every window's sector set is empty.
    pub fn new() -> (r: Deadlines)
        ensures
            r.wf(),
            forall|d: int| 0 <= d < WPOST_PERIOD_DEADLINES ==> (#[trigger] r.due@[d])@.len() == 0,
    {
        let mut due: Vec<BitField> = Vec::new();
        let mut i: usize = 0;
        while i < WPOST_PERIOD_DEADLINES
            invariant
                i <= WPOST_PERIOD_DEADLINES,
                due@.len() == i,
                forall|d: int| 0 <= d < i ==> (#[trigger] due@[d])@.len() == 0 && due@[d].wf(),
            decreases WPOST_PERIOD_DEADLINES - i,
        {
            due.push(BitField::new());
            i = i + 1;
        }
        Deadlines { due }
    }

    /// An identical copy.
    pub fn copied(&self) -> (r: Deadlines)
        ensures
            r.due@.len() == self.due@.len(),
            forall|d: int| 0 <= d < self.due@.len()
                ==> (#[trigger] r.due@[d])@ == self.due@[d]@,
            self.wf() ==> r.wf(),
    {
        let mut due: Vec<BitField> = Vec::new();
        let mut i: usize = 0;
        while i < self.due.len()
            invariant
                i <= self.due@.len(),
                due@.len() == i,
                forall|d: int| 0 <= d < i ==> (#[trigger] due@[d])@ == self.due@[d]@,
            decreases self.due@.len() - i,
        {
            let bits: Vec<u64> = copy_u64_vec(&self.due[i].bits);
            due.push(BitField { bits });
            i = i + 1;
        }
        Deadlines { due }
    }

    /// Adds the given sector numbers to the set of one window.
    pub fn add_to_deadline(&mut self, deadline: usize, new_sectors: &[u64]) -> (r: Result<
        (),
        DeadlineError,
    >)
        requires
            old(self).wf(),
        ensures
            final(self).wf(),
            r is Ok <==> deadline < WPOST_PERIOD_DEADLINES,
            r is Ok ==> final(self).due@[deadline as int]@
                == seq_insert_all(old(self).due@[deadline as int]@, new_sectors@),
            r is Ok ==> forall|d: int|
                0 <= d < WPOST_PERIOD_DEADLINES && d != deadline
                    ==> (#[trigger] final(self).due@[d])@ == old(self).due@[d]@,
            r is Err ==> *final(self) == *old(self),
            r is Err ==> r == Err::<(), DeadlineError>(DeadlineError::InvalidDeadline {
                deadline: deadline as u64,
            }),
    {
        if deadline >= WPOST_PERIOD_DEADLINES {
            return Err(DeadlineError::InvalidDeadline { deadline: deadline as u64 });
        }
        let mut bf = BitField { bits: copy_u64_vec(&self.due[deadline].bits) };
        let ghost orig = self.due@[deadline as int]@;
        let mut i: usize = 0;
        while i < new_sectors.len()
            invariant
                i <= new_sectors@.len(),
                bf.wf(),
                bf@ == seq_insert_all(orig, new_sectors@.take(i as int)),
                sorted(orig),
            decreases new_sectors@.len() - i,
        {
            proof {
                lemma_seq_insert_all_take(orig, new_sectors@, i as int);
            }
            bf.insert(new_sectors[i]);
            i = i + 1;
        }
        proof {
            assert(new_sectors@.take(new_sectors@.len() as int) == new_sectors@);
        }
        self.due[deadline] = bf;
        Ok(())
    }
}

/// Unrolling one step of `seq_insert_all` at the back of a prefix.
proof fn lemma_seq_insert_all_take(s: Seq<u64>, nums: Seq<u64>, i: int)
    requires
        0 <= i < nums.len(),
    ensures
        seq_insert_all(s, nums.take(i + 1))
            == seq_insert(seq_insert_all(s, nums.take(i)), nums[i]),
    decreases i,
{
    if i == 0 {
        assert(nums.take(1).len() == 1);
        assert(nums.take(1)[0] == nums[0]);
        assert(nums.take(1).drop_first() =~= nums.take(0));
        assert(seq_insert_all(s, nums.take(1))
            == seq_insert_all(seq_insert(s, nums[0]), nums.take(0)));
    } else {
        let t = nums.drop_first();
        assert(nums.take(i + 1).len() == i + 1);
        assert(nums.take(i + 1)[0] == nums[0]);
        assert(nums.take(i + 1).drop_first() =~= t.take(i));
        assert(nums.take(i).drop_first() =~= t.take(i - 1));
        assert(nums.take(i)[0] == nums[0]);
        lemma_seq_insert_all_take(seq_insert(s, nums[0]), t, i - 1);
        assert(t[i - 1] == nums[i]);
    }
}

/// An element-for-element copy of a vector of sector numbers.
fn copy_u64_vec(v: &Vec<u64>) -> (r: Vec<u64>)
    ensures
        r@ == v@,
{
    let mut r: Vec<u64> = Vec::new();
    let mut i: usize = 0;
    while i < v.len()
        invariant
            i <= v@.len(),
            r@ == v@.take(i as int),
        decreases v@.len() - i,
    {
        r.push(v[i]);
        proof {
            assert(r@ =~= v@.take(i + 1));
        }
        i = i + 1;
    }
    proof {
        assert(v@.take(v@.len() as int) == v@);
    }
    r
}

/// Number of partitions a sector count occupies: the count divided by the
/// partition size, rounded up.
pub open spec fn spec_partition_count(count: int, size: int) -> int {
    count / size + if count % size == 0 {
        0int
    } else {
        1int
    }
}

/// Index of the first partition of window `upto`: the sum of the partition
/// counts of all windows before it.
pub open spec fn spec_first_partition_index(due: Seq<Seq<u64>>, size: int, upto: int) -> int
    decreases upto,
{
    if upto <= 0 {
        0
    } else {
        spec_first_partition_index(due, size, upto - 1)
            + spec_partition_count(due[upto - 1].len() as int, size)
    }
}

/// Partition counts are non-negative, so first-partition indices grow with
/// the window index.
pub proof fn lemma_first_partition_index_monotonic(due: Seq<Seq<u64>>, size: int, i: int, j: int)
    requires
        size >= 1,
        0 <= i <= j,
    ensures
        spec_first_partition_index(due, size, i) <= spec_first_partition_index(due, size, j),
    decreases j - i,
{
    if i < j {
        lemma_first_partition_index_monotonic(due, size, i, j - 1);
        let c = due[j - 1].len() as int;
        assert(spec_partition_count(c, size) >= 0) by {
            assert(c / size >= 0) by (nonlinear_arith)
                requires c >= 0 && size >= 1;
        }
    }
}

/// On an all-empty schedule every window's first partition index is zero:
/// `partitions_for_deadline` returns `(0, 0)` for every deadline index.
pub proof fn lemma_partitions_for_deadline_empty(due: Seq<Seq<u64>>, size: int, upto: int)
    requires
        size >= 1,
        forall|d: int| 0 <= d < due.len() ==> (#[trigger] due[d]).len() == 0,
        upto <= due.len(),
    ensures
        spec_first_partition_index(due, size, upto) == 0,
    decreases upto,
{
    if upto > 0 {
        lemma_partitions_for_deadline_empty(due, size, upto - 1);
        assert(due[upto - 1].len() == 0);
        assert(spec_partition_count(0, size) == 0) by {
            assert(0int / size == 0 && 0int % size == 0) by (nonlinear_arith)
                requires size >= 1;
        }
    }
}

/// For window `deadline_index`, returns the index of its first partition
/// (counting the full and partial partitions of all earlier windows) and its
/// own sector count, undivided.
pub fn partitions_for_deadline(d: &Deadlines, partition_size: usize, deadline_index: usize) -> (r:
    Result<(u64, u64), DeadlineError>)
    requires
        d.wf(),
        partition_size >= 1,
        deadline_index < WPOST_PERIOD_DEADLINES,
        spec_first_partition_index(
            d.views(),
            partition_size as int,
            WPOST_PERIOD_DEADLINES as int,
        ) <= u64::MAX,
    ensures
        r matches Ok(p) && p.0 == spec_first_partition_index(
            d.views(),
            partition_size as int,
            deadline_index as int,
        ) && p.1 == d.due@[deadline_index as int]@.len(),
{
    let ghost views = d.views();
    let ghost size = partition_size as int;
    let mut first: u64 = 0;
    let mut i: usize = 0;
    while i < deadline_index
        invariant
            i <= deadline_index,
            deadline_index < WPOST_PERIOD_DEADLINES,
            d.wf(),
            partition_size >= 1,
            views == d.views(),
            size == partition_size as int,
            spec_first_partition_index(views, size, WPOST_PERIOD_DEADLINES as int) <= u64::MAX,
            first == spec_first_partition_index(views, size, i as int),
        decreases deadline_index - i,
    {
        let c: usize = d.due[i].len();
        let q: usize = c / partition_size;
        let rem: usize = c % partition_size;
        proof {
            assert(views[i as int] == d.due@[i as int]@);
            if rem != 0 {
                assert(c as int / size < c as int) by (nonlinear_arith)
                    requires c as int % size != 0 && size >= 1 && c >= 0;
            }
            lemma_first_partition_index_monotonic(views, size, i + 1, WPOST_PERIOD_DEADLINES as int);
        }
        let parts: u64 = q as u64 + if rem != 0 {
            1u64
        } else {
            0u64
        };
        proof {
            assert(parts == spec_partition_count(c as int, size));
        }
        first = first + parts;
        i = i + 1;
    }
    proof {
        assert(views[deadline_index as int] == d.due@[deadline_index as int]@);
    }
    Ok((first, d.due[deadline_index].len() as u64))
}

/// The sector numbers of partition `k` of a window: positions
/// `[k * size, k * size + size)` of the sorted set, clipped to its length.
pub open spec fn spec_partition_slice(s: Seq<u64>, size: int, k: int) -> Seq<u64> {
    let start = k * size;
    let end = if start + size <= s.len() {
        start + size
    } else {
        s.len() as int
    };
    s.subrange(start, end)
}

/// A partition index below the window's partition count starts strictly
/// inside the window's sector list.
proof fn lemma_partition_start_bound(count: int, size: int, k: int)
    requires
        size >= 1,
        count >= 0,
        0 <= k,
        k < spec_partition_count(count, size),
    ensures
        k * size < count,
{
    let q = count / size;
    let rem = count % size;
    vstd::arithmetic::div_mod::lemma_fundamental_div_mod(count, size);
    vstd::arithmetic::div_mod::lemma_mod_bound(count, size);
    if rem == 0 {
        assert(k <= q - 1);
        assert(k * size <= (q - 1) * size) by (nonlinear_arith)
            requires k <= q - 1 && size >= 1;
        assert((q - 1) * size == q * size - size) by (nonlinear_arith);
        assert(count == size * q + rem);
        assert(size * q == q * size) by (nonlinear_arith);
    } else {
        assert(k <= q);
        assert(k * size <= q * size) by (nonlinear_arith)
            requires k <= q && size >= 1;
        assert(count == size * q + rem);
        assert(size * q == q * size) by (nonlinear_arith);
    }
}

/// For each requested partition index of one window, the slice of that
/// window's sector set it covers. Fails, naming the window and the offending
/// index together with the window's first partition index and sector count,
/// as soon as an index falls outside the partitions the window occupies.
pub fn compute_partitions_sector(
    d: &Deadlines,
    partition_size: u64,
    deadline_index: usize,
    partitions: &[u64],
) -> (r: Result<Vec<BitField>, DeadlineError>)
    requires
        d.wf(),
        1 <= partition_size <= usize::MAX,
        deadline_index < WPOST_PERIOD_DEADLINES,
        spec_first_partition_index(
            d.views(),
            partition_size as int,
            WPOST_PERIOD_DEADLINES as int,
        ) <= u64::MAX,
    ensures
        ({
            let first = spec_first_partition_index(
                d.views(),
                partition_size as int,
                deadline_index as int,
            );
            let count = d.due@[deadline_index as int]@.len() as int;
            let pcount = spec_partition_count(count, partition_size as int);
            &&& (r is Ok <==> forall|j: int|
                0 <= j < partitions@.len()
                    ==> first <= #[trigger] partitions@[j] && partitions@[j] < first + pcount)
            &&& (r matches Ok(v) ==> v@.len() == partitions@.len() && forall|j: int|
                0 <= j < partitions@.len() ==> (#[trigger] v@[j])@ == spec_partition_slice(
                    d.due@[deadline_index as int]@,
                    partition_size as int,
                    partitions@[j] - first,
                ))
            &&& (r matches Err(e) ==> exists|j: int|
                0 <= j < partitions@.len()
                    && !(first <= #[trigger] partitions@[j] && partitions@[j] < first + pcount)
                    && e == (DeadlineError::InvalidPartition {
                    deadline: deadline_index as u64,
                    partition: partitions@[j],
                    first: first as u64,
                    count: count as u64,
                }))
        }),
{
    let ghost size = partition_size as int;
    let (first, count) = match partitions_for_deadline(
        d,
        partition_size as usize,
        deadline_index,
    ) {
        Ok(p) => p,
        Err(e) => {
            return Err(e);
        },
    };
    let count_usize: usize = d.due[deadline_index].len();
    let cq: u64 = count / partition_size;
    let crem: u64 = count % partition_size;
    proof {
        assert(count == count_usize);
        if crem != 0 {
            assert(count as int / size < count as int) by (nonlinear_arith)
                requires count as int % size != 0 && size >= 1 && count >= 0;
        }
        lemma_first_partition_index_monotonic(
            d.views(),
            size,
            deadline_index as int + 1,
            WPOST_PERIOD_DEADLINES as int,
        );
        assert(d.views()[deadline_index as int] == d.due@[deadline_index as int]@);
    }
    let pcount: u64 = cq + if crem != 0 {
        1u64
    } else {
        0u64
    };
    let ghost dl = d.due@[deadline_index as int]@;
    let mut out: Vec<BitField> = Vec::new();
    let mut j: usize = 0;
    while j < partitions.len()
        invariant
            j <= partitions@.len(),
            d.wf(),
            deadline_index < WPOST_PERIOD_DEADLINES,
            1 <= partition_size <= usize::MAX,
            size == partition_size as int,
            dl == d.due@[deadline_index as int]@,
            first == spec_first_partition_index(d.views(), size, deadline_index as int),
            count == dl.len(),
            pcount == spec_partition_count(count as int, size),
            first + pcount <= u64::MAX + 1,
            count <= usize::MAX,
            out@.len() == j,
            forall|jj: int| 0 <= jj < j
                ==> first <= #[trigger] partitions@[jj] && partitions@[jj] < first + pcount,
            forall|jj: int| 0 <= jj < j ==> (#[trigger] out@[jj])@ == spec_partition_slice(
                dl,
                size,
                partitions@[jj] - first,
            ),
        decreases partitions@.len() - j,
    {
        let p: u64 = partitions[j];
        if p < first || p - first >= pcount {
            return Err(DeadlineError::InvalidPartition {
                deadline: deadline_index as u64,
                partition: p,
                first,
                count,
            });
        }
        let k: u64 = p - first;
        proof {
            lemma_partition_start_bound(count as int, size, k as int);
        }
        let start: u64 = k * partition_size;
        let remaining: u64 = count - start;
        let take: u64 = if remaining < partition_size {
            remaining
        } else {
            partition_size
        };
        let slice = d.due[deadline_index].range(start as usize, take as usize);
        proof {
            assert(slice@ == spec_partition_slice(dl, size, k as int));
        }
        out.push(slice);
        j = j + 1;
    }
    Ok(out)
}

/// The first window from `from` on with room for another sector, or `-1`
/// when none has: a window accepts sectors while it holds fewer than one
/// full partition.
pub open spec fn spec_first_open_from(due: Seq<Seq<u64>>, size: int, from: int) -> int
    decreases due.len() - from,
{
    if from >= due.len() {
        -1
    } else if due[from].len() < size {
        from
    } else {
        spec_first_open_from(due, size, from + 1)
    }
}

/// One sector placed by the packing policy: into the first window after
/// window zero with room, or nowhere when all are full.
pub open spec fn spec_assign_one(due: Seq<Seq<u64>>, size: int, v: u64) -> Option<Seq<Seq<u64>>> {
    let d = spec_first_open_from(due, size, 1);
    if d < 0 {
        None
    } else {
        Some(due.update(d, seq_insert(due[d], v)))
    }
}

/// A batch of sectors placed one by one, in order.
pub open spec fn spec_assign(due: Seq<Seq<u64>>, size: int, sectors: Seq<u64>) -> Option<
    Seq<Seq<u64>>,
>
    decreases sectors.len(),
{
    if sectors.len() == 0 {
        Some(due)
    } else {
        match spec_assign_one(due, size, sectors[0]) {
            Some(next) => spec_assign(next, size, sectors.drop_first()),
            None => None,
        }
    }
}

/// A left-to-right scan that skipped every full window agrees with the
/// recursive definition of the first open window.
proof fn lemma_first_open_scan(due: Seq<Seq<u64>>, size: int, from: int, j: int)
    requires
        1 <= from <= j <= due.len(),
        forall|e: int| from <= e < j ==> (#[trigger] due[e]).len() >= size,
    ensures
        j < due.len() && due[j].len() < size ==> spec_first_open_from(due, size, from) == j,
        j == due.len() ==> spec_first_open_from(due, size, from) == -1,
    decreases j - from,
{
    if from < j {
        lemma_first_open_scan(due, size, from + 1, j);
    }
}

/// Packs newly committed sector numbers into the schedule: window by window
/// in index order, starting after window zero, topping up a partly filled
/// window before opening the next, and holding each window to one partition
/// of `partition_size` sectors. Nothing is changed unless every sector finds
/// a place.
pub fn assign_new_sectors(
    deadlines: &mut Deadlines,
    partition_size: usize,
    new_sectors: &[u64],
) -> (r: Result<(), DeadlineError>)
    requires
        old(deadlines).wf(),
        partition_size >= 1,
    ensures
        final(deadlines).wf(),
        r is Ok <==> spec_assign(
            old(deadlines).views(),
            partition_size as int,
            new_sectors@,
        ) is Some,
        r is Ok ==> spec_assign(old(deadlines).views(), partition_size as int, new_sectors@)
            == Some(final(deadlines).views()),
        r is Err ==> *final(deadlines) == *old(deadlines),
        r is Err ==> r == Err::<(), DeadlineError>(DeadlineError::DeadlinesFull),
{
    let ghost size = partition_size as int;
    let ghost all = new_sectors@;
    let mut scratch = deadlines.copied();
    proof {
        assert(scratch.views() =~= old(deadlines).views());
        assert(all.skip(0) =~= all);
    }
    let mut i: usize = 0;
    while i < new_sectors.len()
        invariant
            i <= all.len(),
            all == new_sectors@,
            size == partition_size as int,
            partition_size >= 1,
            scratch.wf(),
            old(deadlines).wf(),
            *deadlines == *old(deadlines),
            spec_assign(old(deadlines).views(), size, all)
                == spec_assign(scratch.views(), size, all.skip(i as int)),
        decreases all.len() - i,
    {
        let v: u64 = new_sectors[i];
        let mut dln: usize = 1;
        while dln < WPOST_PERIOD_DEADLINES && scratch.due[dln].len() >= partition_size
            invariant
                1 <= dln <= WPOST_PERIOD_DEADLINES,
                scratch.wf(),
                size == partition_size as int,
                forall|e: int| 1 <= e < dln
                    ==> (#[trigger] scratch.views()[e]).len() >= size,
            decreases WPOST_PERIOD_DEADLINES - dln,
        {
            proof {
                assert(scratch.views()[dln as int] == scratch.due@[dln as int]@);
            }
            dln = dln + 1;
        }
        proof {
            lemma_first_open_scan(scratch.views(), size, 1, dln as int);
            if dln < WPOST_PERIOD_DEADLINES {
                assert(scratch.views()[dln as int] == scratch.due@[dln as int]@);
            }
            assert(all.skip(i as int).len() > 0);
            assert(all.skip(i as int)[0] == all[i as int]);
            assert(all.skip(i as int).drop_first() =~= all.skip(i + 1));
        }
        if dln >= WPOST_PERIOD_DEADLINES {
            proof {
                assert(spec_assign_one(scratch.views(), size, v) is None);
                assert(spec_assign(scratch.views(), size, all.skip(i as int)) is None);
            }
            return Err(DeadlineError::DeadlinesFull);
        }
        let ghost before = scratch.views();
        let mut bf = BitField { bits: copy_u64_vec(&scratch.due[dln].bits) };
        bf.insert(v);
        scratch.due[dln] = bf;
        proof {
            assert(scratch.views() =~= before.update(
                dln as int,
                seq_insert(before[dln as int], v),
            ));
            assert(spec_assign_one(before, size, v) == Some(scratch.views()));
        }
        i = i + 1;
    }
    proof {
        assert(all.skip(all.len() as int).len() == 0);
        assert(spec_assign(old(deadlines).views(), size, all) == Some(scratch.views()));
    }
    *deadlines = scratch;
    Ok(())
}

} // verus!
