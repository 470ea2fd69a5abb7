use vstd::prelude::*;

verus! {

/// How many times a fill may be retried after the listed set grew.
pub const DEFAULT_MAX_RETRIES: u32 = 3;

/// Why an enumeration gave up.
#[derive(Debug, Clone, Copy, PartialEq, Eq, Structural)]
pub enum EnumError {
    /// The set kept growing between the count and the fill past the retry bound.
    EnumerationUnstable,
}

/// Where a count-then-fill enumeration stands.
#[derive(Debug, Clone, Copy, PartialEq, Eq, Structural)]
pub enum Phase {
    /// Waiting for the answer of the count-only call.
    Counting,
    /// Waiting for the answer of a fill call into a buffer of `capacity` items.
    Filling { capacity: u32 },
    /// The listing is complete with `count` items.
    Finished { count: u32 },
    /// The retry bound was exceeded.
    Unstable,
}

/// The two-phase "ask for the count, then fill a buffer" protocol of a
/// foreign listing call, with its trim and retry policy.
///
/// The caller performs each foreign call that `next` asks for and reports
/// its answer back; the enumeration decides what comes next.
#[derive(Debug, Clone, Copy, PartialEq, Eq, Structural)]
pub struct Enumeration {
    pub phase: Phase,
    pub retries: u32,
    pub max_retries: u32,
}

/// What the caller is to do after a fill call was reported.
#[derive(Debug)]
pub enum Next<T> {
    /// Allocate a buffer of exactly this many items and fill it again.
    Fill(u32),
    /// The listing, in the order the foreign call gave it.
    Done(Vec<T>),
    /// The enumeration gave up.
    Failed(EnumError),
}

pub open spec fn start(max_retries: u32) -> Enumeration {
    Enumeration { phase: Phase::Counting, retries: 0, max_retries }
}

/// The state once the count-only call answered `count`.
pub open spec fn count_step(s: Enumeration, count: u32) -> Enumeration {
    Enumeration { phase: Phase::Filling { capacity: count }, ..s }
}

/// The state once a fill call into a buffer of the current capacity
/// reported `reported` items.
pub open spec fn fill_step(s: Enumeration, reported: u32) -> Enumeration {
    match s.phase {
        Phase::Filling { capacity } => if reported <= capacity {
            Enumeration { phase: Phase::Finished { count: reported }, ..s }
        } else if s.retries < s.max_retries {
            Enumeration {
                phase: Phase::Filling { capacity: reported },
                retries: (s.retries + 1) as u32,
                ..s
            }
        } else {
            Enumeration { phase: Phase::Unstable, ..s }
        },
        _ => s,
    }
}

/// The state after a series of fill answers, in order.
pub open spec fn fill_run(s: Enumeration, reports: Seq<u32>) -> Enumeration
    decreases reports.len(),
{
    if reports.len() == 0 {
        s
    } else {
        fill_run(fill_step(s, reports[0]), reports.drop_first())
    }
}

pub open spec fn well_formed(s: Enumeration) -> bool {
    s.retries <= s.max_retries
}

impl Enumeration {
    /// A fresh enumeration that allows `max_retries` refills after growth.
    pub fn new(max_retries: u32) -> (r: Enumeration)
        ensures
            r == start(max_retries),
    {
        Enumeration { phase: Phase::Counting, retries: 0, max_retries }
    }

    /// Records the answer of the count-only call and returns the size of the
    /// buffer to allocate for the fill call.
    pub fn on_count(&mut self, count: u32) -> (cap: u32)
        requires
            old(self).phase == Phase::Counting,
        ensures
            *final(self) == count_step(*old(self), count),
            cap == count,
    {
        self.phase = Phase::Filling { capacity: count };
        count
    }

    /// Records the answer of a fill call: `buf` is the buffer that was
    /// handed to it and `reported` the count it gave back. A count no larger
    /// than the buffer keeps exactly that many items; a larger one asks for a
    /// refill until the retry bound is spent.
    pub fn on_fill<T>(&mut self, buf: Vec<T>, reported: u32) -> (r: Next<T>)
        requires
            well_formed(*old(self)),
            old(self).phase matches Phase::Filling { capacity } && buf@.len() == capacity,
        ensures
            *final(self) == fill_step(*old(self), reported),
            well_formed(*final(self)),
            match final(self).phase {
                Phase::Finished { count } => r matches Next::Done(items) && items@ == buf@.take(
                    count as int,
                ),
                Phase::Filling { capacity } => r == Next::<T>::Fill(capacity),
                Phase::Unstable => r == Next::<T>::Failed(EnumError::EnumerationUnstable),
                Phase::Counting => false,
            },
    {
        let capacity = match self.phase {
            Phase::Filling { capacity } => capacity,
            _ => 0,
        };
        if reported <= capacity {
            let mut items = buf;
            items.truncate(reported as usize);
            self.phase = Phase::Finished { count: reported };
            Next::Done(items)
        } else if self.retries < self.max_retries {
            self.retries = self.retries + 1;
            self.phase = Phase::Filling { capacity: reported };
            Next::Fill(reported)
        } else {
            self.phase = Phase::Unstable;
            Next::Failed(EnumError::EnumerationUnstable)
        }
    }
}

/// When the set does not change between the two calls, the enumeration
/// finishes with exactly the counted number of items.
pub proof fn lemma_static_set(max_retries: u32, count: u32)
    ensures
        fill_run(count_step(start(max_retries), count), seq![count]).phase == (Phase::Finished {
            count,
        }),
{
    reveal_with_fuel(fill_run, 2);
    assert(seq![count].drop_first() =~= Seq::<u32>::empty());
}

/// When the set shrank between the two calls, the enumeration finishes with
/// the smaller count that the fill reported, never more.
pub proof fn lemma_shrunk_set(max_retries: u32, count: u32, reported: u32)
    requires
        reported <= count,
    ensures
        fill_run(count_step(start(max_retries), count), seq![reported]).phase == (
        Phase::Finished { count: reported }),
{
    reveal_with_fuel(fill_run, 2);
    assert(seq![reported].drop_first() =~= Seq::<u32>::empty());
}

/// When the set grew once and then stayed put, and a retry is allowed, the
/// enumeration finishes with the grown count.
pub proof fn lemma_grown_once(max_retries: u32, count: u32, grown: u32)
    requires
        count < grown,
        max_retries >= 1,
    ensures
        fill_run(count_step(start(max_retries), count), seq![grown, grown]).phase == (
        Phase::Finished { count: grown }),
{
    let s0 = count_step(start(max_retries), count);
    let s1 = fill_step(s0, grown);
    assert(s1.phase == Phase::Filling { capacity: grown });
    reveal_with_fuel(fill_run, 3);
    assert(seq![grown, grown].drop_first() =~= seq![grown]);
    assert(seq![grown].drop_first() =~= Seq::<u32>::empty());
}

/// Growth on every fill, one time more than the retry bound allows, ends
/// the enumeration as unstable.
pub proof fn lemma_growth_past_bound(max_retries: u32, count: u32, reports: Seq<u32>)
    requires
        reports.len() == max_retries + 1,
        count < reports[0],
        forall|i: int| 0 <= i < reports.len() - 1 ==> #[trigger] reports[i] < reports[i + 1],
    ensures
        fill_run(count_step(start(max_retries), count), reports).phase == Phase::Unstable,
{
    lemma_growth_run(count_step(start(max_retries), count), reports);
}

proof fn lemma_growth_run(s: Enumeration, reports: Seq<u32>)
    requires
        well_formed(s),
        s.phase matches Phase::Filling { capacity } && capacity < reports[0],
        reports.len() == s.max_retries - s.retries + 1,
        forall|i: int| 0 <= i < reports.len() - 1 ==> #[trigger] reports[i] < reports[i + 1],
    ensures
        fill_run(s, reports).phase == Phase::Unstable,
    decreases reports.len(),
{
    let s1 = fill_step(s, reports[0]);
    let rest = reports.drop_first();
    if s.retries < s.max_retries {
        assert(reports[0] < reports[1]);
        assert forall|i: int| 0 <= i < rest.len() - 1 implies #[trigger] rest[i] < rest[i + 1] by {
            assert(reports[i + 1] < reports[i + 2]);
        }
        lemma_growth_run(s1, rest);
    } else {
        assert(rest.len() == 0);
        assert(fill_run(s1, rest) == s1);
    }
}

} // verus!
