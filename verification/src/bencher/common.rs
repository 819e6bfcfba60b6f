//! Priorities of benchmark runs, and the CPUs that a benchmark pins its
//! processes to, as a `taskset` CPU list.

use vstd::prelude::*;

use std::ops::Range;

use crate::decimal::{decimal, push_decimal};

verus! {

#[derive(Debug)]
pub enum TaskSetCpuIndicator {
    Single(usize),
    Range(Range<usize>),
}

impl Clone for TaskSetCpuIndicator {
    fn clone(&self) -> (r: Self)
        ensures
            r == *self,
    {
        match self {
            TaskSetCpuIndicator::Single(cpu) => TaskSetCpuIndicator::Single(*cpu),
            TaskSetCpuIndicator::Range(range) => TaskSetCpuIndicator::Range(range.start..range.end),
        }
    }
}

/// The indicator of the CPUs `start..end`, of which there is at least one:
/// a single CPU, or the range
pub open spec fn indicator_of(start: usize, end: usize) -> TaskSetCpuIndicator {
    if end - start == 1 {
        TaskSetCpuIndicator::Single(start)
    } else {
        TaskSetCpuIndicator::Range(Range { start, end })
    }
}

/// The text of an indicator: the CPU, or the first and last CPU of the
/// range joined by a dash
pub open spec fn indicator_text(indicator: TaskSetCpuIndicator) -> Seq<char> {
    match indicator {
        TaskSetCpuIndicator::Single(i) => decimal(i as nat),
        TaskSetCpuIndicator::Range(r) => decimal(r.start as nat) + seq!['-'] + decimal((r.end - 1) as nat),
    }
}

/// The texts of the indicators, joined by commas
pub open spec fn cpu_list_text(s: Seq<TaskSetCpuIndicator>) -> Seq<char>
    decreases s.len(),
{
    if s.len() == 0 {
        Seq::<char>::empty()
    } else if s.len() == 1 {
        indicator_text(s[0])
    } else {
        cpu_list_text(s.drop_last()) + seq![','] + indicator_text(s.last())
    }
}

/// No indicator is an empty range
pub open spec fn ranges_nonempty(s: Seq<TaskSetCpuIndicator>) -> bool {
    forall|i: int| 0 <= i < s.len() ==> (#[trigger] s[i] matches TaskSetCpuIndicator::Range(r) ==> r.start < r.end)
}

impl TaskSetCpuIndicator {
    /// The indicator of a range: an error for an empty range, a single CPU
    /// for a range of one
    pub fn from_range(value: Range<usize>) -> (r: Result<Self, String>)
        ensures
            value.start < value.end ==> r == Ok::<Self, String>(indicator_of(value.start, value.end)),
            value.start >= value.end ==> (r matches Err(e) && e@ == "Empty ranges not supported"@),
    {
        if value.start >= value.end {
            Err(String::from_str("Empty ranges not supported"))
        } else if value.end - value.start == 1 {
            Ok(TaskSetCpuIndicator::Single(value.start))
        } else {
            Ok(TaskSetCpuIndicator::Range(value))
        }
    }
}

impl TryFrom<Range<usize>> for TaskSetCpuIndicator {
    type Error = String;

    fn try_from(value: Range<usize>) -> (r: Result<Self, Self::Error>)
        ensures
            value.start < value.end ==> r == Ok::<Self, String>(indicator_of(value.start, value.end)),
            value.start >= value.end ==> (r matches Err(e) && e@ == "Empty ranges not supported"@),
    {
        Self::from_range(value)
    }
}

/// The conversion's contract is that of `TaskSetCpuIndicator::from_range`;
/// its error text has no spec value, so the trait states nothing
impl vstd::std_specs::convert::TryFromSpecImpl<Range<usize>> for TaskSetCpuIndicator {
    open spec fn obeys_try_from_spec() -> bool {
        false
    }

    open spec fn try_from_spec(v: Range<usize>) -> Result<Self, String> {
        Err(arbitrary())
    }
}

#[derive(Debug, Clone, Copy, PartialEq, Eq, Structural, PartialOrd, Ord)]
pub enum Priority {
    Low,
    Medium,
    High,
}

impl Priority {
    pub fn to_string(&self) -> (r: String)
        ensures
            r@ == (match self {
                Priority::Low => "low"@,
                Priority::Medium => "medium"@,
                Priority::High => "high"@,
            }),
    {
        match self {
            Self::Low => String::from_str("low"),
            Self::Medium => String::from_str("medium"),
            Self::High => String::from_str("high"),
        }
    }
}

#[derive(Debug, Clone, Copy, PartialEq, Eq, Structural)]
pub enum CpuMode {
    /// Suitable for bare-metal machines without hyperthreads/SMT.
    ///
    /// For 8 vCPU processor, uses vCPU groups 0, 1, 2, 3, 4, 5, 6 and 7
    Subsequent,
    /// Suitable for bare-metal machines with hyperthreads/SMT.
    ///
    /// For 8 vCPU processor, uses vCPU groups 0 & 4, 1 & 5, 2 & 6 and 3 & 7
    SplitPairs,
    /// For 8 vCPU processor, uses vCPU groups 0 & 1, 2 & 3, 4 & 5 and 6 & 7
    SubsequentPairs,
    /// Suitable for somewhat fairly comparing trackers on Hetzner virtual
    /// machines. Since in-VM hyperthreads aren't really hyperthreads,
    /// enabling them causes unpredictable performance.
    ///
    /// For 8 vCPU processor, uses vCPU groups 0, 2, 4 and 6
    SubsequentOnePerPair,
}

impl CpuMode {
    pub fn to_string(&self) -> (r: String)
        ensures
            r@ == (match self {
                CpuMode::Subsequent => "subsequent"@,
                CpuMode::SplitPairs => "split-pairs"@,
                CpuMode::SubsequentPairs => "subsequent-pairs"@,
                CpuMode::SubsequentOnePerPair => "subsequent-one-per-pair"@,
            }),
    {
        match self {
            Self::Subsequent => String::from_str("subsequent"),
            Self::SplitPairs => String::from_str("split-pairs"),
            Self::SubsequentPairs => String::from_str("subsequent-pairs"),
            Self::SubsequentOnePerPair => String::from_str("subsequent-one-per-pair"),
        }
    }
}

#[derive(Debug, Clone, Copy, PartialEq, Eq, Structural)]
pub enum CpuDirection {
    Asc,
    Desc,
}

pub open spec fn min_usize(a: usize, b: usize) -> usize {
    if a <= b { a } else { b }
}

pub open spec fn max_usize(a: usize, b: usize) -> usize {
    if a >= b { a } else { b }
}

/// `a - b`, or zero where `b` is larger
pub open spec fn saturating_sub(a: usize, b: usize) -> usize {
    if a >= b { (a - b) as usize } else { 0 }
}

/// The range of CPUs, as (start, end), or the two ranges for `SplitPairs`,
/// for `requested_cpus` workers on a machine with `available_parallelism`
/// CPUs. `SplitPairs` takes as many from each half of the CPUs, the pair
/// modes two CPUs per worker; ascending takes the first CPUs (of each
/// half), descending the last ones.
pub open spec fn cpu_ranges(
    available_parallelism: usize,
    mode: CpuMode,
    direction: CpuDirection,
    requested_cpus: usize,
) -> Seq<(usize, usize)> {
    let middle = available_parallelism / 2;
    let pairs = (requested_cpus * 2) as usize;
    match direction {
        CpuDirection::Asc => match mode {
            CpuMode::Subsequent => seq![(0usize, min_usize(available_parallelism, requested_cpus))],
            CpuMode::SplitPairs => seq![
                (0usize, min_usize(middle, requested_cpus)),
                (middle, min_usize(available_parallelism, (middle + requested_cpus) as usize)),
            ],
            CpuMode::SubsequentPairs => seq![(0usize, min_usize(available_parallelism, pairs))],
            CpuMode::SubsequentOnePerPair => seq![(0usize, min_usize(available_parallelism, pairs))],
        },
        CpuDirection::Desc => match mode {
            CpuMode::Subsequent => seq![(saturating_sub(available_parallelism, requested_cpus), available_parallelism)],
            CpuMode::SplitPairs => seq![
                (saturating_sub(middle, requested_cpus), middle),
                (max_usize(saturating_sub(available_parallelism, requested_cpus), middle), available_parallelism),
            ],
            CpuMode::SubsequentPairs => seq![(saturating_sub(available_parallelism, pairs), available_parallelism)],
            CpuMode::SubsequentOnePerPair => seq![(saturating_sub(available_parallelism, pairs), available_parallelism)],
        },
    }
}

/// Whether the CPU is in the range (start, end)
pub open spec fn cpu_in_range(range: (usize, usize), cpu: int) -> bool {
    range.0 <= cpu < range.1
}

/// Descending CPU lists mirror ascending ones: for one CPU per worker and
/// for pairs of CPUs per worker, the ascending list takes CPUs from the
/// first one on, the descending one from the last one down, and a CPU is in
/// the descending list exactly when its mirror image (counted from the
/// top) is in the ascending one. Each lists `min(available_parallelism,
/// requested)` CPUs, with two requested per worker for pairs.
pub proof fn law_descending_mirrors_ascending(available_parallelism: usize, mode: CpuMode, requested_cpus: usize)
    requires
        mode is Subsequent || mode is SubsequentPairs,
        mode is SubsequentPairs ==> requested_cpus * 2 <= usize::MAX,
    ensures
        ({
            let asc = cpu_ranges(available_parallelism, mode, CpuDirection::Asc, requested_cpus);
            let desc = cpu_ranges(available_parallelism, mode, CpuDirection::Desc, requested_cpus);
            let wanted = if mode is Subsequent { requested_cpus as int } else { 2 * requested_cpus };
            let count = if available_parallelism < wanted { available_parallelism as int } else { wanted };
            &&& asc.len() == 1 && desc.len() == 1
            &&& asc[0].0 == 0 && asc[0].1 == count
            &&& desc[0].1 == available_parallelism && desc[0].0 == available_parallelism - count
            &&& forall|cpu: int|
                0 <= cpu < available_parallelism ==> (#[trigger] cpu_in_range(asc[0], cpu) <==> cpu_in_range(
                    desc[0],
                    available_parallelism - 1 - cpu,
                ))
        }),
{
}

/// The arguments on which a CPU list can be made: the CPU counts fit in a
/// `usize`, and each range holds a CPU, except for `SubsequentOnePerPair`,
/// which lists the first CPU of each pair of its range, if any
pub open spec fn cpu_request_valid(
    available_parallelism: usize,
    mode: CpuMode,
    direction: CpuDirection,
    requested_cpus: usize,
) -> bool {
    &&& (mode is SplitPairs && direction is Asc) ==> available_parallelism / 2 + requested_cpus <= usize::MAX
    &&& (mode is SubsequentPairs || mode is SubsequentOnePerPair) ==> requested_cpus * 2 <= usize::MAX
    &&& !(mode is SubsequentOnePerPair) ==> forall|i: int|
        0 <= i < cpu_ranges(available_parallelism, mode, direction, requested_cpus).len() ==> #[trigger] cpu_ranges(
            available_parallelism,
            mode,
            direction,
            requested_cpus,
        )[i].0 < cpu_ranges(available_parallelism, mode, direction, requested_cpus)[i].1
}

/// The first CPU of each pair of CPUs from `start`, below `end`
pub open spec fn one_per_pair(start: usize, end: usize) -> Seq<TaskSetCpuIndicator> {
    Seq::new(
        (if end > start { (end - start + 1) / 2 } else { 0 }) as nat,
        |k: int| TaskSetCpuIndicator::Single((start + 2 * k) as usize),
    )
}

/// The CPU list for the arguments: one indicator per range, or the first
/// CPU of each pair for `SubsequentOnePerPair`
pub open spec fn cpu_list_spec(
    available_parallelism: usize,
    mode: CpuMode,
    direction: CpuDirection,
    requested_cpus: usize,
) -> Seq<TaskSetCpuIndicator> {
    let ranges = cpu_ranges(available_parallelism, mode, direction, requested_cpus);
    if mode is SubsequentOnePerPair {
        one_per_pair(ranges[0].0, ranges[0].1)
    } else {
        ranges.map_values(|r: (usize, usize)| indicator_of(r.0, r.1))
    }
}

#[derive(Debug, Clone)]
pub struct TaskSetCpuList(pub Vec<TaskSetCpuIndicator>);

impl TaskSetCpuList {
    pub open spec fn indicators(&self) -> Seq<TaskSetCpuIndicator> {
        self.0@
    }

    /// The CPU list in the form that `taskset --cpu-list` takes
    pub fn as_cpu_list(&self) -> (r: String)
        requires
            ranges_nonempty(self.0@),
        ensures
            r@ == cpu_list_text(self.0@),
    {
        let mut output = String::new();
        let mut i: usize = 0;
        while i < self.0.len()
            invariant
                i <= self.0@.len(),
                ranges_nonempty(self.0@),
                output@ == cpu_list_text(self.0@.take(i as int)),
            decreases self.0@.len() - i,
        {
            let ghost before = output@;
            if i > 0 {
                output.append(",");
            }
            match &self.0[i] {
                TaskSetCpuIndicator::Single(cpu) => {
                    push_decimal(&mut output, *cpu);
                },
                TaskSetCpuIndicator::Range(range) => {
                    assert(self.0@[i as int] matches TaskSetCpuIndicator::Range(r) ==> r.start < r.end);
                    push_decimal(&mut output, range.start);
                    output.append("-");
                    push_decimal(&mut output, range.end - 1);
                },
            }
            proof {
                reveal_strlit(",");
                reveal_strlit("-");
                let t = self.0@.take(i as int + 1);
                assert(t.drop_last() =~= self.0@.take(i as int));
                assert(t.last() == self.0@[i as int]);
                if i == 0 {
                    assert(output@ =~= cpu_list_text(t));
                } else {
                    assert(output@ =~= cpu_list_text(t));
                }
            }
            i = i + 1;
        }
        proof {
            assert(self.0@.take(self.0@.len() as int) =~= self.0@);
        }
        output
    }

    /// The CPU list for `requested_cpus` workers on a machine with
    /// `available_parallelism` CPUs
    pub fn new_with_available_parallelism(
        available_parallelism: usize,
        mode: CpuMode,
        direction: CpuDirection,
        requested_cpus: usize,
    ) -> (r: Self)
        requires
            cpu_request_valid(available_parallelism, mode, direction, requested_cpus),
        ensures
            r.0@ == cpu_list_spec(available_parallelism, mode, direction, requested_cpus),
            ranges_nonempty(r.0@),
    {
        let ghost ranges = cpu_ranges(available_parallelism, mode, direction, requested_cpus);
        let middle = available_parallelism / 2;
        let bounds: Vec<(usize, usize)> = match direction {
            CpuDirection::Asc => match mode {
                CpuMode::Subsequent => {
                    let end = if available_parallelism <= requested_cpus {
                        available_parallelism
                    } else {
                        requested_cpus
                    };
                    vec![(0, end)]
                },
                CpuMode::SplitPairs => {
                    let end_a = if middle <= requested_cpus { middle } else { requested_cpus };
                    let end_b = if available_parallelism <= middle + requested_cpus {
                        available_parallelism
                    } else {
                        middle + requested_cpus
                    };
                    vec![(0, end_a), (middle, end_b)]
                },
                CpuMode::SubsequentPairs | CpuMode::SubsequentOnePerPair => {
                    let end = if available_parallelism <= requested_cpus * 2 {
                        available_parallelism
                    } else {
                        requested_cpus * 2
                    };
                    vec![(0, end)]
                },
            },
            CpuDirection::Desc => match mode {
                CpuMode::Subsequent => {
                    vec![(available_parallelism.saturating_sub(requested_cpus), available_parallelism)]
                },
                CpuMode::SplitPairs => {
                    let start_b = available_parallelism.saturating_sub(requested_cpus);
                    let start_b = if start_b >= middle { start_b } else { middle };
                    vec![(middle.saturating_sub(requested_cpus), middle), (start_b, available_parallelism)]
                },
                CpuMode::SubsequentPairs | CpuMode::SubsequentOnePerPair => {
                    vec![(available_parallelism.saturating_sub(requested_cpus * 2), available_parallelism)]
                },
            },
        };
        proof {
            assert(bounds@ =~= ranges);
        }
        if matches!(mode, CpuMode::SubsequentOnePerPair) {
            // The first CPU of each chunk of two
            let (start, end) = bounds[0];
            let mut output: Vec<TaskSetCpuIndicator> = Vec::new();
            let mut cpu = start;
            proof {
                assert(cpu_list_spec(available_parallelism, mode, direction, requested_cpus) == one_per_pair(start, end));
            }
            while cpu < end
                invariant
                    cpu_list_spec(available_parallelism, mode, direction, requested_cpus) == one_per_pair(start, end),
                    start <= cpu,
                    (cpu - start) % 2 == 0,
                    cpu < end ==> cpu <= end,
                    output@ =~= one_per_pair(start, end).take(((cpu - start) / 2) as int),
                    ((cpu - start) / 2) <= one_per_pair(start, end).len(),
                decreases end - cpu,
            {
                output.push(TaskSetCpuIndicator::Single(cpu));
                if end - cpu <= 2 {
                    proof {
                        assert(one_per_pair(start, end).len() == (cpu - start) / 2 + 1);
                        assert(output@ =~= one_per_pair(start, end));
                    }
                    return Self(output);
                }
                cpu = cpu + 2;
            }
            proof {
                assert(output@ =~= one_per_pair(start, end));
            }
            return Self(output);
        }
        let mut output: Vec<TaskSetCpuIndicator> = Vec::new();
        let mut i: usize = 0;
        while i < bounds.len()
            invariant
                bounds@ == ranges,
                !(mode is SubsequentOnePerPair),
                cpu_request_valid(available_parallelism, mode, direction, requested_cpus),
                ranges == cpu_ranges(available_parallelism, mode, direction, requested_cpus),
                i <= bounds@.len(),
                output@ =~= cpu_list_spec(available_parallelism, mode, direction, requested_cpus).take(i as int),
                ranges_nonempty(output@),
            decreases bounds@.len() - i,
        {
            let (start, end) = bounds[i];
            assert(ranges[i as int].0 < ranges[i as int].1);
            let indicator = match TaskSetCpuIndicator::from_range(start..end) {
                Ok(indicator) => indicator,
                Err(_) => TaskSetCpuIndicator::Single(start),
            };
            output.push(indicator);
            i = i + 1;
        }
        Self(output)
    }

    /// The CPU list of the ranges: an error for the first empty one
    pub fn from_ranges(value: Vec<Range<usize>>) -> (r: Result<Self, String>)
        ensures
            (forall|i: int| 0 <= i < value@.len() ==> #[trigger] value@[i].start < value@[i].end) ==> (r matches Ok(
                list,
            ) && list.0@ == value@.map_values(|range: Range<usize>| indicator_of(range.start, range.end))),
            (exists|i: int| 0 <= i < value@.len() && #[trigger] value@[i].start >= value@[i].end) ==> (r matches Err(
                e,
            ) && e@ == "Empty ranges not supported"@),
    {
        let mut output: Vec<TaskSetCpuIndicator> = Vec::new();
        let mut i: usize = 0;
        while i < value.len()
            invariant
                i <= value@.len(),
                forall|j: int| 0 <= j < i ==> #[trigger] value@[j].start < value@[j].end,
                output@ =~= value@.take(i as int).map_values(
                    |range: Range<usize>| indicator_of(range.start, range.end),
                ),
            decreases value@.len() - i,
        {
            let range = value[i].start..value[i].end;
            match TaskSetCpuIndicator::from_range(range) {
                Ok(indicator) => output.push(indicator),
                Err(e) => {
                    return Err(e);
                },
            }
            i = i + 1;
        }
        Ok(Self(output))
    }
}

impl TryFrom<Vec<Range<usize>>> for TaskSetCpuList {
    type Error = String;

    fn try_from(value: Vec<Range<usize>>) -> (r: Result<Self, Self::Error>)
        ensures
            (forall|i: int| 0 <= i < value@.len() ==> #[trigger] value@[i].start < value@[i].end) ==> (r matches Ok(
                list,
            ) && list.0@ == value@.map_values(|range: Range<usize>| indicator_of(range.start, range.end))),
            (exists|i: int| 0 <= i < value@.len() && #[trigger] value@[i].start >= value@[i].end) ==> (r matches Err(
                e,
            ) && e@ == "Empty ranges not supported"@),
    {
        Self::from_ranges(value)
    }
}

/// The conversion's contract is that of `TaskSetCpuList::from_ranges`; its
/// error text has no spec value, so the trait states nothing
impl vstd::std_specs::convert::TryFromSpecImpl<Vec<Range<usize>>> for TaskSetCpuList {
    open spec fn obeys_try_from_spec() -> bool {
        false
    }

    open spec fn try_from_spec(v: Vec<Range<usize>>) -> Result<Self, String> {
        Err(arbitrary())
    }
}

/// A load test run with `workers` workers of the priority, and its CPU list
pub open spec fn load_test_run(
    available_parallelism: usize,
    cpu_mode: CpuMode,
    workers: (usize, Priority),
    run: (usize, Priority, TaskSetCpuList),
) -> bool {
    &&& run.0 == workers.0
    &&& run.1 == workers.1
    &&& run.2.indicators() == cpu_list_spec(available_parallelism, cpu_mode, CpuDirection::Desc, workers.0)
}

/// The CPU lists of load test runs with each number of workers, taking the
/// last CPUs of the machine
pub fn simple_load_test_runs(
    available_parallelism: usize,
    cpu_mode: CpuMode,
    workers: &[(usize, Priority)],
) -> (r: Vec<(usize, Priority, TaskSetCpuList)>)
    requires
        forall|i: int|
            0 <= i < workers@.len() ==> cpu_request_valid(
                available_parallelism,
                cpu_mode,
                CpuDirection::Desc,
                (#[trigger] workers@[i]).0,
            ),
    ensures
        r@.len() == workers@.len(),
        forall|i: int| 0 <= i < r@.len() ==> load_test_run(available_parallelism, cpu_mode, workers@[i], #[trigger] r@[i]),
{
    let mut runs: Vec<(usize, Priority, TaskSetCpuList)> = Vec::new();
    let mut i: usize = 0;
    while i < workers.len()
        invariant
            i <= workers@.len(),
            runs@.len() == i,
            forall|j: int|
                0 <= j < workers@.len() ==> cpu_request_valid(
                    available_parallelism,
                    cpu_mode,
                    CpuDirection::Desc,
                    (#[trigger] workers@[j]).0,
                ),
            forall|j: int| 0 <= j < i ==> load_test_run(available_parallelism, cpu_mode, workers@[j], #[trigger] runs@[j]),
        decreases workers@.len() - i,
    {
        let (n, priority) = workers[i];
        let list = TaskSetCpuList::new_with_available_parallelism(available_parallelism, cpu_mode, CpuDirection::Desc, n);
        runs.push((n, priority, list));
        i = i + 1;
    }
    runs
}

} // verus!
