//! Per-cell run orchestration: materializing one cell's configuration, the
//! per-cell state machine, and the bounded-concurrency scheduler.
//!
//! The library decides; the surrounding program performs. Every step that
//! touches the outside world (writing input files, spawning the simulator,
//! reading its output) reports back as a [`CellEvent`], and the next state
//! is a pure function of the previous state and that event.
use vstd::prelude::*;

use crate::Error;
use crate::dims::SliceType;
use crate::model::DailyData;
use crate::model::SimpleCropConfig;
use crate::model::YearlyData;
use crate::series::Series;
use crate::series::series_seq;
use crate::vars::Variable;

verus! {

/// The largest scaled sample that survives the hundredfold unit conversion.
pub open spec fn scale_bound() -> int {
    i64::MAX as int / 100
}

/// Every sample is small enough to be scaled by one hundred.
pub open spec fn scaled_ok(s: Seq<i64>) -> bool {
    forall|i: int| 0 <= i < s.len() ==> -scale_bound() <= (#[trigger] s[i]) <= scale_bound()
}

/// Each sample multiplied by one hundred: the unit conversion from the
/// gridded driver variable to the daily rainfall series.
pub open spec fn times100(s: Seq<i64>) -> Seq<i64> {
    Seq::new(s.len(), |i: int| (s[i] * 100) as i64)
}

/// Multiply every sample by one hundred; `None` when any sample is too
/// large for the conversion.
pub fn convert_driver(v: &Vec<i64>) -> (r: Option<Vec<i64>>)
    ensures
        r is Some <==> scaled_ok(v@),
        r is Some ==> r->0@ == times100(v@),
{
    let mut out: Vec<i64> = Vec::new();
    let mut i: usize = 0;
    let n = v.len();
    let bound: i64 = i64::MAX / 100;
    while i < n
        invariant
            n == v@.len(),
            bound == scale_bound(),
            i <= n,
            out@.len() == i,
            forall|m: int| 0 <= m < i ==> -scale_bound() <= (#[trigger] v@[m]) <= scale_bound(),
            forall|m: int| 0 <= m < i ==> (#[trigger] out@[m]) == v@[m] * 100,
        decreases n - i,
    {
        let x = v[i];
        if x < -bound || x > bound {
            return None;
        }
        out.push(x * 100);
        i = i + 1;
    }
    proof {
        assert(out@ =~= times100(v@));
    }
    Some(out)
}

/// The slice specification of one grid cell: each spatial position fixed at
/// its coordinate, every other dimension (the temporal one) kept whole.
pub open spec fn spec_cell_slice(ndims: int, positions: Seq<usize>, coord: Seq<usize>) -> Seq<
    SliceType,
> {
    Seq::new(
        ndims as nat,
        |j: int|
            if exists|k: int| 0 <= k < positions.len() && positions[k] == j {
                SliceType::Index(
                    coord[choose|k: int| 0 <= k < positions.len() && positions[k] == j],
                )
            } else {
                SliceType::All
            },
    )
}

/// Build a cell's slice specification from its spatial positions (strictly
/// increasing) and its coordinate tuple.
pub fn cell_slice(ndims: usize, positions: &Vec<usize>, coord: &Vec<usize>) -> (r: Vec<SliceType>)
    requires
        positions@.len() == coord@.len(),
        forall|k: int| 0 <= k < positions@.len() ==> (#[trigger] positions@[k]) < ndims,
        forall|k1: int, k2: int|
            0 <= k1 < k2 < positions@.len() ==> positions@[k1] < positions@[k2],
    ensures
        r@ == spec_cell_slice(ndims as int, positions@, coord@),
        r@.len() == ndims,
{
    let np = positions.len();
    let mut out: Vec<SliceType> = Vec::new();
    let mut k: usize = 0;
    let mut j: usize = 0;
    while j < ndims
        invariant
            np == positions@.len() == coord@.len(),
            forall|m: int| 0 <= m < np ==> (#[trigger] positions@[m]) < ndims,
            forall|k1: int, k2: int| 0 <= k1 < k2 < np ==> positions@[k1] < positions@[k2],
            j <= ndims,
            k <= np,
            forall|m: int| 0 <= m < k ==> (#[trigger] positions@[m]) < j,
            k < np ==> positions@[k as int] >= j,
            out@.len() == j,
            forall|m: int|
                0 <= m < j ==> (#[trigger] out@[m]) == spec_cell_slice(
                    ndims as int,
                    positions@,
                    coord@,
                )[m],
        decreases ndims - j,
    {
        if k < np && positions[k] == j {
            out.push(SliceType::Index(coord[k]));
            proof {
                assert(0 <= k < positions@.len() && positions@[k as int] == j as int);
                let kk = choose|kk: int|
                    0 <= kk < positions@.len() && positions@[kk] == j as int;
                if kk < k {
                    assert(positions@[kk] < j);
                    assert(false);
                } else if kk > k {
                    assert(positions@[k as int] < positions@[kk]);
                    assert(false);
                }
                assert(out@[j as int] == spec_cell_slice(ndims as int, positions@, coord@)[
                    j as int
                ]);
            }
            k = k + 1;
        } else {
            out.push(SliceType::All);
            proof {
                assert forall|m: int| 0 <= m < np implies (#[trigger] positions@[m]) != j by {
                    if m < k {
                        assert(positions@[m] < j);
                    } else {
                        assert(positions@[k as int] >= j);
                        if positions@[k as int] == j {
                            assert(false);
                        }
                        if m > k {
                            assert(positions@[k as int] < positions@[m]);
                        }
                    }
                }
                assert(out@[j as int] == spec_cell_slice(ndims as int, positions@, coord@)[
                    j as int
                ]);
            }
        }
        j = j + 1;
    }
    out
}

/// The per-cell series the cell at `coord` receives: the driver variable's
/// time series for that cell, scaled a hundredfold.
pub open spec fn spec_cell_result<V: Variable>(
    var: V,
    positions: Seq<usize>,
    coord: Seq<usize>,
) -> Seq<i64> {
    times100(var.spec_slice(spec_cell_slice(var.spec_dims().len() as int, positions, coord)))
}

/// Materialize the configuration of one grid cell: extract the cell's
/// driver time series, convert its unit, and place it as the rainfall
/// series of an otherwise independent copy of the daily template; the
/// yearly template is copied unchanged.
///
/// The call fails with the slicing error when the cell's slice is invalid,
/// and with [`Error::MalformedRecord`] when a sample is too large for the
/// unit conversion.
pub fn materialize_cell<V: Variable>(
    daily: &DailyData,
    yearly: &YearlyData,
    var: &V,
    positions: &Vec<usize>,
    coord: &Vec<usize>,
) -> (r: Result<SimpleCropConfig, Error>)
    requires
        var.wf(),
        positions@.len() == coord@.len(),
        forall|k: int|
            0 <= k < positions@.len() ==> (#[trigger] positions@[k]) < var.spec_dims().len(),
        forall|k1: int, k2: int|
            0 <= k1 < k2 < positions@.len() ==> positions@[k1] < positions@[k2],
    ensures
        ({
            let sp = spec_cell_slice(var.spec_dims().len() as int, positions@, coord@);
            &&& (r is Ok <==> (var.slice_ok(sp) && scaled_ok(var.spec_slice(sp))))
            &&& (var.slice_ok(sp) && !scaled_ok(var.spec_slice(sp))) ==> r == Err::<
                SimpleCropConfig,
                Error,
            >(Error::MalformedRecord)
            &&& r is Ok ==> ({
                let c = r->Ok_0;
                &&& series_seq(c.daily.rainfall) == spec_cell_result(*var, positions@, coord@)
                &&& series_seq(c.daily.irrigation) == series_seq(daily.irrigation)
                &&& series_seq(c.daily.temp_max) == series_seq(daily.temp_max)
                &&& series_seq(c.daily.temp_min) == series_seq(daily.temp_min)
                &&& series_seq(c.daily.photosynthetic_energy_flux) == series_seq(
                    daily.photosynthetic_energy_flux,
                )
                &&& series_seq(c.daily.energy_flux) == series_seq(daily.energy_flux)
                &&& c.yearly == *yearly
            })
        }),
{
    let dims = var.get_dimensions();
    let sp = cell_slice(dims.len(), positions, coord);
    let vals = match var.slice(&sp) {
        Ok(v) => v,
        Err(e) => {
            return Err(e);
        },
    };
    let rain = match convert_driver(&vals) {
        Some(v) => v,
        None => {
            return Err(Error::MalformedRecord);
        },
    };
    Ok(
        SimpleCropConfig {
            daily: DailyData {
                irrigation: daily.irrigation.duplicate(),
                temp_max: daily.temp_max.duplicate(),
                temp_min: daily.temp_min.duplicate(),
                rainfall: Series::from_vec(rain),
                photosynthetic_energy_flux: daily.photosynthetic_energy_flux.duplicate(),
                energy_flux: daily.energy_flux.duplicate(),
            },
            yearly: *yearly,
        },
    )
}

/// The lifecycle of one cell's run.
#[derive(Clone, Copy, Debug, PartialEq, Eq, Structural)]
pub enum CellState {
    Pending,
    InputsWritten,
    Running,
    Completed,
    Failed,
}

/// What the surrounding program reports back about one cell. `Cancelled`
/// aborts the run: a cell that has not completed is failed, and a running
/// process is to be sent a termination signal with no partial-output
/// salvage.
#[derive(Clone, Copy, Debug, PartialEq, Eq, Structural)]
pub enum CellEvent {
    InputsSaved,
    SaveFailed,
    Started,
    StartFailed,
    ExitedOk,
    ExitedErr,
    OutputsRead,
    ReadFailed,
    Cancelled,
}

/// The per-cell transition table. Writing the inputs precedes starting;
/// the process must exit successfully before its outputs count; any
/// failure, including a failed output read, ends the cell in `Failed`.
/// Cancellation fails every cell that has not completed; a completed
/// cell's outputs are retained. An event that does not apply to the
/// current state leaves it unchanged.
pub open spec fn spec_step(s: CellState, e: CellEvent) -> CellState {
    match (s, e) {
        (CellState::Pending, CellEvent::InputsSaved) => CellState::InputsWritten,
        (CellState::Pending, CellEvent::SaveFailed) => CellState::Failed,
        (CellState::InputsWritten, CellEvent::Started) => CellState::Running,
        (CellState::InputsWritten, CellEvent::StartFailed) => CellState::Failed,
        (CellState::Running, CellEvent::ExitedOk) => CellState::Completed,
        (CellState::Running, CellEvent::ExitedErr) => CellState::Failed,
        (CellState::Completed, CellEvent::OutputsRead) => CellState::Completed,
        (CellState::Completed, CellEvent::ReadFailed) => CellState::Failed,
        (CellState::Completed, CellEvent::Cancelled) => CellState::Completed,
        (_, CellEvent::Cancelled) => CellState::Failed,
        (_, _) => s,
    }
}

/// Apply one event to one cell's state.
pub fn step(s: CellState, e: CellEvent) -> (r: CellState)
    ensures
        r == spec_step(s, e),
{
    match (s, e) {
        (CellState::Pending, CellEvent::InputsSaved) => CellState::InputsWritten,
        (CellState::Pending, CellEvent::SaveFailed) => CellState::Failed,
        (CellState::InputsWritten, CellEvent::Started) => CellState::Running,
        (CellState::InputsWritten, CellEvent::StartFailed) => CellState::Failed,
        (CellState::Running, CellEvent::ExitedOk) => CellState::Completed,
        (CellState::Running, CellEvent::ExitedErr) => CellState::Failed,
        (CellState::Completed, CellEvent::OutputsRead) => CellState::Completed,
        (CellState::Completed, CellEvent::ReadFailed) => CellState::Failed,
        (CellState::Completed, CellEvent::Cancelled) => CellState::Completed,
        (_, CellEvent::Cancelled) => CellState::Failed,
        (_, _) => s,
    }
}

/// The number of cells among the first `upto` that are running.
pub open spec fn count_running(states: Seq<CellState>, upto: int) -> int
    decreases upto,
{
    if upto <= 0 {
        0
    } else {
        count_running(states, upto - 1) + if states[upto - 1] is Running {
            1int
        } else {
            0int
        }
    }
}

/// Bookkeeping for a bounded-concurrency run over the grid's cells, in
/// enumeration order. At most `limit` cells run at once; in fail-fast mode
/// no further cell is launched once any cell has failed.
#[derive(Debug)]
pub struct Scheduler {
    pub states: Vec<CellState>,
    pub limit: usize,
    pub fail_fast: bool,
}

impl Scheduler {
    /// A fresh run over `n` cells: every cell pending.
    pub fn new(n: usize, limit: usize, fail_fast: bool) -> (r: Scheduler)
        requires
            limit >= 1,
        ensures
            r.states@.len() == n,
            forall|i: int| 0 <= i < n ==> (#[trigger] r.states@[i]) is Pending,
            r.limit == limit,
            r.fail_fast == fail_fast,
    {
        let mut states: Vec<CellState> = Vec::new();
        let mut i: usize = 0;
        while i < n
            invariant
                i <= n,
                states@.len() == i,
                forall|m: int| 0 <= m < i ==> (#[trigger] states@[m]) is Pending,
            decreases n - i,
        {
            states.push(CellState::Pending);
            i = i + 1;
        }
        Scheduler { states, limit, fail_fast }
    }

    /// One more cell may be launched now: the pool is not full, and no
    /// failure blocks a fail-fast run.
    pub fn can_launch(&self) -> (r: bool)
        ensures
            r == (count_running(self.states@, self.states@.len() as int) < self.limit && !(
            self.fail_fast && exists|i: int|
                0 <= i < self.states@.len() && (#[trigger] self.states@[i]) is Failed)),
    {
        let n = self.states.len();
        let mut running: usize = 0;
        let mut failed = false;
        let mut i: usize = 0;
        while i < n
            invariant
                n == self.states@.len(),
                i <= n,
                running == count_running(self.states@, i as int),
                running <= i,
                failed == exists|m: int|
                    0 <= m < i && (#[trigger] self.states@[m]) is Failed,
            decreases n - i,
        {
            match self.states[i] {
                CellState::Running => {
                    running = running + 1;
                },
                CellState::Failed => {
                    failed = true;
                },
                _ => {},
            }
            i = i + 1;
        }
        running < self.limit && !(self.fail_fast && failed)
    }

    /// The first cell still pending, in enumeration order.
    pub fn next_pending(&self) -> (r: Option<usize>)
        ensures
            r is Some ==> r->0 < self.states@.len() && self.states@[r->0 as int] is Pending && (
            forall|m: int| 0 <= m < r->0 ==> !((#[trigger] self.states@[m]) is Pending)),
            r is None ==> forall|m: int|
                0 <= m < self.states@.len() ==> !((#[trigger] self.states@[m]) is Pending),
    {
        let n = self.states.len();
        let mut i: usize = 0;
        while i < n
            invariant
                n == self.states@.len(),
                i <= n,
                forall|m: int| 0 <= m < i ==> !((#[trigger] self.states@[m]) is Pending),
            decreases n - i,
        {
            match self.states[i] {
                CellState::Pending => {
                    return Some(i);
                },
                _ => {},
            }
            i = i + 1;
        }
        None
    }

    /// The first cell that has failed, if any: the run-level result of a
    /// fail-fast run is this cell's failure.
    pub fn first_failed(&self) -> (r: Option<usize>)
        ensures
            r is Some ==> r->0 < self.states@.len() && self.states@[r->0 as int] is Failed && (
            forall|m: int| 0 <= m < r->0 ==> !((#[trigger] self.states@[m]) is Failed)),
            r is None ==> forall|m: int|
                0 <= m < self.states@.len() ==> !((#[trigger] self.states@[m]) is Failed),
    {
        let n = self.states.len();
        let mut i: usize = 0;
        while i < n
            invariant
                n == self.states@.len(),
                i <= n,
                forall|m: int| 0 <= m < i ==> !((#[trigger] self.states@[m]) is Failed),
            decreases n - i,
        {
            match self.states[i] {
                CellState::Failed => {
                    return Some(i);
                },
                _ => {},
            }
            i = i + 1;
        }
        None
    }

    /// Every failed cell, in enumeration order: the run-level result of a
    /// bounded-concurrency run is this aggregate.
    pub fn failed_cells(&self) -> (r: Vec<usize>)
        ensures
            forall|k: int|
                0 <= k < r@.len() ==> (#[trigger] r@[k]) < self.states@.len()
                    && self.states@[r@[k] as int] is Failed,
            forall|k1: int, k2: int| 0 <= k1 < k2 < r@.len() ==> r@[k1] < r@[k2],
            forall|m: int|
                0 <= m < self.states@.len() && (#[trigger] self.states@[m]) is Failed ==> r@.contains(
                    m as usize,
                ),
    {
        let n = self.states.len();
        let mut out: Vec<usize> = Vec::new();
        let mut i: usize = 0;
        while i < n
            invariant
                n == self.states@.len(),
                i <= n,
                forall|k: int|
                    0 <= k < out@.len() ==> (#[trigger] out@[k]) < i && self.states@[out@[
                        k
                    ] as int] is Failed,
                forall|k1: int, k2: int| 0 <= k1 < k2 < out@.len() ==> out@[k1] < out@[k2],
                forall|m: int|
                    0 <= m < i && (#[trigger] self.states@[m]) is Failed ==> out@.contains(
                        m as usize,
                    ),
            decreases n - i,
        {
            let ghost out0 = out@;
            match self.states[i] {
                CellState::Failed => {
                    out.push(i);
                    proof {
                        assert(out@[out@.len() - 1] == i as usize);
                        assert forall|m: int|
                            0 <= m < i + 1 && (#[trigger] self.states@[m]) is Failed implies out@.contains(
                            m as usize,
                        ) by {
                            if m < i {
                                let k = choose|k: int| 0 <= k < out0.len() && out0[k] == m as usize;
                                assert(out@[k] == m as usize);
                            }
                        }
                    }
                },
                _ => {},
            }
            i = i + 1;
        }
        out
    }

    /// Record what happened to cell `i`: its state advances by the
    /// transition table; every other cell keeps its state.
    pub fn apply_event(&mut self, i: usize, e: CellEvent)
        requires
            i < old(self).states@.len(),
        ensures
            final(self).states@ == old(self).states@.update(
                i as int,
                spec_step(old(self).states@[i as int], e),
            ),
            final(self).limit == old(self).limit,
            final(self).fail_fast == old(self).fail_fast,
    {
        let n = self.states.len();
        let next = step(self.states[i], e);
        let mut updated: Vec<CellState> = Vec::new();
        let mut j: usize = 0;
        while j < n
            invariant
                n == self.states@.len(),
                i < n,
                next == spec_step(self.states@[i as int], e),
                j <= n,
                updated@.len() == j,
                forall|m: int|
                    0 <= m < j ==> (#[trigger] updated@[m]) == if m == i {
                        next
                    } else {
                        self.states@[m]
                    },
            decreases n - j,
        {
            if j == i {
                updated.push(next);
            } else {
                updated.push(self.states[j]);
            }
            j = j + 1;
        }
        proof {
            assert(updated@ =~= self.states@.update(
                i as int,
                spec_step(self.states@[i as int], e),
            ));
        }
        self.states = updated;
    }
}

/// The per-cell results of processing the cells of `order`, one after the
/// other: a map from coordinate tuple to that cell's converted series.
pub open spec fn run_results<V: Variable>(
    var: V,
    positions: Seq<usize>,
    order: Seq<Seq<usize>>,
) -> Map<Seq<usize>, Seq<i64>>
    decreases order.len(),
{
    if order.len() == 0 {
        Map::empty()
    } else {
        run_results(var, positions, order.drop_last()).insert(
            order.last(),
            spec_cell_result(var, positions, order.last()),
        )
    }
}

proof fn lemma_run_results_char<V: Variable>(var: V, positions: Seq<usize>, order: Seq<Seq<usize>>)
    ensures
        run_results(var, positions, order).dom() == order.to_set(),
        forall|c: Seq<usize>|
            order.to_set().contains(c) ==> run_results(var, positions, order)[c]
                == spec_cell_result(var, positions, c),
    decreases order.len(),
{
    if order.len() == 0 {
        assert(order.to_set() =~= Set::<Seq<usize>>::empty());
        assert(run_results(var, positions, order).dom() =~= order.to_set());
    } else {
        let t = order.drop_last();
        lemma_run_results_char(var, positions, t);
        assert forall|c: Seq<usize>| order.to_set().contains(c) implies t.to_set().contains(c)
            || c == order.last() by {
            let i = choose|i: int| 0 <= i < order.len() && order[i] == c;
            if i < order.len() - 1 {
                assert(t[i] == c);
                assert(t.contains(c));
            }
        }
        assert forall|c: Seq<usize>| t.to_set().contains(c) implies order.to_set().contains(
            c,
        ) by {
            let i = choose|i: int| 0 <= i < t.len() && t[i] == c;
            assert(order[i] == c);
            assert(order.contains(c));
        }
        assert(order.contains(order.last()));
        assert(order.to_set() =~= t.to_set().insert(order.last()));
        assert(run_results(var, positions, order).dom() =~= order.to_set());
    }
}

/// Scheduling independence: each cell's result is a function of the cell
/// alone, so any two processing orders that cover the same cells produce
/// identical per-cell results.
pub proof fn lemma_schedule_determinism<V: Variable>(
    var: V,
    positions: Seq<usize>,
    order1: Seq<Seq<usize>>,
    order2: Seq<Seq<usize>>,
)
    requires
        order1.to_set() == order2.to_set(),
    ensures
        run_results(var, positions, order1) == run_results(var, positions, order2),
{
    lemma_run_results_char(var, positions, order1);
    lemma_run_results_char(var, positions, order2);
    assert(run_results(var, positions, order1) =~= run_results(var, positions, order2));
}

} // verus!
