//! The generation scheduler: the lifecycle of one map, and the decisions
//! taken when a pass is asked for, when one comes back, and on reset. The
//! host runs the passes wherever it likes and hands their results in.

use vstd::prelude::*;
use crate::grid::{GridError, GridModel, TerrainGrid};
use crate::relax::{
    is_pass_outcome, is_settled, lemma_pass_outcome_on_settled_grid, MapChunkResult,
};
use crate::table::ConflictTable;

verus! {

/// The conflict count of a map on which no pass has been integrated yet.
pub const CONFLICTS_START: usize = 1000;

/// Where the generation of a map stands.
#[derive(Debug, Clone, Copy, PartialEq, Eq, Structural)]
pub enum MapGenerationStatus {
    /// Nothing was generated yet, or the map was reset.
    Init,
    /// A pass was handed out and its result is awaited.
    Generating,
    /// The last pass found nothing contested, or the cap on passes was met.
    Generated,
}

/// A pass to run: the grid to relax, and the epoch that the result has to
/// carry to be taken.
#[derive(Debug)]
pub struct PassTicket {
    pub epoch: u64,
    pub snapshot: TerrainGrid,
}

/// A pass that has run: its result, and the epoch of the ticket it ran for.
#[derive(Debug)]
pub struct CompletedPass {
    pub epoch: u64,
    pub result: MapChunkResult,
}

/// What a tick did.
#[derive(Debug)]
pub enum TickOutcome {
    /// No result was handed in.
    Idle,
    /// The result handed in was not the awaited one, and was dropped.
    Discarded,
    /// The result handed in replaced the map. With a ticket, generation goes
    /// on with that pass; without, the map is generated.
    Integrated(Option<PassTicket>),
}

/// The scheduler as mathematics.
#[verifier::ext_equal]
pub struct SchedulerModel {
    pub grid: GridModel,
    pub status: MapGenerationStatus,
    pub iteration: int,
    pub conflict_count: int,
    pub epoch: int,
    pub iteration_cap: int,
}

/// A completed pass as mathematics.
#[verifier::ext_equal]
pub struct CompletedModel {
    pub epoch: int,
    pub grid: GridModel,
    pub conflicts_count: int,
}

impl View for CompletedPass {
    type V = CompletedModel;

    open spec fn view(&self) -> CompletedModel {
        CompletedModel {
            epoch: self.epoch as int,
            grid: self.result.map@,
            conflicts_count: self.result.conflicts_count as int,
        }
    }
}

/// The result handed to a tick as mathematics.
pub open spec fn handed_in(finished: Option<CompletedPass>) -> Option<CompletedModel> {
    match finished {
        Some(pass) => Some(pass@),
        None => None,
    }
}

/// The epoch after `epoch`; the counter starts over after `u64::MAX`.
pub open spec fn next_epoch(epoch: int) -> int {
    if epoch == u64::MAX {
        0
    } else {
        epoch + 1
    }
}

/// The count of passes after one more; it stays at `u64::MAX` once there.
pub open spec fn next_iteration(iteration: int) -> int {
    if iteration < u64::MAX {
        iteration + 1
    } else {
        iteration
    }
}

/// A fresh scheduler for a grid of the given size: every cell unassigned,
/// no pass counted, and no cap on the passes short of `u64::MAX`.
pub open spec fn start_model(width: int, height: int) -> SchedulerModel {
    SchedulerModel {
        grid: GridModel::blank(width, height),
        status: MapGenerationStatus::Init,
        iteration: 0,
        conflict_count: CONFLICTS_START as int,
        epoch: 0,
        iteration_cap: u64::MAX as int,
    }
}

/// Whether a request for generation hands out a ticket: it does unless a
/// pass is awaited already.
pub open spec fn request_dispatches(s: SchedulerModel) -> bool {
    s.status != MapGenerationStatus::Generating
}

/// The scheduler after a request for generation: it awaits the pass of a new
/// epoch, unless it awaited one already.
pub open spec fn request_model(s: SchedulerModel) -> SchedulerModel {
    if request_dispatches(s) {
        SchedulerModel {
            status: MapGenerationStatus::Generating,
            epoch: next_epoch(s.epoch),
            ..s
        }
    } else {
        s
    }
}

/// Whether the completed pass `c` is the one that `s` awaits: a pass is
/// awaited, `c` carries its epoch, and the grid of `c` has the size of the
/// map.
pub open spec fn is_awaited(s: SchedulerModel, c: CompletedModel) -> bool {
    &&& s.status == MapGenerationStatus::Generating
    &&& c.epoch == s.epoch
    &&& c.grid.width == s.grid.width
    &&& c.grid.height == s.grid.height
}

/// Whether generation goes on after the awaited pass `c`: contested cells
/// remain, and the cap on passes is not met.
pub open spec fn goes_on(s: SchedulerModel, c: CompletedModel) -> bool {
    c.conflicts_count > 0 && next_iteration(s.iteration) < s.iteration_cap
}

/// The scheduler after the awaited pass `c` was integrated.
pub open spec fn integrate_model(s: SchedulerModel, c: CompletedModel) -> SchedulerModel {
    SchedulerModel {
        grid: c.grid,
        status: if goes_on(s, c) {
            MapGenerationStatus::Generating
        } else {
            MapGenerationStatus::Generated
        },
        iteration: next_iteration(s.iteration),
        conflict_count: c.conflicts_count,
        epoch: if goes_on(s, c) {
            next_epoch(s.epoch)
        } else {
            s.epoch
        },
        iteration_cap: s.iteration_cap,
    }
}

/// The scheduler after a tick: the awaited pass is integrated, anything else
/// leaves the scheduler as it is.
pub open spec fn tick_model(s: SchedulerModel, finished: Option<CompletedModel>) -> SchedulerModel {
    match finished {
        Some(c) => if is_awaited(s, c) {
            integrate_model(s, c)
        } else {
            s
        },
        None => s,
    }
}

/// The scheduler after a reset: the map is blank again, no pass is counted
/// or awaited, and the epoch and the cap stay.
pub open spec fn reset_model(s: SchedulerModel) -> SchedulerModel {
    SchedulerModel {
        grid: GridModel::blank(s.grid.width, s.grid.height),
        status: MapGenerationStatus::Init,
        iteration: 0,
        conflict_count: CONFLICTS_START as int,
        epoch: s.epoch,
        iteration_cap: s.iteration_cap,
    }
}

/// The count of passes never goes down while a map is generated: neither a
/// request nor a tick lowers it, whatever is handed in. Only a reset brings
/// it back to zero.
pub proof fn lemma_iteration_monotone(s: SchedulerModel, finished: Option<CompletedModel>)
    ensures
        tick_model(s, finished).iteration >= s.iteration,
        request_model(s).iteration == s.iteration,
        reset_model(s).iteration == 0,
{
}

/// At most one pass is in flight: while one is awaited, a request hands out
/// no ticket and changes nothing, and a tick hands one out only as it takes
/// the awaited result in.
pub proof fn lemma_one_pass_in_flight(s: SchedulerModel, finished: Option<CompletedModel>)
    requires
        s.status == MapGenerationStatus::Generating,
    ensures
        !request_dispatches(s),
        request_model(s) == s,
        tick_model(s, finished) != s ==> (finished matches Some(c) && is_awaited(s, c)),
{
}

/// The live map is only ever replaced whole, by the awaited result: a
/// request, a tick without a result and a tick with any other result leave
/// it as it is.
pub proof fn lemma_map_changes_only_on_integration(
    s: SchedulerModel,
    finished: Option<CompletedModel>,
)
    ensures
        request_model(s).grid == s.grid,
        tick_model(s, None).grid == s.grid,
        tick_model(s, finished).grid != s.grid ==> (finished matches Some(c) && is_awaited(s, c)
            && tick_model(s, finished).grid == c.grid),
{
}

/// Generation ends with the pass that finds nothing contested, and with the
/// pass that meets the cap: the awaited result is integrated, and the map is
/// generated.
pub proof fn lemma_generation_ends(s: SchedulerModel, c: CompletedModel)
    requires
        is_awaited(s, c),
        c.conflicts_count == 0 || next_iteration(s.iteration) >= s.iteration_cap,
    ensures
        tick_model(s, Some(c)).status == MapGenerationStatus::Generated,
        tick_model(s, Some(c)).grid == c.grid,
        tick_model(s, Some(c)).conflict_count == c.conflicts_count,
{
}

/// On a settled map generation ends with the first pass, whatever that pass
/// draws, and the map stays as it is.
pub proof fn lemma_settled_map_ends_generation(
    t: ConflictTable,
    s: SchedulerModel,
    c: CompletedModel,
)
    requires
        is_settled(t, s.grid),
        is_awaited(s, c),
        is_pass_outcome(t, s.grid, c.grid, c.conflicts_count),
    ensures
        tick_model(s, Some(c)).status == MapGenerationStatus::Generated,
        tick_model(s, Some(c)).grid == s.grid,
        tick_model(s, Some(c)).conflict_count == 0,
{
    lemma_pass_outcome_on_settled_grid(t, s.grid, c.grid, c.conflicts_count);
}

/// A pass that was in flight at a reset is dropped when it comes in: the
/// map stays blank. That holds too when generation was asked for again
/// before the stale result came in, for a result that carries the epoch
/// from before the reset.
pub proof fn lemma_reset_drops_pass_in_flight(s: SchedulerModel, stale: CompletedModel)
    ensures
        tick_model(reset_model(s), Some(stale)) == reset_model(s),
        reset_model(s).grid.all_undeclared(),
        stale.epoch == s.epoch ==> tick_model(request_model(reset_model(s)), Some(stale))
            == request_model(reset_model(s)),
{
}

/// The live map with the state of its generation.
#[derive(Debug)]
pub struct GenerationScheduler {
    cells: TerrainGrid,
    gen_status: MapGenerationStatus,
    iteration: u64,
    conflicts_count: usize,
    epoch: u64,
    iteration_cap: u64,
}

impl View for GenerationScheduler {
    type V = SchedulerModel;

    closed spec fn view(&self) -> SchedulerModel {
        SchedulerModel {
            grid: self.cells@,
            status: self.gen_status,
            iteration: self.iteration as int,
            conflict_count: self.conflicts_count as int,
            epoch: self.epoch as int,
            iteration_cap: self.iteration_cap as int,
        }
    }
}

impl GenerationScheduler {
    /// A scheduler for a blank map of the given size, with no cap on the
    /// passes. The size is refused where a grid of that size is.
    pub fn start_generation(width: i64, height: i64) -> (r: Result<GenerationScheduler, GridError>)
        ensures
            r is Ok <==> width > 0 && height > 0 && width * height <= isize::MAX,
            r matches Ok(s) ==> s@ == start_model(width as int, height as int),
            r matches Err(e) ==> (e == GridError::NonPositiveDimension <==> width <= 0 || height
                <= 0),
    {
        match TerrainGrid::new(width, height) {
            Ok(cells) => Ok(
                GenerationScheduler {
                    cells,
                    gen_status: MapGenerationStatus::Init,
                    iteration: 0,
                    conflicts_count: CONFLICTS_START,
                    epoch: 0,
                    iteration_cap: u64::MAX,
                },
            ),
            Err(e) => Err(e),
        }
    }

    /// The same scheduler with `iteration_cap` as the number of passes after
    /// which generation ends even with contested cells left. A request
    /// always runs one pass, so a cap of zero ends generation as a cap of
    /// one does.
    pub fn with_iteration_cap(self, iteration_cap: u64) -> (s: GenerationScheduler)
        ensures
            s@ == (SchedulerModel { iteration_cap: iteration_cap as int, ..self@ }),
    {
        GenerationScheduler {
            cells: self.cells,
            gen_status: self.gen_status,
            iteration: self.iteration,
            conflicts_count: self.conflicts_count,
            epoch: self.epoch,
            iteration_cap,
        }
    }

    /// The epoch after the current one.
    fn following_epoch(&self) -> (e: u64)
        ensures
            e == next_epoch(self.epoch as int),
    {
        if self.epoch == u64::MAX {
            0
        } else {
            self.epoch + 1
        }
    }

    /// Asks for generation. Unless a pass is awaited already, the scheduler
    /// starts to await one, and hands out the ticket for it: a copy of the
    /// live grid under a new epoch.
    pub fn request_generate(&mut self) -> (ticket: Option<PassTicket>)
        ensures
            final(self)@ == request_model(old(self)@),
            ticket is Some <==> request_dispatches(old(self)@),
            ticket matches Some(t) ==> {
                &&& t.snapshot@ == final(self)@.grid
                &&& t.epoch == final(self)@.epoch
            },
    {
        if self.gen_status == MapGenerationStatus::Generating {
            return None;
        }
        self.epoch = self.following_epoch();
        self.gen_status = MapGenerationStatus::Generating;
        Some(PassTicket { epoch: self.epoch, snapshot: self.cells.clone() })
    }

    /// Whether `pass` is the awaited one.
    fn awaits(&self, pass: &CompletedPass) -> (b: bool)
        ensures
            b == is_awaited(self@, pass@),
    {
        self.gen_status == MapGenerationStatus::Generating && pass.epoch == self.epoch
            && pass.result.map.width() == self.cells.width() && pass.result.map.height()
            == self.cells.height()
    }

    /// One tick of the host loop, with the result of a pass if one has come
    /// in since the last tick. The awaited result replaces the live grid,
    /// sets the conflict count and counts as one more pass; generation then
    /// goes on with a new ticket while cells are contested and the cap is not
    /// met, and ends otherwise. Any other result is dropped.
    pub fn tick(&mut self, finished: Option<CompletedPass>) -> (outcome: TickOutcome)
        ensures
            final(self)@ == tick_model(old(self)@, handed_in(finished)),
            outcome is Idle <==> finished is None,
            outcome is Discarded <==> (finished matches Some(pass) && !is_awaited(
                old(self)@,
                pass@,
            )),
            outcome matches TickOutcome::Integrated(next) ==> {
                &&& finished matches Some(pass) && (next is Some <==> goes_on(old(self)@, pass@))
                &&& next matches Some(t) ==> {
                    &&& t.snapshot@ == final(self)@.grid
                    &&& t.epoch == final(self)@.epoch
                }
            },
    {
        let pass = match finished {
            Some(pass) => pass,
            None => {
                return TickOutcome::Idle;
            },
        };
        if !self.awaits(&pass) {
            return TickOutcome::Discarded;
        }
        let conflicts = pass.result.conflicts_count;
        self.cells = pass.result.map;
        self.conflicts_count = conflicts;
        if self.iteration < u64::MAX {
            self.iteration = self.iteration + 1;
        }
        if conflicts > 0 && self.iteration < self.iteration_cap {
            self.epoch = self.following_epoch();
            TickOutcome::Integrated(
                Some(PassTicket { epoch: self.epoch, snapshot: self.cells.clone() }),
            )
        } else {
            self.gen_status = MapGenerationStatus::Generated;
            TickOutcome::Integrated(None)
        }
    }

    /// Back to the start: every cell unassigned, no pass counted, nothing
    /// awaited. A pass that is still running will find its result dropped.
    pub fn reset(&mut self)
        ensures
            final(self)@ == reset_model(old(self)@),
    {
        self.cells.clear();
        self.gen_status = MapGenerationStatus::Init;
        self.iteration = 0;
        self.conflicts_count = CONFLICTS_START;
    }

    /// The live grid.
    pub fn current_grid(&self) -> (grid: &TerrainGrid)
        ensures
            grid@ == self@.grid,
    {
        &self.cells
    }

    /// Where generation stands.
    pub fn status(&self) -> (status: MapGenerationStatus)
        ensures
            status == self@.status,
    {
        self.gen_status
    }

    /// Whether generation has not ended.
    pub fn is_map_not_generated(&self) -> (b: bool)
        ensures
            b == (self@.status != MapGenerationStatus::Generated),
    {
        self.gen_status != MapGenerationStatus::Generated
    }

    /// The number of passes integrated since the start or the last reset.
    pub fn iteration(&self) -> (n: u64)
        ensures
            n == self@.iteration,
    {
        self.iteration
    }

    /// The count of contested samples that the pass integrated last
    /// reported; `CONFLICTS_START` before the first.
    pub fn conflict_count(&self) -> (n: usize)
        ensures
            n == self@.conflict_count,
    {
        self.conflicts_count
    }

    /// The epoch of the ticket handed out last; 0 before the first.
    pub fn epoch(&self) -> (e: u64)
        ensures
            e == self@.epoch,
    {
        self.epoch
    }

    /// The number of passes after which generation ends in any case.
    pub fn iteration_cap(&self) -> (cap: u64)
        ensures
            cap == self@.iteration_cap,
    {
        self.iteration_cap
    }
}

} // verus!
