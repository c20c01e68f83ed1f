//! The decisions of the control panel: what each button, field and click does
//! to the simulation, its snapshot and the status shown.
use vstd::prelude::*;

use crate::ant::{
    AntModel, LangtonsAnt, cells_in_palette, fresh, loaded, law_run_add, law_run_counts_moves,
    law_run_keeps_palette, law_stopped_is_final, law_safe_run_counter_fits,
};
use crate::config::{Solution, lemma_decoded_in_palette};

verus! {

/// What the last "Run N steps" request led to.
#[derive(Clone, Copy, Debug, PartialEq, Eq, Structural)]
pub enum RunStatus {
    /// Nothing to report.
    Clear,
    /// The number typed was zero.
    NeedsPositive,
    /// The text typed was not a number.
    InvalidNumber,
    /// `done` steps were taken; the counter now stands at `total`.
    Ran { done: u64, total: u64 },
    /// `done` steps were taken and then the ant left the grid.
    RanThenExited { done: u64, total: u64 },
}

/// What the status panel shows.
#[derive(Clone, Copy, Debug, PartialEq, Eq, Structural)]
pub enum Activity {
    OutOfBounds,
    Running,
    Paused,
}

/// An action of the control panel that works on the simulation alone.
#[derive(Clone, Copy, Debug, PartialEq, Eq, Structural)]
pub enum PanelAction {
    /// "Step x1".
    SingleStep,
    /// One displayed frame.
    Frame,
    /// "Run N steps" with the count read from the field.
    RunRequest(Option<u64>),
    /// A click on a cell.
    Click(isize, isize),
    /// "Run".
    Run,
    /// "Pause".
    Pause,
}

/// The colour a cell takes when it is clicked: gray becomes white, white and
/// black swap.
pub open spec fn toggled(v: u8) -> u8 {
    if v == 2 { 0 } else { (1 - v) as u8 }
}

/// The mathematical state of the control panel.
pub struct SessionModel {
    pub sim: AntModel,
    pub snapshot: AntModel,
    pub running: bool,
    pub steps_per_frame: nat,
    pub ant_mode: bool,
    pub status: RunStatus,
}

impl SessionModel {
    /// Both the simulation and its snapshot are well-formed and hold only
    /// white, black and gray cells.
    pub open spec fn wf(self) -> bool {
        &&& self.sim.wf()
        &&& self.snapshot.wf()
        &&& cells_in_palette(self.sim.grid)
        &&& cells_in_palette(self.snapshot.grid)
    }

    /// The state after the current simulation is kept as the snapshot.
    pub open spec fn after_take_snapshot(self) -> SessionModel {
        SessionModel { snapshot: self.sim, ..self }
    }

    /// The state after "Reset": the snapshot is back, paused, no status.
    pub open spec fn after_reset(self) -> SessionModel {
        SessionModel { sim: self.snapshot, running: false, status: RunStatus::Clear, ..self }
    }

    /// The state after a new simulation `sim` replaces the old one: it is also
    /// the snapshot, paused, no status.
    pub open spec fn after_replace(self, sim: AntModel) -> SessionModel {
        SessionModel { sim, snapshot: sim, running: false, status: RunStatus::Clear, ..self }
    }

    /// The status after a run request of `n` steps from `before`.
    pub open spec fn run_report(before: AntModel, n: nat) -> RunStatus {
        let after = before.run(n);
        let done = (after.steps - before.steps) as u64;
        if after.stopped {
            RunStatus::RanThenExited { done, total: after.steps as u64 }
        } else {
            RunStatus::Ran { done, total: after.steps as u64 }
        }
    }

    /// The state after "Run N steps" with the count read from the field
    /// (`None` when the text was not a number).
    pub open spec fn after_run_request(self, count: Option<u64>) -> SessionModel {
        match count {
            Some(n) => if n == 0 {
                SessionModel { running: false, status: RunStatus::NeedsPositive, ..self }
            } else {
                let steps = n as nat;
                SessionModel {
                    sim: self.sim.run(steps),
                    running: false,
                    status: Self::run_report(self.sim, steps),
                    ..self
                }
            },
            None => SessionModel { running: false, status: RunStatus::InvalidNumber, ..self },
        }
    }

    /// The state after one displayed frame: a running simulation advances by
    /// `steps_per_frame` steps.
    pub open spec fn after_frame(self) -> SessionModel {
        if self.running && !self.sim.stopped {
            SessionModel { sim: self.sim.run(self.steps_per_frame), ..self }
        } else {
            self
        }
    }

    /// The state after "Step x1": paused, one step, no status.
    pub open spec fn after_single_step(self) -> SessionModel {
        SessionModel { sim: self.sim.next(), running: false, status: RunStatus::Clear, ..self }
    }

    /// The state after a click on cell `(r, c)`. Outside the grid nothing
    /// happens. In ant mode a click on the ant turns it right, a click
    /// elsewhere puts the ant there, running again; otherwise the cell's
    /// colour toggles.
    pub open spec fn after_click(self, r: int, c: int) -> SessionModel {
        if !self.sim.in_bounds(r, c) {
            self
        } else if self.ant_mode {
            if self.sim.row == r && self.sim.col == c {
                SessionModel { sim: AntModel { dir: (self.sim.dir + 1) % 4, ..self.sim }, ..self }
            } else {
                SessionModel { sim: AntModel { row: r, col: c, stopped: false, ..self.sim }, ..self }
            }
        } else {
            SessionModel { sim: self.sim.with_cell(r, c, toggled(self.sim.cell(r, c))), ..self }
        }
    }

    /// "Run" can be pressed: the ant is still running and the session is paused.
    pub open spec fn run_enabled(self) -> bool {
        !self.sim.stopped && !self.running
    }

    /// "Step x1" and "Jump" can be pressed: the ant is still running.
    pub open spec fn step_enabled(self) -> bool {
        !self.sim.stopped
    }

    /// The state after "Run": running, when the button can be pressed.
    pub open spec fn after_press_run(self) -> SessionModel {
        if self.run_enabled() { SessionModel { running: true, ..self } } else { self }
    }

    /// The state after "Pause" (or any pause): not running.
    pub open spec fn after_press_pause(self) -> SessionModel {
        SessionModel { running: false, ..self }
    }

    /// The state after "Snapshot": paused, the current simulation kept.
    pub open spec fn after_press_snapshot(self) -> SessionModel {
        self.after_press_pause().after_take_snapshot()
    }

    /// The state after one action that works on the simulation alone.
    pub open spec fn after_action(self, a: PanelAction) -> SessionModel {
        match a {
            PanelAction::SingleStep => self.after_single_step(),
            PanelAction::Frame => self.after_frame(),
            PanelAction::RunRequest(count) => self.after_run_request(count),
            PanelAction::Click(r, c) => self.after_click(r as int, c as int),
            PanelAction::Run => self.after_press_run(),
            PanelAction::Pause => self.after_press_pause(),
        }
    }

    /// The state after the actions `acts`, first to last.
    pub open spec fn after_actions(self, acts: Seq<PanelAction>) -> SessionModel
        decreases acts.len(),
    {
        if acts.len() == 0 {
            self
        } else {
            self.after_action(acts[0]).after_actions(acts.drop_first())
        }
    }

    /// What the status panel shows.
    pub open spec fn activity(self) -> Activity {
        if self.sim.stopped {
            Activity::OutOfBounds
        } else if self.running {
            Activity::Running
        } else {
            Activity::Paused
        }
    }
}

/// The control panel's state: the simulation, the snapshot that "Reset"
/// returns to, whether it runs on its own, how many steps each frame takes,
/// what a click does and the status of the last run request.
pub struct Session {
    pub sim: LangtonsAnt,
    pub snapshot: LangtonsAnt,
    pub running: bool,
    /// Steps per rendered frame (continuous run).
    pub steps_per_frame: usize,
    /// false = click toggles cell colour; true = click moves ant.
    pub ant_mode: bool,
    pub status: RunStatus,
}

impl View for Session {
    type V = SessionModel;

    open spec fn view(&self) -> SessionModel {
        SessionModel {
            sim: self.sim@,
            snapshot: self.snapshot@,
            running: self.running,
            steps_per_frame: self.steps_per_frame as nat,
            ant_mode: self.ant_mode,
            status: self.status,
        }
    }
}

/// Takes up to `n` steps, stopping early when the ant exits.
fn run_count(sim: &mut LangtonsAnt, n: u64)
    requires
        old(sim)@.wf(),
        old(sim)@.safe_for(n as nat),
    ensures
        final(sim)@ == old(sim)@.run(n as nat),
        final(sim)@.wf(),
{
    let ghost start = sim@;
    let mut i: u64 = 0;
    while i < n
        invariant_except_break
            i <= n,
            sim@ == start.run(i as nat),
        invariant
            start.wf(),
            start.safe_for(n as nat),
            sim@.wf(),
        ensures
            sim@ == start.run(n as nat),
        decreases n - i,
    {
        assert(start.run(i as nat).can_step());
        let moved = sim.step();
        assert(sim@ == start.run((i + 1) as nat));
        i = i + 1;
        if !moved {
            proof {
                law_stopped_is_final(sim@, (n - i) as nat);
                law_run_add(start, i as nat, (n - i) as nat);
            }
            break;
        }
    }
}

impl Session {
    /// A paused session on a fresh `rows` × `cols` simulation (each at
    /// least 2), which is also the snapshot; 50 steps per frame.
    pub fn new(rows: usize, cols: usize) -> (s: Self)
        requires
            (if rows < 2 { 2 } else { rows }) * (if cols < 2 { 2 } else { cols }) <= isize::MAX,
        ensures
            s@.sim == fresh(rows as nat, cols as nat),
            s@.snapshot == s@.sim,
            !s@.running,
            s@.steps_per_frame == 50,
            !s@.ant_mode,
            s@.status == RunStatus::Clear,
            s@.wf(),
    {
        let sim = LangtonsAnt::new(rows, cols);
        let snapshot = sim.clone();
        Session { sim, snapshot, running: false, steps_per_frame: 50, ant_mode: false, status: RunStatus::Clear }
    }

    /// Keeps the current simulation as the snapshot.
    pub fn take_snapshot(&mut self)
        requires
            old(self)@.wf(),
        ensures
            final(self)@ == old(self)@.after_take_snapshot(),
            final(self)@.wf(),
    {
        self.snapshot = self.sim.clone();
    }

    /// Returns to the snapshot, paused, with no status.
    pub fn reset(&mut self)
        requires
            old(self)@.wf(),
        ensures
            final(self)@ == old(self)@.after_reset(),
            final(self)@.wf(),
    {
        self.sim = self.snapshot.clone();
        self.running = false;
        self.status = RunStatus::Clear;
    }

    /// Starts over on a fresh `rows` × `cols` grid (each at least 2), which is
    /// also the snapshot.
    pub fn resize_grid(&mut self, rows: usize, cols: usize)
        requires
            old(self)@.wf(),
            (if rows < 2 { 2 } else { rows }) * (if cols < 2 { 2 } else { cols }) <= isize::MAX,
        ensures
            final(self)@ == old(self)@.after_replace(fresh(rows as nat, cols as nat)),
            final(self)@.wf(),
    {
        self.sim = LangtonsAnt::new(rows, cols);
        self.snapshot = self.sim.clone();
        self.running = false;
        self.status = RunStatus::Clear;
    }

    /// "Run N steps": pauses, then takes up to `count` steps (stopping early
    /// when the ant exits) and reports how many were taken; zero and text that
    /// is not a number (`None`) are reported instead.
    pub fn do_run_n(&mut self, count: Option<u64>)
        requires
            old(self)@.wf(),
            count matches Some(n) ==> (n > 0 ==> old(self)@.sim.safe_for(n as nat)),
        ensures
            final(self)@ == old(self)@.after_run_request(count),
            final(self)@.wf(),
    {
        self.running = false;
        match count {
            Some(n) => {
                if n == 0 {
                    self.status = RunStatus::NeedsPositive;
                } else {
                    let ghost start = self.sim@;
                    let before = self.sim.step_count;
                    run_count(&mut self.sim, n);
                    proof {
                        law_run_counts_moves(start, n as nat);
                        law_run_keeps_palette(start, n as nat);
                    }
                    let done = self.sim.step_count - before;
                    self.status = if self.sim.stopped {
                        RunStatus::RanThenExited { done, total: self.sim.step_count }
                    } else {
                        RunStatus::Ran { done, total: self.sim.step_count }
                    };
                }
            },
            None => {
                self.status = RunStatus::InvalidNumber;
            },
        }
    }

    /// Replaces the simulation by one started from a stored solution, which
    /// is also the snapshot.
    pub fn load_config(&mut self, rows: usize, cols: usize, sol: &Solution)
        requires
            old(self)@.wf(),
            sol.grid_chars_valid(),
            rows * cols <= isize::MAX,
            loaded(rows as nat, cols as nat, *sol).wf(),
        ensures
            final(self)@ == old(self)@.after_replace(loaded(rows as nat, cols as nat, *sol)),
            final(self)@.wf(),
    {
        self.sim = LangtonsAnt::from_solution(rows, cols, sol);
        proof {
            lemma_decoded_in_palette(sol.grid_text());
        }
        self.snapshot = self.sim.clone();
        self.running = false;
        self.status = RunStatus::Clear;
    }

    /// One displayed frame: a running simulation whose ant is still inside
    /// advances by `steps_per_frame` steps.
    pub fn advance_frame(&mut self)
        requires
            old(self)@.wf(),
            old(self)@.running && !old(self)@.sim.stopped ==> old(self)@.sim.safe_for(
                old(self)@.steps_per_frame,
            ),
        ensures
            final(self)@ == old(self)@.after_frame(),
            final(self)@.wf(),
            final(self)@.running == old(self)@.running,
            final(self)@.snapshot == old(self)@.snapshot,
            final(self)@.status == old(self)@.status,
            old(self)@.running && !old(self)@.sim.stopped ==> final(self)@.sim == old(self)@.sim.run(
                old(self)@.steps_per_frame,
            ),
            !(old(self)@.running && !old(self)@.sim.stopped) ==> final(self)@.sim == old(self)@.sim,
    {
        if self.running && !self.sim.stopped {
            let ghost start = self.sim@;
            self.sim.run_n(self.steps_per_frame);
            proof {
                law_run_keeps_palette(start, self.steps_per_frame as nat);
            }
        }
    }

    /// "Step x1": pauses, takes one step and clears the status.
    pub fn step_once(&mut self)
        requires
            old(self)@.wf(),
            old(self)@.sim.can_step(),
        ensures
            final(self)@ == old(self)@.after_single_step(),
            final(self)@.wf(),
    {
        self.running = false;
        let ghost start = self.sim@;
        self.sim.step();
        proof {
            assert(start.run(0) == start);
            assert(start.run(1) == start.next());
            assert(start.safe_for(1)) by {
                assert forall|k: nat| k < 1 implies #[trigger] start.run(k).can_step() by {
                    assert(k == 0);
                }
            }
            law_run_keeps_palette(start, 1);
        }
        self.status = RunStatus::Clear;
    }

    /// A click on cell `(r, c)` (see `SessionModel::after_click`).
    pub fn click_cell(&mut self, r: isize, c: isize)
        requires
            old(self)@.wf(),
        ensures
            final(self)@ == old(self)@.after_click(r as int, c as int),
            final(self)@.wf(),
    {
        if self.sim.in_bounds(r, c) {
            proof {
                crate::ant::lemma_index_in_range(
                    self.sim.rows as int,
                    self.sim.cols as int,
                    r as int,
                    c as int,
                );
            }
            if self.ant_mode {
                let (ar, ac, ad) = self.sim.ant;
                if ar == r && ac == c {
                    assert(((ad + 1) as u8) & 3 == ((ad + 1) as u8) % 4) by (bit_vector)
                        requires ad < 4;
                    self.sim.ant = (ar, ac, (ad + 1) & 3);
                } else {
                    self.sim.ant = (r, c, self.sim.ant.2);
                    self.sim.stopped = false;
                }
            } else {
                let current = self.sim.cell(r, c);
                if current == 2 {
                    self.sim.set_cell(r, c, 0);
                } else {
                    self.sim.set_cell(r, c, 1 - current);
                }
                proof {
                    let m = old(self)@.sim;
                    let i = m.index(r as int, c as int);
                    assert forall|j: int| 0 <= j < self.sim@.grid.len() implies #[trigger] self.sim@.grid[j]
                        <= 2 by {
                        if j != i {
                            assert(self.sim@.grid[j] == m.grid[j]);
                        }
                    }
                }
            }
        }
    }

    /// Whether "Run" can be pressed.
    pub fn run_enabled(&self) -> (b: bool)
        ensures
            b == self@.run_enabled(),
    {
        !self.sim.stopped && !self.running
    }

    /// Whether "Pause" can be pressed.
    pub fn pause_enabled(&self) -> (b: bool)
        ensures
            b == self@.running,
    {
        self.running
    }

    /// Whether "Step x1" and "Jump" can be pressed.
    pub fn step_enabled(&self) -> (b: bool)
        ensures
            b == self@.step_enabled(),
    {
        !self.sim.stopped
    }

    /// "Run": starts running when the button can be pressed.
    pub fn press_run(&mut self)
        ensures
            final(self)@ == old(self)@.after_press_run(),
    {
        if self.run_enabled() {
            self.running = true;
        }
    }

    /// "Pause": stops running.
    pub fn press_pause(&mut self)
        ensures
            final(self)@ == old(self)@.after_press_pause(),
    {
        self.running = false;
    }

    /// "Snapshot": pauses and keeps the current simulation.
    pub fn press_snapshot(&mut self)
        requires
            old(self)@.wf(),
        ensures
            final(self)@ == old(self)@.after_press_snapshot(),
            final(self)@.wf(),
    {
        self.running = false;
        self.take_snapshot();
    }

    /// What the status panel shows.
    pub fn activity(&self) -> (a: Activity)
        ensures
            a == self@.activity(),
    {
        if self.sim.stopped {
            Activity::OutOfBounds
        } else if self.running {
            Activity::Running
        } else {
            Activity::Paused
        }
    }
}

/// "Reset" right after "Snapshot" gives back the simulation as it was.
pub proof fn law_reset_restores_snapshot(s: SessionModel)
    ensures
        s.after_take_snapshot().after_reset().sim == s.sim,
        s.after_reset().after_reset() == s.after_reset(),
{
}

/// No action on the simulation alone touches the snapshot.
pub proof fn law_actions_keep_snapshot(s: SessionModel, acts: Seq<PanelAction>)
    ensures
        s.after_actions(acts).snapshot == s.snapshot,
    decreases acts.len(),
{
    if acts.len() > 0 {
        law_actions_keep_snapshot(s.after_action(acts[0]), acts.drop_first());
    }
}

/// "Reset" after "Snapshot" gives back the simulation as it was when the
/// snapshot was taken, paused and with no status, whatever steps, runs,
/// frames, clicks, "Run" and "Pause" came in between.
pub proof fn law_reset_after_actions_restores_snapshot(s: SessionModel, acts: Seq<PanelAction>)
    ensures
        s.after_take_snapshot().after_actions(acts).after_reset().sim == s.sim,
        !s.after_take_snapshot().after_actions(acts).after_reset().running,
        s.after_take_snapshot().after_actions(acts).after_reset().status == RunStatus::Clear,
{
    law_actions_keep_snapshot(s.after_take_snapshot(), acts);
}

/// Clicking a white or black cell twice gives back its colour; a gray cell
/// becomes white on the first click.
pub proof fn law_toggle_twice(v: u8)
    requires
        v <= 2,
    ensures
        v <= 1 ==> toggled(toggled(v)) == v,
        v == 2 ==> toggled(v) == 0,
        toggled(v) <= 1,
{
}

/// Four clicks on the ant in ant mode turn it back to where it faced.
pub proof fn law_four_turns(s: SessionModel)
    requires
        s.wf(),
        s.ant_mode,
        s.sim.in_bounds(s.sim.row, s.sim.col),
    ensures
        s.after_click(s.sim.row, s.sim.col).after_click(s.sim.row, s.sim.col).after_click(
            s.sim.row,
            s.sim.col,
        ).after_click(s.sim.row, s.sim.col) == s,
{
}

/// A run request takes at most the requested number of steps.
pub proof fn law_run_request_bounded(s: SessionModel, n: u64)
    requires
        n > 0,
    ensures
        match s.after_run_request(Some(n)).status {
            RunStatus::Ran { done, total } => done <= n,
            RunStatus::RanThenExited { done, total } => done <= n,
            _ => false,
        },
{
    law_run_counts_moves(s.sim, n as nat);
}

/// A displayed frame changes only the simulation: the session keeps running
/// (or paused), the snapshot and status stay; a running session whose ant is
/// still inside advances by `steps_per_frame` steps, any other is left as it
/// is. Two frames of a running session are one run of twice the steps.
pub proof fn law_frame(s: SessionModel)
    ensures
        s.after_frame().running == s.running,
        s.after_frame().snapshot == s.snapshot,
        s.after_frame().status == s.status,
        s.after_frame().steps_per_frame == s.steps_per_frame,
        s.after_frame().ant_mode == s.ant_mode,
        s.running && !s.sim.stopped ==> s.after_frame().sim == s.sim.run(s.steps_per_frame),
        !(s.running && !s.sim.stopped) ==> s.after_frame().sim == s.sim,
        s.running && !s.sim.stopped && !s.after_frame().sim.stopped ==> s.after_frame().after_frame().sim
            == s.sim.run(s.steps_per_frame + s.steps_per_frame),
{
    if s.running && !s.sim.stopped && !s.after_frame().sim.stopped {
        law_run_add(s.sim, s.steps_per_frame, s.steps_per_frame);
    }
}

/// A run request of `n > 0` steps takes them (stopping early when the ant
/// exits), pauses, and reports `done` = steps taken and `total` = the counter
/// after the run; the report is the exit variant exactly when the ant is
/// stopped after the run.
pub proof fn law_run_request_report(s: SessionModel, n: u64)
    requires
        n > 0,
        s.sim.steps <= u64::MAX,
        s.sim.safe_for(n as nat),
    ensures
        s.after_run_request(Some(n)).sim == s.sim.run(n as nat),
        !s.after_run_request(Some(n)).running,
        s.after_run_request(Some(n)).snapshot == s.snapshot,
        (s.after_run_request(Some(n)).status is RanThenExited) <==> s.after_run_request(
            Some(n),
        ).sim.stopped,
        (s.after_run_request(Some(n)).status is Ran) <==> !s.after_run_request(Some(n)).sim.stopped,
        match s.after_run_request(Some(n)).status {
            RunStatus::Ran { done, total } => done == s.after_run_request(Some(n)).sim.steps
                - s.sim.steps && total == s.after_run_request(Some(n)).sim.steps,
            RunStatus::RanThenExited { done, total } => done == s.after_run_request(Some(n)).sim.steps
                - s.sim.steps && total == s.after_run_request(Some(n)).sim.steps,
            _ => false,
        },
{
    law_safe_run_counter_fits(s.sim, n as nat);
}

/// A zero count or text that is not a number runs no step: the session
/// pauses and reports it.
pub proof fn law_run_request_rejected(s: SessionModel)
    ensures
        s.after_run_request(Some(0)).sim == s.sim,
        !s.after_run_request(Some(0)).running,
        s.after_run_request(Some(0)).status == RunStatus::NeedsPositive,
        s.after_run_request(None).sim == s.sim,
        !s.after_run_request(None).running,
        s.after_run_request(None).status == RunStatus::InvalidNumber,
{
}

/// In toggle mode a click on an in-bounds cell `(r, c)` changes the cell at
/// position `r * cols + c` of the buffer alone: gray becomes white, white and
/// black swap. The ant and the rest of the session stay as they are.
pub proof fn law_click_toggles_clicked_cell(s: SessionModel, r: int, c: int, i: int)
    requires
        s.wf(),
        !s.ant_mode,
        0 <= r < s.sim.rows,
        0 <= c < s.sim.cols,
        0 <= i < s.sim.grid.len(),
    ensures
        s.after_click(r, c).sim.grid.len() == s.sim.grid.len(),
        i == r * s.sim.cols + c && s.sim.grid[i] == 2 ==> s.after_click(r, c).sim.grid[i] == 0,
        i == r * s.sim.cols + c && s.sim.grid[i] != 2 ==> s.after_click(r, c).sim.grid[i] == 1
            - s.sim.grid[i],
        i != r * s.sim.cols + c ==> s.after_click(r, c).sim.grid[i] == s.sim.grid[i],
        s.after_click(r, c).sim.row == s.sim.row,
        s.after_click(r, c).sim.col == s.sim.col,
        s.after_click(r, c).sim.dir == s.sim.dir,
        s.after_click(r, c).sim.stopped == s.sim.stopped,
        s.after_click(r, c).sim.steps == s.sim.steps,
        s.after_click(r, c).snapshot == s.snapshot,
        s.after_click(r, c).running == s.running,
{
    crate::ant::lemma_index_in_range(s.sim.rows as int, s.sim.cols as int, r, c);
}

/// In ant mode a click on the ant's cell turns it right in place; a click on
/// any other in-bounds cell puts the ant there, running again, facing the same
/// way. The grid stays as it is. A click off the grid changes nothing.
pub proof fn law_click_moves_ant(s: SessionModel, r: int, c: int)
    ensures
        !(0 <= r < s.sim.rows && 0 <= c < s.sim.cols) ==> s.after_click(r, c) == s,
        s.ant_mode && 0 <= r < s.sim.rows && 0 <= c < s.sim.cols ==> {
            &&& s.after_click(r, c).sim.grid == s.sim.grid
            &&& s.after_click(r, c).sim.row == r
            &&& s.after_click(r, c).sim.col == c
            &&& s.after_click(r, c).sim.steps == s.sim.steps
            &&& (r == s.sim.row && c == s.sim.col) ==> (s.after_click(r, c).sim.dir == (s.sim.dir
                + 1) % 4 && s.after_click(r, c).sim.stopped == s.sim.stopped)
            &&& !(r == s.sim.row && c == s.sim.col) ==> (s.after_click(r, c).sim.dir == s.sim.dir
                && !s.after_click(r, c).sim.stopped)
        },
{
}

/// The status panel shows "out of bounds" whenever the ant has stopped,
/// whether or not the session runs; "running" only for a running session
/// whose ant still moves; "paused" otherwise.
pub proof fn law_activity(s: SessionModel)
    ensures
        s.sim.stopped ==> s.activity() == Activity::OutOfBounds,
        s.activity() == Activity::Running <==> (!s.sim.stopped && s.running),
        s.activity() == Activity::Paused <==> (!s.sim.stopped && !s.running),
{
}

/// "Step x1" takes exactly one step, pauses and clears the status; "Reset"
/// brings the snapshot back, paused, with no status; "Snapshot" keeps the
/// current simulation; a new grid (resize or stored configuration) becomes
/// both the simulation and the snapshot.
pub proof fn law_panel_buttons(s: SessionModel, m: AntModel)
    ensures
        s.after_single_step().sim == s.sim.next(),
        !s.after_single_step().running,
        s.after_single_step().status == RunStatus::Clear,
        s.after_single_step().snapshot == s.snapshot,
        s.after_reset().sim == s.snapshot,
        s.after_reset().snapshot == s.snapshot,
        !s.after_reset().running,
        s.after_reset().status == RunStatus::Clear,
        s.after_take_snapshot().snapshot == s.sim,
        s.after_take_snapshot().sim == s.sim,
        s.after_take_snapshot().running == s.running,
        s.after_take_snapshot().status == s.status,
        s.after_press_snapshot().snapshot == s.sim,
        s.after_press_snapshot().sim == s.sim,
        !s.after_press_snapshot().running,
        s.after_replace(m).sim == m,
        s.after_replace(m).snapshot == m,
        !s.after_replace(m).running,
        s.after_replace(m).status == RunStatus::Clear,
{
}

/// "Run" starts a session whose ant still moves and leaves a stopped one
/// paused; "Pause" always pauses. Neither touches the simulation.
pub proof fn law_run_and_pause(s: SessionModel)
    ensures
        s.after_press_run().running == (s.running || !s.sim.stopped),
        s.after_press_run().sim == s.sim,
        s.after_press_run().status == s.status,
        !s.after_press_pause().running,
        s.after_press_pause().sim == s.sim,
        s.after_press_pause().status == s.status,
        s.run_enabled() == (!s.sim.stopped && !s.running),
        s.step_enabled() == !s.sim.stopped,
{
}

} // verus!
