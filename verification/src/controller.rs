//! The controller: what each input does to the simulation, and when the grid
//! advances.

use crate::conway_core::ConwayMatrix;
use crate::life::{cleared, next_generation, toggled, valid_grid, Grid};
use crate::patterns::{glider_drop_fits, with_glider};
use vstd::prelude::*;

verus! {

/// The number of inputs per generation that a controller starts with.
pub const UPDATES_PER_TICK: u64 = 60;

/// By how much one key press changes the number of inputs per generation.
pub const RATE_STEP: u64 = 5;

/// The smallest grid on which a glider can be dropped.
pub const SMALLEST_GRID: usize = 5;

/// One turn of the input loop, as the controller sees it.
#[derive(Clone, Copy, Debug, PartialEq, Eq, Structural)]
pub enum Input {
    /// Nothing the controller acts on: the loop went round once.
    Idle,
    /// Pause if running, resume if paused.
    TogglePause,
    /// Advance one generation now, paused or not.
    Step,
    /// Fewer inputs per generation.
    Faster,
    /// More inputs per generation.
    Slower,
    /// Set every cell dead.
    Clear,
    /// Drop a glider at a random place.
    DropGlider,
    /// Switch chaos mode on or off.
    ToggleChaos,
    /// A click on the cell in column `x` of row `y`, which may lie off the grid.
    Click { x: usize, y: usize },
}

/// What is observable of a controller.
pub struct ControllerView {
    pub grid: Grid,
    pub running: bool,
    pub chaos: bool,
    pub updates_for_tick: nat,
    pub update_count: nat,
}

/// The number of inputs per generation after the input: `Slower` adds a step,
/// `Faster` takes one away unless that would leave none.
pub open spec fn rate_after(updates_for_tick: nat, input: Input) -> nat {
    match input {
        Input::Faster => if updates_for_tick > RATE_STEP {
            (updates_for_tick - RATE_STEP) as nat
        } else {
            updates_for_tick
        },
        Input::Slower => updates_for_tick + RATE_STEP as nat,
        _ => updates_for_tick,
    }
}

/// Whether the grid advances on this input: the controller was running when
/// the input came and has seen as many inputs as a generation takes, or the
/// input asks for a step.
pub open spec fn ticks_on(c: ControllerView, input: Input) -> bool {
    input == Input::Step || (c.running && c.update_count >= rate_after(c.updates_for_tick, input))
}

/// Whether chaos mode is on after the input.
pub open spec fn chaos_after(chaos: bool, input: Input) -> bool {
    if input == Input::ToggleChaos {
        !chaos
    } else {
        chaos
    }
}

/// Whether chaos mode adds a glider on this input: it is on once the input is
/// taken, and the grid advances.
pub open spec fn drops_chaos_glider(c: ControllerView, input: Input) -> bool {
    chaos_after(c.chaos, input) && ticks_on(c, input)
}

/// Whether a glider is dropped on this input, asked for or added by chaos
/// mode. Only then does the size of the grid matter.
pub open spec fn drops_glider(c: ControllerView, input: Input) -> bool {
    input == Input::DropGlider || drops_chaos_glider(c, input)
}

/// The grid after the edit that the input asks for, before any advance. A
/// dropped glider takes its offsets from `drop`; a click off the grid does
/// nothing.
pub open spec fn edited(g: Grid, input: Input, drop: (int, int)) -> Grid {
    match input {
        Input::Clear => cleared(g),
        Input::DropGlider => with_glider(g, 1 + drop.0, 2 + drop.1),
        Input::Click { x, y } => if x < g.len() && y < g.len() {
            toggled(g, x as int, y as int)
        } else {
            g
        },
        _ => g,
    }
}

/// The controller after one input. `drop` holds the offsets of a glider that
/// the input asks for, `chaos_drop` those of the glider that chaos mode adds
/// to a generation; each is read only where such a glider is dropped.
pub open spec fn after_input(
    c: ControllerView,
    input: Input,
    drop: (int, int),
    chaos_drop: (int, int),
) -> ControllerView {
    let grid = edited(c.grid, input, drop);
    let chaos = chaos_after(c.chaos, input);
    let ticks = ticks_on(c, input);
    ControllerView {
        grid: if ticks {
            next_generation(
                if chaos {
                    with_glider(grid, 1 + chaos_drop.0, 2 + chaos_drop.1)
                } else {
                    grid
                },
            )
        } else {
            grid
        },
        running: if input == Input::TogglePause {
            !c.running
        } else {
            c.running
        },
        chaos,
        updates_for_tick: rate_after(c.updates_for_tick, input),
        update_count: if ticks {
            1
        } else {
            c.update_count + 1
        },
    }
}

/// The simulation and its controls: a grid, whether it runs, whether chaos
/// mode is on, how many inputs a generation takes, and how many have come
/// since the last one.
pub struct ConwayController {
    matrix: ConwayMatrix,
    is_running: bool,
    chaos_mode: bool,
    updates_for_tick: u64,
    update_count: u64,
}

impl View for ConwayController {
    type V = ControllerView;

    closed spec fn view(&self) -> ControllerView {
        ControllerView {
            grid: self.matrix@,
            running: self.is_running,
            chaos: self.chaos_mode,
            updates_for_tick: self.updates_for_tick as nat,
            update_count: self.update_count as nat,
        }
    }
}

impl ConwayController {
    /// The grid is valid, and a generation takes at least one input.
    pub open spec fn wf(&self) -> bool {
        &&& valid_grid(self@.grid)
        &&& self@.updates_for_tick >= 1
    }

    /// A running controller of the given grid, chaos mode off.
    pub fn new(matrix: ConwayMatrix) -> (controller: Self)
        requires
            matrix.wf(),
        ensures
            controller.wf(),
            controller@ == (ControllerView {
                grid: matrix@,
                running: true,
                chaos: false,
                updates_for_tick: UPDATES_PER_TICK as nat,
                update_count: 0,
            }),
    {
        ConwayController {
            matrix,
            is_running: true,
            chaos_mode: false,
            updates_for_tick: UPDATES_PER_TICK,
            update_count: 0,
        }
    }

    /// The grid.
    pub fn matrix(&self) -> (matrix: &ConwayMatrix)
        ensures
            matrix@ == self@.grid,
    {
        &self.matrix
    }

    /// Whether the simulation runs, rather than being paused.
    pub fn is_running(&self) -> (running: bool)
        ensures
            running == self@.running,
    {
        self.is_running
    }

    /// Whether chaos mode is on.
    pub fn chaos_mode(&self) -> (chaos: bool)
        ensures
            chaos == self@.chaos,
    {
        self.chaos_mode
    }

    /// How many inputs a generation takes.
    pub fn updates_for_tick(&self) -> (updates: u64)
        ensures
            updates == self@.updates_for_tick,
    {
        self.updates_for_tick
    }

    /// How many inputs have come since the grid last advanced.
    pub fn update_count(&self) -> (count: u64)
        ensures
            count == self@.update_count,
    {
        self.update_count
    }

    /// Whether the grid will advance on this input.
    pub fn ticks_on(&self, input: Input) -> (ticks: bool)
        requires
            self.wf(),
        ensures
            ticks == ticks_on(self@, input),
    {
        match input {
            Input::Step => true,
            Input::Faster => {
                let rate = if self.updates_for_tick > RATE_STEP {
                    self.updates_for_tick - RATE_STEP
                } else {
                    self.updates_for_tick
                };
                self.is_running && self.update_count >= rate
            },
            Input::Slower => self.is_running && self.update_count >= RATE_STEP
                && self.update_count - RATE_STEP >= self.updates_for_tick,
            _ => self.is_running && self.update_count >= self.updates_for_tick,
        }
    }

    /// Whether a glider will be dropped on this input, so that the grid must
    /// have room for one.
    pub fn drops_glider_on(&self, input: Input) -> (drops: bool)
        requires
            self.wf(),
        ensures
            drops == drops_glider(self@, input),
    {
        let chaos = if input == Input::ToggleChaos {
            !self.chaos_mode
        } else {
            self.chaos_mode
        };
        input == Input::DropGlider || (chaos && self.ticks_on(input))
    }

    /// Handles one input with the glider offsets given: the edit the input
    /// asks for, then, if the grid is due, one generation, with a glider
    /// dropped before it in chaos mode. The offsets count, and must fit the
    /// grid, only where their glider is dropped.
    pub fn apply(&mut self, input: Input, drop: (usize, usize), chaos_drop: (usize, usize))
        requires
            old(self).wf(),
            old(self)@.update_count < u64::MAX,
            input == Input::Slower ==> old(self)@.updates_for_tick + RATE_STEP <= u64::MAX,
            drops_glider(old(self)@, input) ==> old(self)@.grid.len() >= SMALLEST_GRID,
            input == Input::DropGlider ==> glider_drop_fits(
                old(self)@.grid.len() as int,
                (drop.0 as int, drop.1 as int),
            ),
            drops_chaos_glider(old(self)@, input) ==> glider_drop_fits(
                old(self)@.grid.len() as int,
                (chaos_drop.0 as int, chaos_drop.1 as int),
            ),
        ensures
            final(self).wf(),
            final(self)@ == after_input(
                old(self)@,
                input,
                (drop.0 as int, drop.1 as int),
                (chaos_drop.0 as int, chaos_drop.1 as int),
            ),
    {
        let ghost before = self@;
        let size = self.matrix.size();
        let mut should_tick = self.is_running;
        match input {
            Input::TogglePause => {
                self.is_running = !self.is_running;
            },
            Input::Step => {
                should_tick = true;
                self.update_count = self.updates_for_tick;
            },
            Input::Faster => {
                if self.updates_for_tick > RATE_STEP {
                    self.updates_for_tick -= RATE_STEP;
                }
            },
            Input::Slower => {
                self.updates_for_tick += RATE_STEP;
            },
            Input::Clear => {
                self.matrix.clear();
            },
            Input::DropGlider => {
                self.matrix.place_glider(1 + drop.0, 2 + drop.1);
            },
            Input::ToggleChaos => {
                self.chaos_mode = !self.chaos_mode;
            },
            Input::Click { x, y } => {
                if x < size && y < size {
                    self.matrix.toggle_cell(x, y);
                }
            },
            Input::Idle => {},
        }
        if should_tick && self.update_count >= self.updates_for_tick {
            if self.chaos_mode {
                self.matrix.place_glider(1 + chaos_drop.0, 2 + chaos_drop.1);
            }
            self.update_count = 0;
            self.matrix.tick();
        }
        self.update_count += 1;
        proof {
            let after = after_input(
                before,
                input,
                (drop.0 as int, drop.1 as int),
                (chaos_drop.0 as int, chaos_drop.1 as int),
            );
            assert(self@.grid == after.grid);
            assert(self@ == after);
        }
    }

    /// Handles one input. Where a glider is dropped, its offsets are drawn at
    /// random from those that fit the grid; all else is as `apply` has it.
    pub fn event(&mut self, input: Input)
        requires
            old(self).wf(),
            old(self)@.update_count < u64::MAX,
            input == Input::Slower ==> old(self)@.updates_for_tick + RATE_STEP <= u64::MAX,
            drops_glider(old(self)@, input) ==> old(self)@.grid.len() >= SMALLEST_GRID,
        ensures
            final(self).wf(),
            exists|drop: (int, int), chaos_drop: (int, int)|
                {
                    &&& input == Input::DropGlider ==> glider_drop_fits(
                        old(self)@.grid.len() as int,
                        drop,
                    )
                    &&& drops_chaos_glider(old(self)@, input) ==> glider_drop_fits(
                        old(self)@.grid.len() as int,
                        chaos_drop,
                    )
                    &&& final(self)@ == #[trigger] after_input(old(self)@, input, drop, chaos_drop)
                },
    {
        let drop = if input == Input::DropGlider {
            self.matrix.draw_glider_offsets()
        } else {
            (0, 0)
        };
        let chaos_now = if input == Input::ToggleChaos {
            !self.chaos_mode
        } else {
            self.chaos_mode
        };
        let chaos_drop = if chaos_now && self.ticks_on(input) {
            self.matrix.draw_glider_offsets()
        } else {
            (0, 0)
        };
        self.apply(input, drop, chaos_drop);
        assert(self@ == after_input(
            old(self)@,
            input,
            (drop.0 as int, drop.1 as int),
            (chaos_drop.0 as int, chaos_drop.1 as int),
        ));
    }
}

} // verus!
