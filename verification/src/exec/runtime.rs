//! Control of the run loop: pausing, stepping, breakpoints and the timer clock.

use vstd::prelude::*;
use std::collections::HashSet;
use crate::exec::cpu;
use crate::exec::cpu::CPU;
use crate::exec::executor;
use crate::exec::executor::ExecutionError;
use crate::io::keys::{Key, Keyboard};
use crate::io::screen::Screen;
use crate::logic::instruction::Instruction;

verus! {

/// Ticks of the timer clock in a second.
pub const TIMER_HZ: u64 = 60;

/// Nanoseconds in a second.
pub const NANOS_PER_SECOND: u64 = 1_000_000_000;

/// Whether the machine is held or runs freely.
#[derive(Copy, Clone, Debug, PartialEq, Eq, Structural)]
pub enum IsPaused {
    Paused,
    Running,
}

/// What a held machine may still do.
#[derive(Copy, Clone, Debug, PartialEq, Eq, Structural)]
pub enum CanStepNext {
    /// Run one cycle, then stay put.
    StepNext,
    /// Stay put.
    StayPaused,
    /// Run cycles until the next instruction is a draw, then stay put.
    StepNextDraw,
}

/// What an iteration of the run loop did with the cycle that was due.
#[derive(Copy, Clone, Debug, PartialEq, Eq, Structural)]
pub enum Step {
    /// The machine was held, or stopped at a breakpoint: no cycle ran.
    Skipped,
    /// One cycle ran.
    Executed,
}

/// What the control of a run loop holds, as mathematical values.
pub struct RuntimeView {
    pub paused: IsPaused,
    pub can_step_next: CanStepNext,
    /// The program counters at which a running machine stops.
    pub breakpoints: Set<u16>,
    /// A resume was asked for and no cycle has run since: the next cycle of
    /// a running machine runs whatever the breakpoints say.
    pub resumed: bool,
}

impl RuntimeView {
    /// A held machine with no breakpoints.
    pub open spec fn start() -> RuntimeView {
        RuntimeView {
            paused: IsPaused::Paused,
            can_step_next: CanStepNext::StayPaused,
            breakpoints: Set::empty(),
            resumed: false,
        }
    }

    /// The control after a step was asked for: a held machine will run one
    /// cycle, a running one takes no notice.
    pub open spec fn step_next(self) -> RuntimeView {
        match self.paused {
            IsPaused::Paused => RuntimeView { can_step_next: CanStepNext::StepNext, ..self },
            IsPaused::Running => self,
        }
    }

    /// The control after a resume was asked for.
    pub open spec fn resume(self) -> RuntimeView {
        RuntimeView {
            paused: IsPaused::Running,
            can_step_next: CanStepNext::StayPaused,
            resumed: true,
            ..self
        }
    }

    /// Whether the cycle that is due runs, when the program counter is at
    /// `pc` and `next_is_draw` tells whether the instruction there is a draw.
    /// A held machine runs it for a step, and for a step to the next draw
    /// unless that draw is reached. A running machine runs it unless `pc` is
    /// a breakpoint, and even then right after a resume.
    pub open spec fn runs(self, pc: u16, next_is_draw: bool) -> bool {
        match self.paused {
            IsPaused::Paused => match self.can_step_next {
                CanStepNext::StayPaused => false,
                CanStepNext::StepNext => true,
                CanStepNext::StepNextDraw => !next_is_draw,
            },
            IsPaused::Running => self.resumed || !self.breakpoints.contains(pc),
        }
    }

    /// The control after the decision on the cycle that is due: a step is
    /// used up, a step to the next draw is used up once the draw is reached,
    /// a running machine that meets a breakpoint is held, and the cycle
    /// after a resume uses up the leave to pass a breakpoint.
    pub open spec fn gate(self, pc: u16, next_is_draw: bool) -> RuntimeView {
        match self.paused {
            IsPaused::Paused => match self.can_step_next {
                CanStepNext::StayPaused => self,
                CanStepNext::StepNext => RuntimeView {
                    can_step_next: CanStepNext::StayPaused,
                    ..self
                },
                CanStepNext::StepNextDraw => if next_is_draw {
                    RuntimeView { can_step_next: CanStepNext::StayPaused, ..self }
                } else {
                    self
                },
            },
            IsPaused::Running => if self.resumed {
                RuntimeView { resumed: false, ..self }
            } else if self.breakpoints.contains(pc) {
                RuntimeView { paused: IsPaused::Paused, ..self }
            } else {
                self
            },
        }
    }
}

/// After a resume the cycle that is due runs, breakpoint or not; the cycle
/// after it does not run if it is due at a breakpoint, and the machine is
/// then held.
pub proof fn lemma_resume_passes_one_breakpoint(
    control: RuntimeView,
    pc: u16,
    next_pc: u16,
    draw: bool,
    next_draw: bool,
)
    requires
        control.breakpoints.contains(next_pc),
    ensures
        control.resume().runs(pc, draw),
        !control.resume().gate(pc, draw).runs(next_pc, next_draw),
        control.resume().gate(pc, draw).gate(next_pc, next_draw).paused == IsPaused::Paused,
{
}

/// A step lets a held machine run the cycle that is due and no other: the
/// machine stays held, and the cycle after it does not run.
pub proof fn lemma_step_runs_one_cycle(
    control: RuntimeView,
    pc: u16,
    next_pc: u16,
    draw: bool,
    next_draw: bool,
)
    requires
        control.paused == IsPaused::Paused,
    ensures
        control.step_next().runs(pc, draw),
        control.step_next().gate(pc, draw).paused == IsPaused::Paused,
        !control.step_next().gate(pc, draw).runs(next_pc, next_draw),
{
}

/// A step to the next draw lets a held machine run every cycle but a draw,
/// and is used up by the draw that it stops at.
pub proof fn lemma_step_to_draw_stops_at_draw(control: RuntimeView, pc: u16, draw: bool)
    requires
        control.paused == IsPaused::Paused,
        control.can_step_next == CanStepNext::StepNextDraw,
    ensures
        control.runs(pc, draw) == !draw,
        !draw ==> control.gate(pc, draw) == control,
        draw ==> control.gate(pc, draw) == (RuntimeView {
            can_step_next: CanStepNext::StayPaused,
            ..control
        }),
{
}

/// Whole ticks of the timer clock in `elapsed_nanos` nanoseconds, and the
/// largest `u32` where there are more.
pub open spec fn spec_timer_ticks(elapsed_nanos: u64) -> u32 {
    let ticks = elapsed_nanos * TIMER_HZ / (NANOS_PER_SECOND as int);
    if ticks > u32::MAX {
        u32::MAX
    } else {
        ticks as u32
    }
}

/// Whether the next instruction of `cpu` is a draw; an instruction that
/// cannot be fetched or decoded is none.
pub open spec fn next_is_draw(cpu: cpu::CpuView) -> bool {
    cpu.next_instruction() matches Ok(Instruction::DRW(_, _, _))
}

/// The control of a run loop: the state that the debugger commands change
/// and that the loop reads before each cycle.
pub struct Runtime {
    paused: IsPaused,
    can_step_next: CanStepNext,
    breakpoints: HashSet<u16>,
    resumed: bool,
}

impl View for Runtime {
    type V = RuntimeView;

    closed spec fn view(&self) -> RuntimeView {
        RuntimeView {
            paused: self.paused,
            can_step_next: self.can_step_next,
            breakpoints: self.breakpoints@,
            resumed: self.resumed,
        }
    }
}

impl Runtime {
    /// The control of a machine that is held and has no breakpoints.
    pub fn new() -> (runtime: Runtime)
        ensures
            runtime@ == RuntimeView::start(),
    {
        Runtime {
            paused: IsPaused::Paused,
            can_step_next: CanStepNext::StayPaused,
            breakpoints: HashSet::new(),
            resumed: false,
        }
    }

    /// Makes `pc` a breakpoint.
    pub fn add_pc_breakpoint(&mut self, pc: u16)
        ensures
            final(self)@ == (RuntimeView {
                breakpoints: old(self)@.breakpoints.insert(pc),
                ..old(self)@
            }),
    {
        if !self.breakpoints.contains(&pc) {
            self.breakpoints.insert(pc);
        }
        assert(self.breakpoints@ =~= old(self).breakpoints@.insert(pc));
    }

    /// Makes `pc` no breakpoint.
    pub fn delete_pc_breakpoint(&mut self, pc: u16)
        ensures
            final(self)@ == (RuntimeView {
                breakpoints: old(self)@.breakpoints.remove(pc),
                ..old(self)@
            }),
    {
        if self.breakpoints.contains(&pc) {
            self.breakpoints.remove(&pc);
        }
        assert(self.breakpoints@ =~= old(self).breakpoints@.remove(pc));
    }

    /// Whether `pc` is a breakpoint.
    pub fn is_pc_breakpoint(&self, pc: u16) -> (set: bool)
        ensures
            set == self@.breakpoints.contains(pc),
    {
        self.breakpoints.contains(&pc)
    }

    /// Holds the machine.
    pub fn pause_emulation(&mut self)
        ensures
            final(self)@ == (RuntimeView { paused: IsPaused::Paused, ..old(self)@ }),
    {
        self.paused = IsPaused::Paused;
    }

    /// Lets the machine run. Its next cycle runs even at a breakpoint, so
    /// that a machine stopped by one gets past it.
    pub fn resume_emulation(&mut self)
        ensures
            final(self)@ == old(self)@.resume(),
    {
        self.paused = IsPaused::Running;
        self.can_step_next = CanStepNext::StayPaused;
        self.resumed = true;
    }

    /// Whether the machine is held.
    pub fn is_paused(&self) -> (paused: bool)
        ensures
            paused == (self@.paused == IsPaused::Paused),
    {
        match self.paused {
            IsPaused::Paused => true,
            IsPaused::Running => false,
        }
    }

    /// Lets a held machine run one cycle.
    pub fn step_next(&mut self)
        ensures
            final(self)@ == old(self)@.step_next(),
    {
        match self.paused {
            IsPaused::Paused => {
                self.can_step_next = CanStepNext::StepNext;
            },
            IsPaused::Running => {},
        }
    }

    /// Lets a held machine run up to the next draw.
    pub fn step_next_draw(&mut self)
        ensures
            final(self)@ == (RuntimeView {
                can_step_next: CanStepNext::StepNextDraw,
                ..old(self)@
            }),
    {
        self.can_step_next = CanStepNext::StepNextDraw;
    }

    /// Decides on the cycle that is due and updates the control.
    pub fn gate(&mut self, pc: u16, next_is_draw: bool) -> (runs: bool)
        ensures
            runs == old(self)@.runs(pc, next_is_draw),
            final(self)@ == old(self)@.gate(pc, next_is_draw),
    {
        match self.paused {
            IsPaused::Paused => {
                match self.can_step_next {
                    CanStepNext::StayPaused => false,
                    CanStepNext::StepNext => {
                        self.can_step_next = CanStepNext::StayPaused;
                        true
                    },
                    CanStepNext::StepNextDraw => {
                        if next_is_draw {
                            self.can_step_next = CanStepNext::StayPaused;
                            false
                        } else {
                            true
                        }
                    },
                }
            },
            IsPaused::Running => {
                if self.resumed {
                    self.resumed = false;
                    true
                } else if self.breakpoints.contains(&pc) {
                    self.paused = IsPaused::Paused;
                    false
                } else {
                    true
                }
            },
        }
    }

    /// One iteration of the run loop, between the reading of the window's
    /// events and the presenting of the screen: decides on the cycle that is
    /// due and runs it if it is to run. A cycle that fails ends the run; the
    /// machine is then as it was before the cycle. Of a cycle that asks the
    /// keyboard or the random generator the contract says that the outcome
    /// is the one for some answer; every other iteration it states exactly.
    pub fn run_iteration(&mut self, cpu: &mut CPU, keyboard: impl Keyboard, screen: &mut Screen) -> (outcome:
        Result<Step, ExecutionError>)
        ensures
            exists|random: u8, key: Option<Key>| #[trigger]
                iterates(
                    old(self)@,
                    old(cpu)@.with_screen(old(screen)@),
                    key,
                    random,
                    final(self)@,
                    final(cpu)@.with_screen(final(screen)@),
                    outcome,
                ),
            cpu::asks_nothing(old(cpu)@.next_instruction()) ==> iterates(
                old(self)@,
                old(cpu)@.with_screen(old(screen)@),
                None,
                0,
                final(self)@,
                final(cpu)@.with_screen(final(screen)@),
                outcome,
            ),
    {
        let ghost control = self@;
        let ghost before = cpu@.with_screen(screen@);
        proof {
            cpu.lemma_wf();
            assert((cpu::CpuView { regs: before.regs, ram: before.ram }) == cpu@);
        }
        let pc = cpu.inspect_register_file().PC;
        let next_is_draw = match cpu.inspect_next_instruction() {
            Ok(Instruction::DRW(_, _, _)) => true,
            _ => false,
        };
        if !self.gate(pc, next_is_draw) {
            assert(iterates(control, before, None, 0, self@, before, Ok(Step::Skipped)));
            return Ok(Step::Skipped);
        }
        let cycled = cpu.execute_cycle(keyboard, screen);
        let outcome = match cycled {
            Ok(()) => Ok(Step::Executed),
            Err(error) => Err(error),
        };
        proof {
            let after = cpu@.with_screen(screen@);
            let (random, key) = choose|random: u8, key: Option<Key>| #[trigger]
                cpu::cycles(before, key, random, after, cycled);
            assert(cpu::cycles(before, key, random, after, unit_outcome(outcome)));
            assert(iterates(control, before, key, random, self@, after, outcome));
        }
        outcome
    }

    /// Whole ticks of the 60 Hz timer clock in `elapsed_nanos` nanoseconds.
    pub fn timer_ticks(elapsed_nanos: u64) -> (ticks: u32)
        ensures
            ticks == spec_timer_ticks(elapsed_nanos),
    {
        let ticks: u128 = (elapsed_nanos as u128) * (TIMER_HZ as u128) / (NANOS_PER_SECOND as u128);
        if ticks > u32::MAX as u128 {
            u32::MAX
        } else {
            ticks as u32
        }
    }

    /// Ticks the timers of `cpu` `timer_ticks` times.
    pub fn tick_timers(cpu: &mut CPU, timer_ticks: u32)
        ensures
            final(cpu)@ == (cpu::CpuView {
                regs: cpu::ticked_by(old(cpu)@.regs, timer_ticks as nat),
                ..old(cpu)@
            }),
    {
        let mut done: u32 = 0;
        while done < timer_ticks
            invariant
                done <= timer_ticks,
                cpu@ == (cpu::CpuView {
                    regs: cpu::ticked_by(old(cpu)@.regs, done as nat),
                    ..old(cpu)@
                }),
            decreases timer_ticks - done,
        {
            cpu.tick_timers();
            done += 1;
        }
    }
}

/// `after_control`, `after` and `outcome` are what one iteration of the run
/// loop leaves of the control `control` and the machine `before`: the control
/// after the decision on the cycle; where the cycle does not run, the machine
/// as it was; where it runs, what the cycle leaves.
pub open spec fn iterates(
    control: RuntimeView,
    before: executor::Machine,
    key: Option<Key>,
    random: u8,
    after_control: RuntimeView,
    after: executor::Machine,
    outcome: Result<Step, ExecutionError>,
) -> bool {
    let pc = before.regs.pc;
    let draw = next_is_draw(cpu::CpuView { regs: before.regs, ram: before.ram });
    &&& after_control == control.gate(pc, draw)
    &&& if control.runs(pc, draw) {
        outcome != Ok::<Step, ExecutionError>(Step::Skipped) && cpu::cycles(
            before,
            key,
            random,
            after,
            unit_outcome(outcome),
        )
    } else {
        outcome == Ok::<Step, ExecutionError>(Step::Skipped) && after == before
    }
}

/// The outcome of an iteration with the step left out: what the cycle gave.
pub open spec fn unit_outcome(outcome: Result<Step, ExecutionError>) -> Result<(), ExecutionError> {
    match outcome {
        Ok(_) => Ok(()),
        Err(error) => Err(error),
    }
}

} // verus!
