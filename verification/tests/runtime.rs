use rip8::exec::cpu::CPU;
use rip8::exec::executor::ExecutionError;
use rip8::exec::runtime::{Runtime, Step, NANOS_PER_SECOND, TIMER_HZ};
use rip8::io::keys::{Key, Keyboard};
use rip8::io::screen::Screen;
use rip8::logic::decoder::MalformedInstructionError;

struct NoKeys;

impl Keyboard for NoKeys {
    fn is_key_pressed(&self, _key: Key) -> bool {
        false
    }
}

fn load(program: &[u8]) -> CPU {
    let mut cpu = CPU::new();
    cpu.map_program(program.to_vec()).unwrap();
    cpu.map_digit_sprites();
    cpu
}

fn pc(cpu: &CPU) -> u16 {
    cpu.inspect_register_file().PC
}

// LD V0, 1; LD V1, 2; LD V2, 3; LD V3, 4; JP 0x200
const COUNT: [u8; 10] = [0x60, 0x01, 0x61, 0x02, 0x62, 0x03, 0x63, 0x04, 0x12, 0x00];

#[test]
fn runtime_starts_paused() {
    let runtime = Runtime::new();
    assert!(runtime.is_paused());
    assert!(!runtime.is_pc_breakpoint(0x200));
}

#[test]
fn paused_machine_runs_no_cycle() {
    let mut runtime = Runtime::new();
    let mut cpu = load(&COUNT);
    let mut screen = Screen::new();
    for _ in 0..5 {
        assert_eq!(runtime.run_iteration(&mut cpu, NoKeys, &mut screen), Ok(Step::Skipped));
        assert_eq!(pc(&cpu), 0x200);
    }
}

#[test]
fn resumed_machine_runs_a_cycle_in_every_iteration() {
    let mut runtime = Runtime::new();
    let mut cpu = load(&COUNT);
    let mut screen = Screen::new();
    runtime.resume_emulation();
    assert!(!runtime.is_paused());
    for expected in [0x202, 0x204, 0x206, 0x208, 0x200, 0x202] {
        assert_eq!(runtime.run_iteration(&mut cpu, NoKeys, &mut screen), Ok(Step::Executed));
        assert_eq!(pc(&cpu), expected);
    }
}

#[test]
fn pause_holds_a_running_machine() {
    let mut runtime = Runtime::new();
    let mut cpu = load(&COUNT);
    let mut screen = Screen::new();
    runtime.resume_emulation();
    runtime.run_iteration(&mut cpu, NoKeys, &mut screen).unwrap();
    runtime.pause_emulation();
    assert!(runtime.is_paused());
    assert_eq!(runtime.run_iteration(&mut cpu, NoKeys, &mut screen), Ok(Step::Skipped));
    assert_eq!(pc(&cpu), 0x202);
}

#[test]
fn breakpoint_stops_a_running_machine() {
    let mut runtime = Runtime::new();
    let mut cpu = load(&COUNT);
    let mut screen = Screen::new();
    runtime.add_pc_breakpoint(0x202);

    // Still paused: the iteration passes, the machine stays at 0x200.
    assert_eq!(runtime.run_iteration(&mut cpu, NoKeys, &mut screen), Ok(Step::Skipped));
    assert_eq!(pc(&cpu), 0x200);
    assert!(runtime.is_paused());

    runtime.resume_emulation();
    // The instruction at 0x200 runs.
    assert_eq!(runtime.run_iteration(&mut cpu, NoKeys, &mut screen), Ok(Step::Executed));
    assert_eq!(pc(&cpu), 0x202);
    assert!(!runtime.is_paused());
    // The check before the next cycle meets the breakpoint.
    assert_eq!(runtime.run_iteration(&mut cpu, NoKeys, &mut screen), Ok(Step::Skipped));
    assert_eq!(pc(&cpu), 0x202);
    assert!(runtime.is_paused());
    assert_eq!(cpu.inspect_register_file().v[1], 0);
}

#[test]
fn resume_gets_past_the_breakpoint_that_stopped_the_machine() {
    let mut runtime = Runtime::new();
    let mut cpu = load(&COUNT);
    let mut screen = Screen::new();
    runtime.add_pc_breakpoint(0x202);
    runtime.resume_emulation();
    runtime.run_iteration(&mut cpu, NoKeys, &mut screen).unwrap();
    assert_eq!(runtime.run_iteration(&mut cpu, NoKeys, &mut screen), Ok(Step::Skipped));
    assert!(runtime.is_paused());

    runtime.resume_emulation();
    assert_eq!(runtime.run_iteration(&mut cpu, NoKeys, &mut screen), Ok(Step::Executed));
    assert_eq!(pc(&cpu), 0x204);
    // Once round the loop, the breakpoint stops the machine again.
    for expected in [0x206, 0x208, 0x200, 0x202] {
        assert_eq!(runtime.run_iteration(&mut cpu, NoKeys, &mut screen), Ok(Step::Executed));
        assert_eq!(pc(&cpu), expected);
    }
    assert_eq!(runtime.run_iteration(&mut cpu, NoKeys, &mut screen), Ok(Step::Skipped));
    assert!(runtime.is_paused());
}

#[test]
fn resume_passes_one_breakpoint_only() {
    let mut runtime = Runtime::new();
    let mut cpu = load(&COUNT);
    let mut screen = Screen::new();
    runtime.add_pc_breakpoint(0x200);
    runtime.add_pc_breakpoint(0x202);
    runtime.resume_emulation();
    assert_eq!(runtime.run_iteration(&mut cpu, NoKeys, &mut screen), Ok(Step::Executed));
    assert_eq!(runtime.run_iteration(&mut cpu, NoKeys, &mut screen), Ok(Step::Skipped));
    assert_eq!(pc(&cpu), 0x202);
}

#[test]
fn deleted_breakpoint_stops_nothing() {
    let mut runtime = Runtime::new();
    let mut cpu = load(&COUNT);
    let mut screen = Screen::new();
    runtime.add_pc_breakpoint(0x202);
    runtime.add_pc_breakpoint(0x202);
    runtime.add_pc_breakpoint(0x206);
    assert!(runtime.is_pc_breakpoint(0x202));
    runtime.delete_pc_breakpoint(0x202);
    runtime.delete_pc_breakpoint(0x300);
    assert!(!runtime.is_pc_breakpoint(0x202));
    assert!(runtime.is_pc_breakpoint(0x206));
    runtime.resume_emulation();
    for _ in 0..3 {
        assert_eq!(runtime.run_iteration(&mut cpu, NoKeys, &mut screen), Ok(Step::Executed));
    }
    assert_eq!(pc(&cpu), 0x206);
    assert_eq!(runtime.run_iteration(&mut cpu, NoKeys, &mut screen), Ok(Step::Skipped));
}

#[test]
fn breakpoint_does_not_stop_a_step() {
    let mut runtime = Runtime::new();
    let mut cpu = load(&COUNT);
    let mut screen = Screen::new();
    runtime.add_pc_breakpoint(0x200);
    runtime.step_next();
    assert_eq!(runtime.run_iteration(&mut cpu, NoKeys, &mut screen), Ok(Step::Executed));
    assert_eq!(pc(&cpu), 0x202);
    assert!(runtime.is_paused());
}

#[test]
fn step_runs_exactly_one_cycle() {
    let mut runtime = Runtime::new();
    let mut cpu = load(&COUNT);
    let mut screen = Screen::new();
    runtime.step_next();
    assert_eq!(runtime.run_iteration(&mut cpu, NoKeys, &mut screen), Ok(Step::Executed));
    assert_eq!(pc(&cpu), 0x202);
    assert!(runtime.is_paused());
    assert_eq!(runtime.run_iteration(&mut cpu, NoKeys, &mut screen), Ok(Step::Skipped));
    assert_eq!(pc(&cpu), 0x202);
}

#[test]
fn step_is_ignored_by_a_running_machine() {
    let mut runtime = Runtime::new();
    let mut cpu = load(&COUNT);
    let mut screen = Screen::new();
    runtime.resume_emulation();
    runtime.step_next();
    runtime.pause_emulation();
    assert_eq!(runtime.run_iteration(&mut cpu, NoKeys, &mut screen), Ok(Step::Skipped));
}

#[test]
fn resume_drops_a_step_that_was_asked_for() {
    let mut runtime = Runtime::new();
    let mut cpu = load(&COUNT);
    let mut screen = Screen::new();
    runtime.step_next_draw();
    runtime.resume_emulation();
    runtime.pause_emulation();
    assert_eq!(runtime.run_iteration(&mut cpu, NoKeys, &mut screen), Ok(Step::Skipped));
}

#[test]
fn step_to_draw_stops_before_the_draw() {
    // LD V0, 1; LD V1, 2; DRW V0, V1, 1; LD V2, 3
    let mut cpu = load(&[0x60, 0x01, 0x61, 0x02, 0xD0, 0x11, 0x62, 0x03]);
    let mut runtime = Runtime::new();
    let mut screen = Screen::new();
    runtime.step_next_draw();
    assert_eq!(runtime.run_iteration(&mut cpu, NoKeys, &mut screen), Ok(Step::Executed));
    assert_eq!(runtime.run_iteration(&mut cpu, NoKeys, &mut screen), Ok(Step::Executed));
    assert_eq!(pc(&cpu), 0x204);
    assert_eq!(runtime.run_iteration(&mut cpu, NoKeys, &mut screen), Ok(Step::Skipped));
    assert_eq!(pc(&cpu), 0x204);
    assert!(!screen.has_changed());
    assert!(runtime.is_paused());
    // The step is used up.
    assert_eq!(runtime.run_iteration(&mut cpu, NoKeys, &mut screen), Ok(Step::Skipped));
    // One more step runs the draw.
    runtime.step_next();
    assert_eq!(runtime.run_iteration(&mut cpu, NoKeys, &mut screen), Ok(Step::Executed));
    assert!(screen.has_changed());
    assert_eq!(pc(&cpu), 0x206);
}

#[test]
fn step_to_draw_at_a_draw_runs_nothing() {
    let mut cpu = load(&[0xD0, 0x11]);
    let mut runtime = Runtime::new();
    let mut screen = Screen::new();
    runtime.step_next_draw();
    assert_eq!(runtime.run_iteration(&mut cpu, NoKeys, &mut screen), Ok(Step::Skipped));
    assert_eq!(pc(&cpu), 0x200);
}

#[test]
fn step_to_draw_runs_into_a_malformed_word() {
    let mut cpu = load(&[0x60, 0x01, 0xFF, 0xFF]);
    let mut runtime = Runtime::new();
    let mut screen = Screen::new();
    runtime.step_next_draw();
    assert_eq!(runtime.run_iteration(&mut cpu, NoKeys, &mut screen), Ok(Step::Executed));
    assert_eq!(
        runtime.run_iteration(&mut cpu, NoKeys, &mut screen),
        Err(ExecutionError::MalformedInstruction(MalformedInstructionError::new(0xFF, 0xFF)))
    );
    assert_eq!(pc(&cpu), 0x202);
}

#[test]
fn gate_decides_without_running() {
    let mut runtime = Runtime::new();
    assert!(!runtime.gate(0x200, false));
    runtime.step_next();
    assert!(runtime.gate(0x200, false));
    assert!(!runtime.gate(0x200, false));
    runtime.step_next_draw();
    assert!(runtime.gate(0x200, false));
    assert!(!runtime.gate(0x200, true));
    assert!(!runtime.gate(0x200, false));
    runtime.add_pc_breakpoint(0x300);
    runtime.resume_emulation();
    assert!(runtime.gate(0x300, false));
    assert!(!runtime.gate(0x300, false));
    assert!(runtime.is_paused());
}

#[test]
fn timer_clock_ticks_sixty_times_a_second() {
    assert_eq!((TIMER_HZ, NANOS_PER_SECOND), (60, 1_000_000_000));
    assert_eq!(Runtime::timer_ticks(0), 0);
    assert_eq!(Runtime::timer_ticks(16_666_666), 0);
    assert_eq!(Runtime::timer_ticks(16_666_667), 1);
    assert_eq!(Runtime::timer_ticks(33_333_333), 1);
    assert_eq!(Runtime::timer_ticks(33_333_334), 2);
    assert_eq!(Runtime::timer_ticks(1_000_000_000), 60);
    assert_eq!(Runtime::timer_ticks(2_500_000_000), 150);
}

#[test]
fn timer_ticks_stop_at_the_largest_u32() {
    // 2^32 - 1 ticks take 71_582_788_250_000_000 ns.
    assert_eq!(Runtime::timer_ticks(71_582_788_249_999_999), u32::MAX - 1);
    assert_eq!(Runtime::timer_ticks(71_582_788_250_000_000), u32::MAX);
    assert_eq!(Runtime::timer_ticks(71_582_788_266_666_667), u32::MAX);
    assert_eq!(Runtime::timer_ticks(u64::MAX), u32::MAX);
}

#[test]
fn timers_are_ticked_as_often_as_asked() {
    // LD V0, 100; LD DT, V0; LD V0, 7; LD ST, V0
    let mut cpu = load(&[0x60, 100, 0xF0, 0x15, 0x60, 7, 0xF0, 0x18]);
    let mut screen = Screen::new();
    for _ in 0..4 {
        cpu.execute_cycle(NoKeys, &mut screen).unwrap();
    }
    Runtime::tick_timers(&mut cpu, 0);
    assert_eq!((cpu.inspect_register_file().DT, cpu.inspect_register_file().ST), (100, 7));
    Runtime::tick_timers(&mut cpu, 5);
    assert_eq!((cpu.inspect_register_file().DT, cpu.inspect_register_file().ST), (95, 2));
    Runtime::tick_timers(&mut cpu, 90);
    assert_eq!((cpu.inspect_register_file().DT, cpu.inspect_register_file().ST), (5, 0));
    Runtime::tick_timers(&mut cpu, 1_000);
    assert_eq!((cpu.inspect_register_file().DT, cpu.inspect_register_file().ST), (0, 0));
    assert_eq!(cpu.inspect_register_file().PC, 0x208);
}
