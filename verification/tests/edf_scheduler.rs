use scheduler_edf_rs::scheduler::scheduler::{
    needs_new_frame, Scheduler, State, FRAME_R7_MARKER, FRAME_R7_PATTERN, FRAME_TOP, MAX_PROCESSES, PROCESS_SLOTS,
    PROCESS_STACK_SIZE, SYSTICK_RELOAD, TRACE_LIMIT_MS, XPSR_THUMB,
};

const IDLE: u32 = 0x1000_0101;
const EXIT: u32 = 0x1000_0201;

fn expected_frame(pc: u32, lr: u32, r7: u32) -> [u32; 16] {
    [
        0x4444_4444, 0x5555_5555, 0x6666_6666, r7, 0x8888_8888, 0x9999_9999, 0x1010_1010,
        0x1111_1111, 0x0000_0000, 0x1111_1111, 0x2222_2222, 0x3333_3333, 0x1212_1212, lr, pc,
        XPSR_THUMB,
    ]
}

fn boxed_scheduler() -> Box<Scheduler> {
    let mut s = Box::new(Scheduler::new());
    s.init_scheduler(IDLE, EXIT);
    s
}

#[test]
fn new_table_is_blank() {
    let s = Scheduler::new();
    assert_eq!(s.current_process, 0);
    assert_eq!(s.delay, 0);
    assert_eq!(s.processes.len(), PROCESS_SLOTS);
    for p in s.processes.iter() {
        assert_eq!(p.state, State::UNDEFINED);
        assert_eq!(p.tos, 0);
        assert!(p.stack.iter().all(|w| *w == 0));
        assert_eq!((p.deadline, p.absolute_deadline, p.release_time, p.fn_ptr), (0, 0, 0, 0));
    }
}

#[test]
fn init_sets_up_idle_process() {
    let s = boxed_scheduler();
    assert_eq!(s.current_process, MAX_PROCESSES);
    let idle = &s.processes[MAX_PROCESSES];
    assert_eq!(idle.stack[PROCESS_STACK_SIZE - 1], 0x0100_0000);
    assert_eq!(idle.stack[PROCESS_STACK_SIZE - 2], IDLE);
    assert_eq!(idle.stack[PROCESS_STACK_SIZE - 3], EXIT);
    assert_eq!(idle.stack[PROCESS_STACK_SIZE - 4], 0);
    assert_eq!(idle.tos, PROCESS_STACK_SIZE - 16);
    assert_eq!(idle.absolute_deadline, u32::MAX);
    assert_eq!(idle.deadline, 0);
    assert_eq!(idle.state, State::UNDEFINED);
}

#[test]
fn create_process_fills_first_free_slot() {
    let mut s = boxed_scheduler();
    assert!(s.create_process(3000, 0x2000_0001, EXIT));
    assert!(s.create_process(1000, 0x2000_0101, EXIT));
    let p = &s.processes[1];
    assert_eq!(p.state, State::DEFINED);
    assert_eq!(p.deadline, 1000);
    assert_eq!(p.absolute_deadline, 1000);
    assert_eq!(p.release_time, 0);
    assert_eq!(p.fn_ptr, 0x2000_0101);
    assert_eq!(p.tos, FRAME_TOP);
    assert_eq!(&p.stack[FRAME_TOP..], &expected_frame(0x2000_0101, EXIT, FRAME_R7_MARKER)[..]);
    assert_eq!(p.stack[FRAME_TOP - 1], 0);
    assert_eq!(s.processes[2].state, State::UNDEFINED);
    assert_eq!(s.current_process, MAX_PROCESSES);
}

#[test]
fn create_process_fails_when_table_full() {
    let mut s = boxed_scheduler();
    for i in 0..MAX_PROCESSES {
        assert!(s.create_process(100 + i as u32, 0x2000_0000 + i as u32, EXIT));
    }
    let before: Vec<(State, u32)> = s.processes.iter().map(|p| (p.state, p.deadline)).collect();
    assert!(!s.create_process(5, 0x3000_0000, EXIT));
    let after: Vec<(State, u32)> = s.processes.iter().map(|p| (p.state, p.deadline)).collect();
    assert_eq!(before, after);
}

#[test]
fn create_process_reuses_ended_slot() {
    let mut s = boxed_scheduler();
    for i in 0..MAX_PROCESSES {
        assert!(s.create_process(100 + i as u32, 0x2000_0000 + i as u32, EXIT));
    }
    s.current_process = 4;
    s.end_task();
    assert_eq!(s.processes[4].state, State::ENDED);
    assert!(s.create_process(7, 0x3000_0000, EXIT));
    assert_eq!(s.processes[4].state, State::DEFINED);
    assert_eq!(s.processes[4].deadline, 7);
    assert_eq!(s.processes[4].fn_ptr, 0x3000_0000);
}

#[test]
fn schedule_runs_earliest_deadline() {
    let mut s = boxed_scheduler();
    assert!(s.create_process(3000, 0x2000_0001, EXIT));
    assert!(s.create_process(1000, 0x2000_0101, EXIT));
    assert!(s.create_process(500, 0x2000_0201, EXIT));
    assert!(s.renewals_fit());
    let d = s.schedule(0, EXIT);
    assert_eq!(d.pid, 2);
    assert_eq!(s.current_process, 2);
    assert_eq!(s.processes[2].state, State::RUNNING);
    assert_eq!(s.processes[0].state, State::READY);
    assert_eq!(s.processes[1].state, State::READY);
    assert_eq!(&d.released[..3], &[true, true, true]);
    assert!(d.released[3..].iter().all(|r| !*r));
    assert!(d.missed.iter().all(|m| !*m));
    assert!(!d.trace_limit_reached);
}

#[test]
fn schedule_preempts_and_is_stable() {
    let mut s = boxed_scheduler();
    assert!(s.create_process(3000, 0x2000_0001, EXIT));
    assert!(s.create_process(1000, 0x2000_0101, EXIT));
    let d1 = s.schedule(10, EXIT);
    assert_eq!(d1.pid, 1);
    let d2 = s.schedule(10, EXIT);
    assert_eq!(d2.pid, 1);
    assert_eq!(s.processes[1].state, State::RUNNING);
    assert_eq!(s.processes[0].state, State::READY);
    assert!(!d2.released[0] && !d2.released[1]);
}

#[test]
fn equal_deadlines_go_to_lowest_slot() {
    let mut s = boxed_scheduler();
    assert!(s.create_process(700, 0x2000_0001, EXIT));
    assert!(s.create_process(700, 0x2000_0101, EXIT));
    let d = s.schedule(0, EXIT);
    assert_eq!(d.pid, 0);
    assert_eq!(s.processes[1].state, State::READY);
}

#[test]
fn idle_runs_when_nothing_competes() {
    let mut s = boxed_scheduler();
    let d = s.schedule(0, EXIT);
    assert_eq!(d.pid, MAX_PROCESSES);
    assert_eq!(s.current_process, MAX_PROCESSES);
    assert_eq!(s.processes[MAX_PROCESSES].state, State::UNDEFINED);
    let mut s = boxed_scheduler();
    assert!(s.create_process(900, 0x2000_0001, EXIT));
    s.processes[0].release_time = 50;
    let d = s.schedule(10, EXIT);
    assert_eq!(d.pid, MAX_PROCESSES);
    assert_eq!(s.processes[0].state, State::DEFINED);
}

#[test]
fn latest_possible_deadline_still_runs() {
    let mut s = boxed_scheduler();
    assert!(s.create_process(u32::MAX, 0x2000_0001, EXIT));
    let d = s.schedule(5, EXIT);
    assert_eq!(d.pid, 0);
    assert_eq!(s.processes[0].state, State::RUNNING);
}

#[test]
fn repeated_decision_leaves_table_unchanged() {
    let mut s = boxed_scheduler();
    assert!(s.create_process(3000, 0x2000_0001, EXIT));
    assert!(s.create_process(20, 0x2000_0101, EXIT));
    assert!(s.create_process(1000, 0x2000_0201, EXIT));
    s.schedule(100, EXIT);
    let snapshot: Vec<(State, u32, u32, usize)> = s.processes.iter()
        .map(|p| (p.state, p.release_time, p.absolute_deadline, p.tos)).collect();
    let d = s.schedule(100, EXIT);
    let again: Vec<(State, u32, u32, usize)> = s.processes.iter()
        .map(|p| (p.state, p.release_time, p.absolute_deadline, p.tos)).collect();
    assert_eq!(snapshot, again);
    assert_eq!(d.pid, 2);
    assert_eq!(s.processes[1].state, State::FAILED);
}

#[test]
fn new_frames_follow_state_changes() {
    assert!(needs_new_frame(State::UNDEFINED, State::DEFINED));
    assert!(needs_new_frame(State::ENDED, State::READY));
    assert!(!needs_new_frame(State::READY, State::RUNNING));
    assert!(!needs_new_frame(State::RUNNING, State::ENDED));
    assert!(!needs_new_frame(State::UNDEFINED, State::UNDEFINED));
}

#[test]
fn missed_deadline_fails_and_is_not_chosen() {
    let mut s = boxed_scheduler();
    assert!(s.create_process(100, 0x2000_0001, EXIT));
    assert!(s.create_process(900, 0x2000_0101, EXIT));
    let d = s.schedule(150, EXIT);
    assert!(d.missed[0]);
    assert!(!d.missed[1]);
    assert!(d.released[0]);
    assert_eq!(s.processes[0].state, State::FAILED);
    assert_eq!(d.pid, 1);
    let d = s.schedule(160, EXIT);
    assert!(d.missed[0] && d.released[0]);
    assert_eq!(s.processes[0].state, State::FAILED);
    assert_eq!(d.pid, 1);
}

#[test]
fn ended_job_is_renewed_one_period_later() {
    let mut s = boxed_scheduler();
    assert!(s.create_process(500, 0x2000_0001, EXIT));
    assert!(s.create_process(800, 0x2000_0101, EXIT));
    assert_eq!(s.schedule(0, EXIT).pid, 0);
    s.processes[0].stack[FRAME_TOP] = 0xabcd;
    s.end_task();
    assert_eq!(s.processes[0].state, State::ENDED);
    let d = s.schedule(200, EXIT);
    let p = &s.processes[0];
    assert_eq!(p.release_time, 500);
    assert_eq!(p.absolute_deadline, 1000);
    assert_eq!(p.state, State::DEFINED);
    assert_eq!(p.tos, FRAME_TOP);
    assert_eq!(&p.stack[FRAME_TOP..], &expected_frame(0x2000_0001, EXIT, FRAME_R7_PATTERN)[..]);
    assert!(!d.released[0]);
    assert_eq!(d.pid, 1);
    let d = s.schedule(500, EXIT);
    assert!(d.released[0]);
    assert_eq!(d.pid, 1);
    assert_eq!(s.processes[0].state, State::READY);
    assert_eq!(s.processes[1].state, State::RUNNING);
}

#[test]
fn renewals_fit_detects_overflow() {
    let mut s = boxed_scheduler();
    assert!(s.create_process(10, 0x2000_0001, EXIT));
    s.processes[0].absolute_deadline = u32::MAX - 5;
    s.processes[0].state = State::ENDED;
    assert!(!s.renewals_fit());
    s.processes[0].absolute_deadline = u32::MAX - 10;
    assert!(s.renewals_fit());
}

#[test]
fn trace_limit_is_reported() {
    let mut s = boxed_scheduler();
    assert!(!s.schedule(TRACE_LIMIT_MS - 1, EXIT).trace_limit_reached);
    assert!(s.schedule(TRACE_LIMIT_MS, EXIT).trace_limit_reached);
}

#[test]
fn clock_starts_at_first_decision() {
    let mut s = boxed_scheduler();
    assert!(s.record_start(1234));
    assert_eq!(s.delay, 1234);
    assert!(!s.record_start(5000));
    assert_eq!(s.delay, 1234);
    assert_eq!(s.time_since_start(5000), 3766);
    assert_eq!(SYSTICK_RELOAD, 0x00ff_fffe);
}
