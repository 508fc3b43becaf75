use scheduler_edf_rs::scheduler::scheduler::{FRAME_R7_PATTERN, FRAME_TOP, MAX_PROCESSES};
use scheduler_edf_rs::scheduler::{Scheduler, State};

#[test]
fn alternating_table_creates_processes() {
    let mut s = Box::new(Scheduler::new());
    assert_eq!(s.timer, 0);
    s.init_scheduler(0x1000_0001, 0x1000_0101);
    assert_eq!(s.current_process, MAX_PROCESSES);
    assert_eq!(s.processes[MAX_PROCESSES].absolute_deadline, u32::MAX);
    assert!(s.create_process(250, 0x2000_0001, 0x1000_0101));
    let p = &s.processes[0];
    assert_eq!(p.state, State::DEFINED);
    assert_eq!(p.stack[FRAME_TOP + 3], FRAME_R7_PATTERN);
    assert_eq!(p.stack[FRAME_TOP + 14], 0x2000_0001);
    assert_eq!(p.stack[FRAME_TOP + 13], 0x1000_0101);
    for _ in 1..MAX_PROCESSES {
        assert!(s.create_process(1, 2, 3));
    }
    assert!(!s.create_process(1, 2, 3));
}

#[test]
fn alternating_table_picks_slot_0_or_1() {
    let mut s = Box::new(Scheduler::new());
    assert_eq!(s.schedule(), 0);
    s.current_process = 1;
    assert_eq!(s.schedule(), 1);
    s.current_process = 5;
    assert_eq!(s.schedule(), 0);
}
