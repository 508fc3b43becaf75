//! A process table with the same process creation as the
//! earliest-deadline-first table of `scheduler::scheduler`, an extra `timer`
//! field, and a decision that only alternates between slots 0 and 1.
pub mod scheduler;

use vstd::prelude::*;

verus! {

use crate::scheduler::scheduler::{
    initial_frame, with_initial_frame, FRAME_R7_PATTERN, FRAME_TOP, MAX_PROCESSES, PROCESS_SLOTS,
    PROCESS_STACK_SIZE, XPSR_THUMB,
};

/// The lifecycle of a process.
#[allow(non_camel_case_types)]
#[derive(Copy, Clone, Debug, PartialEq, Eq, Structural)]
pub enum State {
    UNDEFINED,
    DEFINED,
    READY,
    RUNNING,
    PREEMPTED,
    FAILED,
    ENDED,
}

/// One entry of the process table; `tos` is the index, in `stack`, of the
/// word that the saved stack pointer designates.
#[derive(Copy, Clone)]
pub struct Process {
    pub tos: usize,
    pub stack: [u32; PROCESS_STACK_SIZE],
    pub deadline: u32,
    pub absolute_deadline: u32,
    pub release_time: u32,
    pub fn_ptr: u32,
    pub state: State,
}

/// The process table.
pub struct Scheduler {
    pub current_process: usize,
    pub processes: [Process; PROCESS_SLOTS],
    pub timer: u32,
    pub delay: u32,
}

/// A slot that `create_process` may take.
pub open spec fn is_free(s: State) -> bool {
    s == State::UNDEFINED || s == State::ENDED
}

/// `k` is the first free slot among the user slots.
pub open spec fn is_first_free(ps: Seq<Process>, k: int) -> bool {
    &&& 0 <= k < MAX_PROCESSES
    &&& is_free(ps[k].state)
    &&& forall|j: int| 0 <= j < k ==> !is_free(#[trigger] ps[j].state)
}

/// Some user slot is free.
pub open spec fn has_free_slot(ps: Seq<Process>) -> bool {
    exists|k: int| 0 <= k < MAX_PROCESSES && is_free(#[trigger] ps[k].state)
}

/// `new` is `old` made into a fresh process by `create_process`.
pub open spec fn created(old: Process, new: Process, deadline: u32, fn_ptr: u32, exit_addr: u32) -> bool {
    &&& new.stack@ == with_initial_frame(old.stack@, fn_ptr, exit_addr, FRAME_R7_PATTERN)
    &&& new.tos == FRAME_TOP
    &&& new.deadline == deadline
    &&& new.absolute_deadline == deadline
    &&& new.release_time == old.release_time
    &&& new.fn_ptr == fn_ptr
    &&& new.state == State::DEFINED
}

/// The whole effect of `create_process(deadline, fn_ptr, exit_addr)` on the
/// slots of the table, `r` being its result.
pub open spec fn process_created(
    ps: Seq<Process>,
    qs: Seq<Process>,
    deadline: u32,
    fn_ptr: u32,
    exit_addr: u32,
    r: bool,
) -> bool {
    &&& r == has_free_slot(ps)
    &&& !r ==> qs == ps
    &&& r ==> exists|k: int|
        #![trigger is_first_free(ps, k)]
        is_first_free(ps, k) && created(ps[k], qs[k], deadline, fn_ptr, exit_addr) && qs == ps.update(k, qs[k])
}

/// A process as the static table starts it: all zero, undefined.
pub open spec fn is_blank(p: Process) -> bool {
    &&& p.tos == 0
    &&& forall|w: int| 0 <= w < PROCESS_STACK_SIZE ==> #[trigger] p.stack@[w] == 0
    &&& p.deadline == 0
    &&& p.absolute_deadline == 0
    &&& p.release_time == 0
    &&& p.fn_ptr == 0
    &&& p.state == State::UNDEFINED
}

impl Scheduler {
    /// The table is well formed: the current slot is a slot of the table.
    pub open spec fn wf(&self) -> bool {
        self.current_process < PROCESS_SLOTS
    }

    /// The table as the static scheduler starts it: every slot blank, slot 0
    /// current, timer and start time zero.
    pub fn new() -> (s: Scheduler)
        ensures
            s.wf(),
            s.current_process == 0,
            s.timer == 0,
            s.delay == 0,
            forall|i: int| 0 <= i < PROCESS_SLOTS ==> is_blank(#[trigger] s.processes@[i]),
            forall|i: int| 0 <= i < 11 ==> {
                let p = #[trigger] s.processes@[i];
                &&& p.state == State::UNDEFINED
                &&& p.tos == 0
                &&& p.deadline == 0 && p.absolute_deadline == 0 && p.release_time == 0 && p.fn_ptr == 0
                &&& forall|w: int| 0 <= w < 1024 ==> #[trigger] p.stack@[w] == 0
            },
    {
        let blank = Process {
            tos: 0,
            stack: [0u32; PROCESS_STACK_SIZE],
            deadline: 0,
            absolute_deadline: 0,
            release_time: 0,
            fn_ptr: 0,
            state: State::UNDEFINED,
        };
        Scheduler { current_process: 0, processes: [blank; PROCESS_SLOTS], timer: 0, delay: 0 }
    }

    /// Sets up the idle process in the last slot, with a stack whose top
    /// holds the xPSR, the entry point `idle_addr` and the return address
    /// `exit_addr`, and makes it current.
    pub fn init_scheduler(&mut self, idle_addr: u32, exit_addr: u32)
        ensures
            final(self).wf(),
            final(self).current_process == MAX_PROCESSES,
            final(self).timer == old(self).timer,
            final(self).delay == old(self).delay,
            forall|i: int| 0 <= i < MAX_PROCESSES ==> #[trigger] final(self).processes@[i] == old(self).processes@[i],
            final(self).processes@[MAX_PROCESSES as int].stack@ == old(self).processes@[MAX_PROCESSES as int].stack@
                .update(PROCESS_STACK_SIZE - 1, XPSR_THUMB)
                .update(PROCESS_STACK_SIZE - 2, idle_addr)
                .update(PROCESS_STACK_SIZE - 3, exit_addr),
            final(self).processes@[MAX_PROCESSES as int].tos == FRAME_TOP,
            final(self).processes@[MAX_PROCESSES as int].absolute_deadline == u32::MAX,
            final(self).processes@[MAX_PROCESSES as int].deadline == 0,
            final(self).processes@[MAX_PROCESSES as int].state == State::UNDEFINED,
            final(self).processes@[MAX_PROCESSES as int].release_time == old(self).processes@[MAX_PROCESSES as int].release_time,
            final(self).processes@[MAX_PROCESSES as int].fn_ptr == old(self).processes@[MAX_PROCESSES as int].fn_ptr,
    {
        let mut idle_process = self.processes[MAX_PROCESSES];
        idle_process.stack[PROCESS_STACK_SIZE - 1] = XPSR_THUMB;
        idle_process.stack[PROCESS_STACK_SIZE - 2] = idle_addr;
        idle_process.stack[PROCESS_STACK_SIZE - 3] = exit_addr;
        idle_process.tos = FRAME_TOP;
        idle_process.absolute_deadline = u32::MAX;
        idle_process.deadline = 0;
        idle_process.state = State::UNDEFINED;
        self.processes[MAX_PROCESSES] = idle_process;
        self.current_process = MAX_PROCESSES;
    }

    /// Puts a new process with relative deadline `deadline` and entry point
    /// `fn_ptr` in the first free user slot, with a fresh frame whose return
    /// address is `exit_addr`; returns false, changing nothing, when no user
    /// slot is free.
    pub fn create_process(&mut self, deadline: u32, fn_ptr: u32, exit_addr: u32) -> (r: bool)
        ensures
            r == has_free_slot(old(self).processes@),
            final(self).current_process == old(self).current_process,
            final(self).timer == old(self).timer,
            final(self).delay == old(self).delay,
            old(self).wf() ==> final(self).wf(),
            !r ==> final(self).processes@ == old(self).processes@,
            process_created(old(self).processes@, final(self).processes@, deadline, fn_ptr, exit_addr, r),
            r ==> exists|k: int|
                #![trigger is_first_free(old(self).processes@, k)]
                is_first_free(old(self).processes@, k)
                && created(old(self).processes@[k], final(self).processes@[k], deadline, fn_ptr, exit_addr)
                && final(self).processes@ == old(self).processes@.update(k, final(self).processes@[k]),
    {
        let mut i: usize = 0;
        while i < MAX_PROCESSES && !(self.processes[i].state == State::UNDEFINED
            || self.processes[i].state == State::ENDED)
            invariant
                i <= MAX_PROCESSES,
                *self == *old(self),
                forall|j: int| 0 <= j < i ==> !is_free(#[trigger] self.processes@[j].state),
            decreases MAX_PROCESSES - i,
        {
            i = i + 1;
        }
        if i == MAX_PROCESSES {
            assert(!has_free_slot(old(self).processes@));
            return false;
        }
        let mut new_process = self.processes[i];
        new_process.stack[PROCESS_STACK_SIZE - 1] = XPSR_THUMB;
        new_process.stack[PROCESS_STACK_SIZE - 2] = fn_ptr;
        new_process.stack[PROCESS_STACK_SIZE - 3] = exit_addr;
        new_process.stack[PROCESS_STACK_SIZE - 4] = 0x1212_1212;
        new_process.stack[PROCESS_STACK_SIZE - 5] = 0x3333_3333;
        new_process.stack[PROCESS_STACK_SIZE - 6] = 0x2222_2222;
        new_process.stack[PROCESS_STACK_SIZE - 7] = 0x1111_1111;
        new_process.stack[PROCESS_STACK_SIZE - 8] = 0x0000_0000;
        new_process.stack[PROCESS_STACK_SIZE - 9] = 0x1111_1111;
        new_process.stack[PROCESS_STACK_SIZE - 10] = 0x1010_1010;
        new_process.stack[PROCESS_STACK_SIZE - 11] = 0x9999_9999;
        new_process.stack[PROCESS_STACK_SIZE - 12] = 0x8888_8888;
        new_process.stack[PROCESS_STACK_SIZE - 13] = FRAME_R7_PATTERN;
        new_process.stack[PROCESS_STACK_SIZE - 14] = 0x6666_6666;
        new_process.stack[PROCESS_STACK_SIZE - 15] = 0x5555_5555;
        new_process.stack[PROCESS_STACK_SIZE - 16] = 0x4444_4444;
        new_process.tos = FRAME_TOP;
        new_process.absolute_deadline = deadline;
        new_process.deadline = deadline;
        new_process.fn_ptr = fn_ptr;
        new_process.state = State::DEFINED;
        self.processes[i] = new_process;
        assert(new_process.stack@ =~= with_initial_frame(
            old(self).processes@[i as int].stack@, fn_ptr, exit_addr, FRAME_R7_PATTERN));
        assert(is_first_free(old(self).processes@, i as int));
        assert(self.processes@ =~= old(self).processes@.update(i as int, self.processes@[i as int]));
        true
    }

    /// The decision of this table: slot 1 when it is current, else slot 0.
    pub fn schedule(&self) -> (pid: usize)
        ensures
            pid == (if self.current_process == 1 { 1usize } else { 0usize }),
    {
        if self.current_process == 1 {
            1
        } else {
            0
        }
    }
}

/// `create_process` takes the first slot whose state is `UNDEFINED` or
/// `ENDED`, and only such a slot: it succeeds exactly when one of the user
/// slots is in one of these states; every slot in any other state keeps its
/// process; the slot taken holds a defined process with the given deadline
/// and entry point, the release time of the slot, and a stack whose lower
/// words are kept and whose top sixteen words are the initial frame (with
/// `0x7777_7777` for R7); on failure nothing changes.
pub proof fn lemma_create_process_takes_first_unused_slot(
    ps: Seq<Process>,
    qs: Seq<Process>,
    deadline: u32,
    fn_ptr: u32,
    exit_addr: u32,
    r: bool,
)
    requires
        ps.len() == PROCESS_SLOTS,
        process_created(ps, qs, deadline, fn_ptr, exit_addr, r),
    ensures
        qs.len() == PROCESS_SLOTS,
        r <==> exists|k: int| 0 <= k < 10
            && (#[trigger] ps[k].state == State::UNDEFINED || ps[k].state == State::ENDED),
        forall|j: int| 0 <= j < 11 && ps[j].state != State::UNDEFINED && ps[j].state != State::ENDED
            ==> #[trigger] qs[j] == ps[j],
        !r ==> qs == ps,
        r ==> exists|k: int| #![trigger qs[k]]
            0 <= k < 10
            && (ps[k].state == State::UNDEFINED || ps[k].state == State::ENDED)
            && (forall|j: int| 0 <= j < k ==>
                #[trigger] ps[j].state != State::UNDEFINED && ps[j].state != State::ENDED)
            && (forall|j: int| 0 <= j < 11 && j != k ==> #[trigger] qs[j] == ps[j])
            && qs[k].state == State::DEFINED
            && qs[k].deadline == deadline
            && qs[k].absolute_deadline == deadline
            && qs[k].release_time == ps[k].release_time
            && qs[k].fn_ptr == fn_ptr
            && qs[k].tos == 1008
            && qs[k].stack@.subrange(0, 1008) == ps[k].stack@.subrange(0, 1008)
            && qs[k].stack@.subrange(1008, 1024) == seq![
                0x4444_4444u32, 0x5555_5555u32, 0x6666_6666u32, 0x7777_7777u32,
                0x8888_8888u32, 0x9999_9999u32, 0x1010_1010u32, 0x1111_1111u32,
                0x0000_0000u32, 0x1111_1111u32, 0x2222_2222u32, 0x3333_3333u32,
                0x1212_1212u32, exit_addr, fn_ptr, 0x0100_0000u32,
            ],
{
    if r {
        let k = choose|k: int| #![trigger is_first_free(ps, k)]
            is_first_free(ps, k) && created(ps[k], qs[k], deadline, fn_ptr, exit_addr) && qs == ps.update(k, qs[k]);
        assert(is_free(ps[k].state));
        let st = qs[k].stack@;
        assert(st.subrange(0, 1008) =~= ps[k].stack@.subrange(0, 1008));
        assert(st.subrange(1008, 1024) =~= initial_frame(fn_ptr, exit_addr, FRAME_R7_PATTERN));
        assert forall|j: int| 0 <= j < 11 && j != k implies #[trigger] qs[j] == ps[j] by {}
        assert forall|j: int| 0 <= j < 11 && ps[j].state != State::UNDEFINED && ps[j].state != State::ENDED
            implies #[trigger] qs[j] == ps[j] by {}
    } else {
        assert forall|k: int| 0 <= k < 10 implies
            !(#[trigger] ps[k].state == State::UNDEFINED || ps[k].state == State::ENDED) by {
            if is_free(ps[k].state) {
                assert(has_free_slot(ps));
            }
        }
    }
}

} // verus!
