use vstd::prelude::*;

verus! {

/// Number of 32-bit words in the stack of each process.
pub const PROCESS_STACK_SIZE: usize = 1024;

/// Number of user processes the scheduler can hold; the slot at this index
/// holds the idle process.
pub const MAX_PROCESSES: usize = 10;

/// Number of slots in the process table: the user processes and the idle one.
pub const PROCESS_SLOTS: usize = MAX_PROCESSES + 1;

/// Words of the initial frame at the top of a process stack: the eight words
/// that the exception return pops, then the eight callee-saved registers.
pub const FRAME_WORDS: usize = 16;

/// Index, in a process stack, of the lowest word of the initial frame; the
/// top of stack of a fresh process points there.
pub const FRAME_TOP: usize = PROCESS_STACK_SIZE - FRAME_WORDS;

/// xPSR value of a fresh frame: only the Thumb bit is set.
pub const XPSR_THUMB: u32 = 0x0100_0000;

/// Marker that `create_process` puts in the R7 slot of a new frame, to be
/// found in a memory dump.
pub const FRAME_R7_MARKER: u32 = 0xdead_beef;

/// Word that `schedule` puts in the R7 slot of the frame of a new job, in the
/// pattern of the other registers (R4 holds `0x4444_4444`, and so on).
pub const FRAME_R7_PATTERN: u32 = 0x7777_7777;

/// Time, in milliseconds since the first scheduling decision, from which each
/// decision asks for a debugger breakpoint.
pub const TRACE_LIMIT_MS: u32 = 10000;

/// Reload value of the SysTick counter: one tick short of its 24-bit range.
pub const SYSTICK_RELOAD: u32 = 0x00ff_ffff - 1;

/// The lifecycle of a process.
#[allow(non_camel_case_types)]
#[derive(Copy, Clone, Debug, PartialEq, Eq, Structural)]
pub enum State {
    UNDEFINED,
    DEFINED,
    READY,
    RUNNING,
    PREEMPTED,
    FAILED,
    ENDED,
}

/// One entry of the process table.
///
/// `tos` is the index, in `stack`, of the word that the saved stack pointer
/// designates; `fn_ptr` is the code address of the process body.
#[derive(Copy, Clone)]
pub struct Process {
    pub tos: usize,
    pub stack: [u32; PROCESS_STACK_SIZE],
    pub deadline: u32,
    pub absolute_deadline: u32,
    pub release_time: u32,
    pub fn_ptr: u32,
    pub state: State,
}

/// The process table of the scheduler.
///
/// `delay` is the time, in milliseconds since boot, of the first scheduling
/// decision (0 until then); scheduling times are counted from it.
pub struct Scheduler {
    pub current_process: usize,
    pub processes: [Process; PROCESS_SLOTS],
    pub delay: u32,
}

/// What one scheduling decision found, besides the new state of the table.
///
/// `pid` is the slot that runs next (`MAX_PROCESSES` for the idle process);
/// `released[i]` tells that process `i` was released in this decision and
/// `missed[i]` that it had missed its deadline; `trace_limit_reached` asks for
/// the debugger breakpoint that ends a traced run.
pub struct ScheduleDecision {
    pub pid: usize,
    pub released: [bool; MAX_PROCESSES],
    pub missed: [bool; MAX_PROCESSES],
    pub trace_limit_reached: bool,
}

// ---------------------------------------------------------------------------
// The model
// ---------------------------------------------------------------------------

/// The initial frame, from its lowest word (index `FRAME_TOP` of the stack)
/// to its highest: R4..R11 (with `r7` in the R7 slot), then R0..R3, R12, the
/// return address `lr`, the entry point `pc` and the xPSR.
pub open spec fn initial_frame(pc: u32, lr: u32, r7: u32) -> Seq<u32> {
    seq![
        0x4444_4444u32, 0x5555_5555u32, 0x6666_6666u32, r7,
        0x8888_8888u32, 0x9999_9999u32, 0x1010_1010u32, 0x1111_1111u32,
        0x0000_0000u32, 0x1111_1111u32, 0x2222_2222u32, 0x3333_3333u32,
        0x1212_1212u32, lr, pc, XPSR_THUMB,
    ]
}

/// A stack whose top `FRAME_WORDS` words are replaced by an initial frame.
pub open spec fn with_initial_frame(stack: Seq<u32>, pc: u32, lr: u32, r7: u32) -> Seq<u32> {
    stack.subrange(0, FRAME_TOP as int) + initial_frame(pc, lr, r7)
}

/// A slot that `create_process` may take.
pub open spec fn is_free(s: State) -> bool {
    s == State::UNDEFINED || s == State::ENDED
}

/// `k` is the first free slot among the user slots.
pub open spec fn is_first_free(ps: Seq<Process>, k: int) -> bool {
    &&& 0 <= k < MAX_PROCESSES
    &&& is_free(ps[k].state)
    &&& forall|j: int| 0 <= j < k ==> !is_free(#[trigger] ps[j].state)
}

/// Some user slot is free.
pub open spec fn has_free_slot(ps: Seq<Process>) -> bool {
    exists|k: int| 0 <= k < MAX_PROCESSES && is_free(#[trigger] ps[k].state)
}

/// A slot that went from free to taken got a new frame: these are the only
/// slots whose stack and top of stack `create_process` and `schedule` write.
pub open spec fn gets_new_frame(before: State, after: State) -> bool {
    is_free(before) && !is_free(after)
}

/// The stack and top of stack of every slot are unchanged, but in the slots
/// that got a new frame.
pub open spec fn frames_kept(ps: Seq<Process>, qs: Seq<Process>) -> bool {
    forall|j: int| 0 <= j < PROCESS_SLOTS && !gets_new_frame(ps[j].state, #[trigger] qs[j].state)
        ==> qs[j].stack == ps[j].stack && qs[j].tos == ps[j].tos
}

/// `new` is `old` made into a fresh process by `create_process`.
pub open spec fn created(old: Process, new: Process, deadline: u32, fn_ptr: u32, exit_addr: u32) -> bool {
    &&& new.stack@ == with_initial_frame(old.stack@, fn_ptr, exit_addr, FRAME_R7_MARKER)
    &&& new.tos == FRAME_TOP
    &&& new.deadline == deadline
    &&& new.absolute_deadline == deadline
    &&& new.release_time == old.release_time
    &&& new.fn_ptr == fn_ptr
    &&& new.state == State::DEFINED
}

/// A process that a scheduling decision starts on a new job: its last job ended.
pub open spec fn renews(p: Process) -> bool {
    p.state == State::ENDED
}

/// Release time after the decision: a new job is released at the deadline of
/// the job that ended.
pub open spec fn next_release(p: Process) -> u32 {
    if renews(p) { p.absolute_deadline } else { p.release_time }
}

/// Absolute deadline after the decision: one relative deadline after the
/// release of a new job.
pub open spec fn next_absolute_deadline(p: Process) -> int {
    if renews(p) { p.absolute_deadline + p.deadline } else { p.absolute_deadline as int }
}

/// No new job would push its absolute deadline past `u32::MAX`.
pub open spec fn renewals_fit(ps: Seq<Process>) -> bool {
    forall|j: int| 0 <= j < MAX_PROCESSES && renews(#[trigger] ps[j]) ==>
        ps[j].absolute_deadline + ps[j].deadline <= u32::MAX
}

/// State at which the decision looks: a new job starts as `DEFINED`.
pub open spec fn renewed_state(p: Process) -> State {
    if renews(p) { State::DEFINED } else { p.state }
}

/// The process is waiting for its release time, or failed, and that time has come.
pub open spec fn released_at(p: Process, now: u32) -> bool {
    &&& p.state != State::UNDEFINED
    &&& (renewed_state(p) == State::DEFINED || renewed_state(p) == State::FAILED)
    &&& next_release(p) <= now
}

/// The absolute deadline of the process has passed.
pub open spec fn misses_deadline(p: Process, now: u32) -> bool {
    p.state != State::UNDEFINED && next_absolute_deadline(p) < now
}

/// State of a user process after the decision, before the chosen one runs.
pub open spec fn next_state(p: Process, now: u32) -> State {
    if p.state == State::UNDEFINED {
        State::UNDEFINED
    } else if misses_deadline(p, now) {
        State::FAILED
    } else if released_at(p, now) {
        State::READY
    } else if renewed_state(p) == State::RUNNING {
        State::PREEMPTED
    } else {
        renewed_state(p)
    }
}

/// A process that may run: released and not failed, that is ready, running
/// or preempted after the decision, whatever its deadline.
pub open spec fn competes(p: Process, now: u32) -> bool {
    let s = next_state(p, now);
    s == State::READY || s == State::RUNNING || s == State::PREEMPTED
}

/// Earliest deadline first: `pid` is the competing process with the earliest
/// absolute deadline, the lowest slot among equal deadlines, or the idle slot
/// when no process competes.
pub open spec fn is_edf_choice(ps: Seq<Process>, now: u32, pid: int) -> bool {
    if pid == MAX_PROCESSES {
        forall|j: int| 0 <= j < MAX_PROCESSES ==> !competes(#[trigger] ps[j], now)
    } else {
        &&& 0 <= pid < MAX_PROCESSES
        &&& competes(ps[pid], now)
        &&& forall|j: int| 0 <= j < MAX_PROCESSES && competes(#[trigger] ps[j], now)
            ==> next_absolute_deadline(ps[pid]) <= next_absolute_deadline(ps[j])
        &&& forall|j: int| 0 <= j < pid && competes(#[trigger] ps[j], now)
            ==> next_absolute_deadline(ps[pid]) < next_absolute_deadline(ps[j])
    }
}

/// Every field of `new` but its state is what the decision makes of `old`:
/// a new job gets a fresh frame, and its release time and deadline move on.
pub open spec fn refreshed_fields(old: Process, new: Process, exit_addr: u32) -> bool {
    &&& new.release_time == next_release(old)
    &&& new.absolute_deadline == next_absolute_deadline(old)
    &&& new.deadline == old.deadline
    &&& new.fn_ptr == old.fn_ptr
    &&& if renews(old) {
        &&& new.stack@ == with_initial_frame(old.stack@, old.fn_ptr, exit_addr, FRAME_R7_PATTERN)
        &&& new.tos == FRAME_TOP
    } else {
        &&& new.stack == old.stack
        &&& new.tos == old.tos
    }
}

/// `new` is what the decision at time `now` makes of `old`, before the chosen
/// process is marked running.
pub open spec fn refreshed(old: Process, new: Process, now: u32, exit_addr: u32) -> bool {
    &&& refreshed_fields(old, new, exit_addr)
    &&& new.state == next_state(old, now)
}

/// The whole effect of `schedule(now, exit_addr)` on the table, and what it
/// reports.
pub open spec fn scheduled(old: Scheduler, new: Scheduler, now: u32, exit_addr: u32, d: ScheduleDecision) -> bool {
    let ps = old.processes@;
    let qs = new.processes@;
    &&& is_edf_choice(ps, now, d.pid as int)
    &&& new.current_process == d.pid
    &&& new.delay == old.delay
    &&& qs[MAX_PROCESSES as int] == ps[MAX_PROCESSES as int]
    &&& forall|j: int| 0 <= j < MAX_PROCESSES && j != d.pid ==> refreshed(#[trigger] ps[j], qs[j], now, exit_addr)
    &&& d.pid < MAX_PROCESSES ==> {
        &&& refreshed_fields(ps[d.pid as int], qs[d.pid as int], exit_addr)
        &&& qs[d.pid as int].state == State::RUNNING
    }
    &&& forall|j: int| 0 <= j < MAX_PROCESSES ==> d.released@[j] == released_at(#[trigger] ps[j], now)
    &&& forall|j: int| 0 <= j < MAX_PROCESSES ==> d.missed@[j] == misses_deadline(#[trigger] ps[j], now)
    &&& d.trace_limit_reached == (now >= TRACE_LIMIT_MS)
}

/// The whole effect of `create_process(deadline, fn_ptr, exit_addr)` on the
/// slots of the table, `r` being its result.
pub open spec fn process_created(
    ps: Seq<Process>,
    qs: Seq<Process>,
    deadline: u32,
    fn_ptr: u32,
    exit_addr: u32,
    r: bool,
) -> bool {
    &&& r == has_free_slot(ps)
    &&& !r ==> qs == ps
    &&& r ==> exists|k: int|
        #![trigger is_first_free(ps, k)]
        is_first_free(ps, k) && created(ps[k], qs[k], deadline, fn_ptr, exit_addr) && qs == ps.update(k, qs[k])
}

/// The whole effect of `end_task`: the current process has ended its job.
pub open spec fn task_ended(old: Scheduler, new: Scheduler) -> bool {
    &&& new.current_process == old.current_process
    &&& new.delay == old.delay
    &&& new.processes@ == old.processes@.update(
        old.current_process as int,
        Process { state: State::ENDED, ..old.processes@[old.current_process as int] },
    )
}

/// A process as the static table starts it: all zero, undefined.
pub open spec fn is_blank(p: Process) -> bool {
    &&& p.tos == 0
    &&& forall|w: int| 0 <= w < PROCESS_STACK_SIZE ==> #[trigger] p.stack@[w] == 0
    &&& p.deadline == 0
    &&& p.absolute_deadline == 0
    &&& p.release_time == 0
    &&& p.fn_ptr == 0
    &&& p.state == State::UNDEFINED
}

impl Scheduler {
    /// The table is well formed: the current slot is a slot of the table.
    pub open spec fn wf(&self) -> bool {
        self.current_process < PROCESS_SLOTS
    }
}

// ---------------------------------------------------------------------------
// The code
// ---------------------------------------------------------------------------

/// Writes an initial frame at the top of the stack of `p` and points its top
/// of stack at it.
fn write_initial_frame(p: &mut Process, pc: u32, lr: u32, r7: u32)
    ensures
        final(p).stack@ == with_initial_frame(old(p).stack@, pc, lr, r7),
        final(p).tos == FRAME_TOP,
        final(p).deadline == old(p).deadline,
        final(p).absolute_deadline == old(p).absolute_deadline,
        final(p).release_time == old(p).release_time,
        final(p).fn_ptr == old(p).fn_ptr,
        final(p).state == old(p).state,
{
    p.stack[PROCESS_STACK_SIZE - 1] = XPSR_THUMB;
    p.stack[PROCESS_STACK_SIZE - 2] = pc;
    p.stack[PROCESS_STACK_SIZE - 3] = lr;
    p.stack[PROCESS_STACK_SIZE - 4] = 0x1212_1212;
    p.stack[PROCESS_STACK_SIZE - 5] = 0x3333_3333;
    p.stack[PROCESS_STACK_SIZE - 6] = 0x2222_2222;
    p.stack[PROCESS_STACK_SIZE - 7] = 0x1111_1111;
    p.stack[PROCESS_STACK_SIZE - 8] = 0x0000_0000;
    p.stack[PROCESS_STACK_SIZE - 9] = 0x1111_1111;
    p.stack[PROCESS_STACK_SIZE - 10] = 0x1010_1010;
    p.stack[PROCESS_STACK_SIZE - 11] = 0x9999_9999;
    p.stack[PROCESS_STACK_SIZE - 12] = 0x8888_8888;
    p.stack[PROCESS_STACK_SIZE - 13] = r7;
    p.stack[PROCESS_STACK_SIZE - 14] = 0x6666_6666;
    p.stack[PROCESS_STACK_SIZE - 15] = 0x5555_5555;
    p.stack[PROCESS_STACK_SIZE - 16] = 0x4444_4444;
    p.tos = FRAME_TOP;
    assert(p.stack@ =~= with_initial_frame(old(p).stack@, pc, lr, r7));
}

impl Scheduler {
    /// The table as the static scheduler starts it: every slot blank, slot 0
    /// current, no start time yet.
    pub fn new() -> (s: Scheduler)
        ensures
            s.wf(),
            s.current_process == 0,
            s.delay == 0,
            forall|i: int| 0 <= i < PROCESS_SLOTS ==> is_blank(#[trigger] s.processes@[i]),
            forall|i: int| 0 <= i < 11 ==> {
                let p = #[trigger] s.processes@[i];
                &&& p.state == State::UNDEFINED
                &&& p.tos == 0
                &&& p.deadline == 0 && p.absolute_deadline == 0 && p.release_time == 0 && p.fn_ptr == 0
                &&& forall|w: int| 0 <= w < 1024 ==> #[trigger] p.stack@[w] == 0
            },
    {
        let blank = Process {
            tos: 0,
            stack: [0u32; PROCESS_STACK_SIZE],
            deadline: 0,
            absolute_deadline: 0,
            release_time: 0,
            fn_ptr: 0,
            state: State::UNDEFINED,
        };
        Scheduler { current_process: 0, processes: [blank; PROCESS_SLOTS], delay: 0 }
    }

    /// Sets up the idle process in the last slot, with a stack whose top
    /// holds the xPSR, the entry point `idle_addr` and the return address
    /// `exit_addr`, and makes it current.
    pub fn init_scheduler(&mut self, idle_addr: u32, exit_addr: u32)
        ensures
            final(self).wf(),
            final(self).current_process == MAX_PROCESSES,
            final(self).delay == old(self).delay,
            forall|i: int| 0 <= i < MAX_PROCESSES ==> #[trigger] final(self).processes@[i] == old(self).processes@[i],
            final(self).processes@[MAX_PROCESSES as int].stack@ == old(self).processes@[MAX_PROCESSES as int].stack@
                .update(PROCESS_STACK_SIZE - 1, XPSR_THUMB)
                .update(PROCESS_STACK_SIZE - 2, idle_addr)
                .update(PROCESS_STACK_SIZE - 3, exit_addr),
            final(self).processes@[MAX_PROCESSES as int].tos == FRAME_TOP,
            final(self).processes@[MAX_PROCESSES as int].absolute_deadline == u32::MAX,
            final(self).processes@[MAX_PROCESSES as int].deadline == 0,
            final(self).processes@[MAX_PROCESSES as int].state == State::UNDEFINED,
            final(self).processes@[MAX_PROCESSES as int].release_time == old(self).processes@[MAX_PROCESSES as int].release_time,
            final(self).processes@[MAX_PROCESSES as int].fn_ptr == old(self).processes@[MAX_PROCESSES as int].fn_ptr,
    {
        let mut idle_process = self.processes[MAX_PROCESSES];
        idle_process.stack[PROCESS_STACK_SIZE - 1] = XPSR_THUMB;
        idle_process.stack[PROCESS_STACK_SIZE - 2] = idle_addr;
        idle_process.stack[PROCESS_STACK_SIZE - 3] = exit_addr;
        idle_process.tos = FRAME_TOP;
        idle_process.absolute_deadline = u32::MAX;
        idle_process.deadline = 0;
        idle_process.state = State::UNDEFINED;
        self.processes[MAX_PROCESSES] = idle_process;
        self.current_process = MAX_PROCESSES;
    }

    /// Puts a new process with relative deadline `deadline` and entry point
    /// `fn_ptr` in the first free user slot, with a fresh frame whose return
    /// address is `exit_addr`; returns false, changing nothing, when no user
    /// slot is free.
    pub fn create_process(&mut self, deadline: u32, fn_ptr: u32, exit_addr: u32) -> (r: bool)
        ensures
            r == has_free_slot(old(self).processes@),
            final(self).current_process == old(self).current_process,
            final(self).delay == old(self).delay,
            old(self).wf() ==> final(self).wf(),
            !r ==> final(self).processes@ == old(self).processes@,
            frames_kept(old(self).processes@, final(self).processes@),
            process_created(old(self).processes@, final(self).processes@, deadline, fn_ptr, exit_addr, r),
            r ==> exists|k: int|
                #![trigger is_first_free(old(self).processes@, k)]
                is_first_free(old(self).processes@, k)
                && created(old(self).processes@[k], final(self).processes@[k], deadline, fn_ptr, exit_addr)
                && final(self).processes@ == old(self).processes@.update(k, final(self).processes@[k]),
    {
        let mut i: usize = 0;
        while i < MAX_PROCESSES && !(self.processes[i].state == State::UNDEFINED
            || self.processes[i].state == State::ENDED)
            invariant
                i <= MAX_PROCESSES,
                *self == *old(self),
                forall|j: int| 0 <= j < i ==> !is_free(#[trigger] self.processes@[j].state),
            decreases MAX_PROCESSES - i,
        {
            i = i + 1;
        }
        if i == MAX_PROCESSES {
            assert(!has_free_slot(old(self).processes@));
            return false;
        }
        let mut new_process = self.processes[i];
        write_initial_frame(&mut new_process, fn_ptr, exit_addr, FRAME_R7_MARKER);
        new_process.absolute_deadline = deadline;
        new_process.deadline = deadline;
        new_process.fn_ptr = fn_ptr;
        new_process.state = State::DEFINED;
        self.processes[i] = new_process;
        assert(is_first_free(old(self).processes@, i as int));
        assert(self.processes@ =~= old(self).processes@.update(i as int, self.processes@[i as int]));
        true
    }
}

impl Scheduler {
    /// Makes one earliest-deadline-first decision at time `now` (milliseconds
    /// since the first decision): starts a new job for each ended process,
    /// with a fresh frame returning to `exit_addr`, releases the processes
    /// whose release time has come, fails those past their deadline, preempts
    /// the running one, then runs the competing process with the earliest
    /// deadline, or the idle process when none competes.
    pub fn schedule(&mut self, now: u32, exit_addr: u32) -> (d: ScheduleDecision)
        requires
            renewals_fit(old(self).processes@),
        ensures
            final(self).wf(),
            scheduled(*old(self), *final(self), now, exit_addr, d),
            forall|j: int| 0 <= j < MAX_PROCESSES ==>
                (#[trigger] final(self).processes@[j].state == State::RUNNING <==> j == d.pid),
            d.pid < MAX_PROCESSES ==> final(self).processes@[d.pid as int].absolute_deadline >= now,
            frames_kept(old(self).processes@, final(self).processes@),
    {
        let ghost ps = self.processes@;
        let mut pid: usize = MAX_PROCESSES;
        let mut earliest_deadline: u32 = u32::MAX;
        let mut found: bool = false;
        let mut released = [false; MAX_PROCESSES];
        let mut missed = [false; MAX_PROCESSES];
        let mut i: usize = 0;
        while i < MAX_PROCESSES
            invariant
                i <= MAX_PROCESSES,
                ps == old(self).processes@,
                renewals_fit(ps),
                self.current_process == old(self).current_process,
                self.delay == old(self).delay,
                forall|j: int| 0 <= j < i ==> refreshed(#[trigger] ps[j], self.processes@[j], now, exit_addr),
                forall|j: int| i <= j < PROCESS_SLOTS ==> #[trigger] self.processes@[j] == ps[j],
                forall|j: int| 0 <= j < i ==> released@[j] == released_at(#[trigger] ps[j], now),
                forall|j: int| 0 <= j < i ==> missed@[j] == misses_deadline(#[trigger] ps[j], now),
                forall|j: int| i <= j < MAX_PROCESSES ==> !#[trigger] released@[j],
                forall|j: int| i <= j < MAX_PROCESSES ==> !#[trigger] missed@[j],
                !found ==> {
                    &&& pid == MAX_PROCESSES
                    &&& forall|j: int| 0 <= j < i ==> !competes(#[trigger] ps[j], now)
                },
                found ==> {
                    &&& pid < i
                    &&& competes(ps[pid as int], now)
                    &&& earliest_deadline == next_absolute_deadline(ps[pid as int])
                    &&& forall|j: int| 0 <= j < i && competes(#[trigger] ps[j], now)
                        ==> earliest_deadline <= next_absolute_deadline(ps[j])
                    &&& forall|j: int| 0 <= j < pid && competes(#[trigger] ps[j], now)
                        ==> earliest_deadline < next_absolute_deadline(ps[j])
                },
            decreases MAX_PROCESSES - i,
        {
            let mut process = self.processes[i];
            assert(process == ps[i as int]);
            if process.state != State::UNDEFINED {
                if process.state == State::ENDED {
                    let entry = process.fn_ptr;
                    write_initial_frame(&mut process, entry, exit_addr, FRAME_R7_PATTERN);
                    process.state = State::DEFINED;
                    process.release_time = process.absolute_deadline;
                    assert(renews(ps[i as int]));
                    process.absolute_deadline = process.release_time + process.deadline;
                }
                if (process.state == State::DEFINED || process.state == State::FAILED)
                    && process.release_time <= now {
                    process.state = State::READY;
                    released[i] = true;
                }
                if process.absolute_deadline < now {
                    process.state = State::FAILED;
                    missed[i] = true;
                }
                if process.state == State::RUNNING {
                    process.state = State::PREEMPTED;
                }
                if process.state == State::READY || process.state == State::RUNNING
                    || process.state == State::PREEMPTED {
                    if !found || process.absolute_deadline < earliest_deadline {
                        pid = i;
                        earliest_deadline = process.absolute_deadline;
                        found = true;
                    }
                }
                self.processes[i] = process;
            }
            assert(refreshed(ps[i as int], self.processes@[i as int], now, exit_addr));
            assert(released@[i as int] == released_at(ps[i as int], now));
            assert(missed@[i as int] == misses_deadline(ps[i as int], now));
            i = i + 1;
        }
        if found {
            let mut chosen = self.processes[pid];
            chosen.state = State::RUNNING;
            self.processes[pid] = chosen;
        }
        self.current_process = pid;
        assert forall|j: int| 0 <= j < MAX_PROCESSES implies
            (#[trigger] self.processes@[j].state == State::RUNNING <==> j == pid) by {
            if j != pid {
                assert(refreshed(ps[j], self.processes@[j], now, exit_addr));
            }
        }
        ScheduleDecision {
            pid,
            released,
            missed,
            trace_limit_reached: now >= TRACE_LIMIT_MS,
        }
    }
}

/// Whether a slot whose state went from `before` to `after` got a new frame.
pub fn needs_new_frame(before: State, after: State) -> (r: bool)
    ensures
        r == gets_new_frame(before, after),
        r == ((before == State::UNDEFINED || before == State::ENDED)
            && after != State::UNDEFINED && after != State::ENDED),
{
    (before == State::UNDEFINED || before == State::ENDED)
        && !(after == State::UNDEFINED || after == State::ENDED)
}

impl Scheduler {
    /// Marks the current process as having ended its job.
    pub fn end_task(&mut self)
        requires
            old(self).wf(),
        ensures
            final(self).wf(),
            task_ended(*old(self), *final(self)),
    {
        let pid = self.current_process;
        let mut ended_proc = self.processes[pid];
        ended_proc.state = State::ENDED;
        self.processes[pid] = ended_proc;
        assert(self.processes@ =~= old(self).processes@.update(
            old(self).current_process as int,
            Process { state: State::ENDED, ..old(self).processes@[old(self).current_process as int] },
        ));
    }

    /// Records `elapsed_ms` (milliseconds since boot) as the time of the first
    /// decision, unless one is recorded already; returns whether it recorded.
    pub fn record_start(&mut self, elapsed_ms: u32) -> (first: bool)
        ensures
            first == (old(self).delay == 0),
            final(self).delay == (if first { elapsed_ms } else { old(self).delay }),
            final(self).current_process == old(self).current_process,
            final(self).processes@ == old(self).processes@,
    {
        if self.delay == 0 {
            self.delay = elapsed_ms;
            true
        } else {
            false
        }
    }

    /// Milliseconds from the first decision to `elapsed_ms` (milliseconds
    /// since boot).
    pub fn time_since_start(&self, elapsed_ms: u32) -> (t: u32)
        requires
            self.delay <= elapsed_ms,
        ensures
            t == elapsed_ms - self.delay,
    {
        elapsed_ms - self.delay
    }

    /// Whether no ended process would push its next absolute deadline past
    /// `u32::MAX` (what `schedule` requires).
    pub fn renewals_fit(&self) -> (r: bool)
        ensures
            r == renewals_fit(self.processes@),
            r == forall|j: int| 0 <= j < 10 && (#[trigger] self.processes@[j]).state == State::ENDED
                ==> self.processes@[j].absolute_deadline + self.processes@[j].deadline <= 0xffff_ffff,
    {
        let mut i: usize = 0;
        while i < MAX_PROCESSES
            invariant
                i <= MAX_PROCESSES,
                forall|j: int| 0 <= j < i && renews(#[trigger] self.processes@[j]) ==>
                    self.processes@[j].absolute_deadline + self.processes@[j].deadline <= u32::MAX,
            decreases MAX_PROCESSES - i,
        {
            let p = &self.processes[i];
            if p.state == State::ENDED && p.deadline > u32::MAX - p.absolute_deadline {
                return false;
            }
            i = i + 1;
        }
        true
    }
}

// ---------------------------------------------------------------------------
// Laws
// ---------------------------------------------------------------------------

/// The earliest-deadline-first choice is determined by the table and the
/// time: no two slots are both the choice.
pub proof fn lemma_edf_choice_unique(ps: Seq<Process>, now: u32, a: int, b: int)
    requires
        is_edf_choice(ps, now, a),
        is_edf_choice(ps, now, b),
    ensures
        a == b,
{
    if a != MAX_PROCESSES && b != MAX_PROCESSES {
        if a < b {
            assert(competes(ps[a], now));
        } else if b < a {
            assert(competes(ps[b], now));
        }
    } else if a != MAX_PROCESSES {
        assert(!competes(ps[a], now));
    } else if b != MAX_PROCESSES {
        assert(!competes(ps[b], now));
    }
}

/// A decision taken again at the same time, with nothing else done in
/// between, runs the same process and leaves the whole table as the first
/// decision left it.
pub proof fn lemma_decision_is_stable(
    s0: Scheduler,
    s1: Scheduler,
    s2: Scheduler,
    now: u32,
    exit_addr: u32,
    d1: ScheduleDecision,
    d2: ScheduleDecision,
)
    requires
        scheduled(s0, s1, now, exit_addr, d1),
        scheduled(s1, s2, now, exit_addr, d2),
    ensures
        d2.pid == d1.pid,
        s2.current_process == s1.current_process,
        s2.processes@ == s1.processes@,
{
    let ps = s0.processes@;
    let qs = s1.processes@;
    assert forall|j: int| 0 <= j < MAX_PROCESSES implies
        #[trigger] competes(qs[j], now) == competes(ps[j], now)
        && next_absolute_deadline(qs[j]) == next_absolute_deadline(ps[j]) by {
        if j != d1.pid {
            assert(refreshed(ps[j], qs[j], now, exit_addr));
        }
    }
    if d1.pid == MAX_PROCESSES {
        assert forall|j: int| 0 <= j < MAX_PROCESSES implies !competes(#[trigger] qs[j], now) by {
            assert(competes(qs[j], now) == competes(ps[j], now));
        }
    } else {
        assert(competes(qs[d1.pid as int], now) == competes(ps[d1.pid as int], now));
        assert forall|j: int| 0 <= j < MAX_PROCESSES && competes(#[trigger] qs[j], now) implies
            next_absolute_deadline(qs[d1.pid as int]) <= next_absolute_deadline(qs[j]) by {
            assert(competes(qs[j], now) == competes(ps[j], now));
        }
        assert forall|j: int| 0 <= j < d1.pid && competes(#[trigger] qs[j], now) implies
            next_absolute_deadline(qs[d1.pid as int]) < next_absolute_deadline(qs[j]) by {
            assert(competes(qs[j], now) == competes(ps[j], now));
        }
    }
    assert(is_edf_choice(qs, now, d1.pid as int));
    lemma_edf_choice_unique(qs, now, d1.pid as int, d2.pid as int);
    let rs = s2.processes@;
    assert forall|j: int| 0 <= j < PROCESS_SLOTS implies #[trigger] rs[j] == qs[j] by {
        if j < MAX_PROCESSES {
            if j != d1.pid {
                assert(refreshed(ps[j], qs[j], now, exit_addr));
                assert(refreshed(qs[j], rs[j], now, exit_addr));
            } else {
                assert(refreshed_fields(ps[j], qs[j], exit_addr));
                assert(refreshed_fields(qs[j], rs[j], exit_addr));
            }
        }
    }
    assert(rs =~= qs);
}

/// A process whose job ended starts a new job at the next decision: it is
/// released at the deadline of the ended job, its new deadline is one
/// relative deadline later, and its stack holds a fresh frame.
pub proof fn lemma_ended_job_renewed(
    s0: Scheduler,
    s1: Scheduler,
    s2: Scheduler,
    now: u32,
    exit_addr: u32,
    d: ScheduleDecision,
)
    requires
        s0.wf(),
        s0.current_process < MAX_PROCESSES,
        task_ended(s0, s1),
        scheduled(s1, s2, now, exit_addr, d),
    ensures
        ({
            let c = s0.current_process as int;
            let p = s0.processes@[c];
            let q = s2.processes@[c];
            &&& q.release_time == p.absolute_deadline
            &&& q.absolute_deadline == p.absolute_deadline + p.deadline
            &&& q.stack@ == with_initial_frame(p.stack@, p.fn_ptr, exit_addr, FRAME_R7_PATTERN)
            &&& q.tos == FRAME_TOP
            &&& q.deadline == p.deadline
            &&& q.state != State::ENDED
        }),
{
    let c = s0.current_process as int;
    assert(s1.processes@[c].state == State::ENDED);
    assert(renews(s1.processes@[c]));
    if c != d.pid {
        assert(refreshed(s1.processes@[c], s2.processes@[c], now, exit_addr));
    }
}

/// A process that `create_process` put in slot `k` takes part in the first
/// decision at or after its release time and before its deadline: it is
/// released, and the process that runs has a deadline no later than its own.
pub proof fn lemma_created_process_competes(
    s0: Scheduler,
    s1: Scheduler,
    s2: Scheduler,
    k: int,
    deadline: u32,
    fn_ptr: u32,
    exit_addr: u32,
    now: u32,
    d: ScheduleDecision,
)
    requires
        0 <= k < MAX_PROCESSES,
        created(s0.processes@[k], s1.processes@[k], deadline, fn_ptr, exit_addr),
        scheduled(s1, s2, now, exit_addr, d),
        s1.processes@[k].release_time <= now <= deadline,
    ensures
        d.released@[k],
        d.pid < MAX_PROCESSES,
        s2.processes@[d.pid as int].absolute_deadline <= deadline,
        d.pid == k || s2.processes@[k].state == State::READY,
{
    let p = s1.processes@[k];
    assert(released_at(p, now));
    assert(competes(p, now));
    if d.pid == MAX_PROCESSES {
        assert(!competes(s1.processes@[k], now));
    }
    if d.pid != k {
        assert(refreshed(p, s2.processes@[k], now, exit_addr));
    }
}

/// `create_process` takes the first slot whose state is `UNDEFINED` or
/// `ENDED`, and only such a slot: it succeeds exactly when one of the user
/// slots is in one of these states; every slot in any other state (defined,
/// ready, running, preempted or failed) keeps its process; the slot taken
/// holds a defined process with the given deadline and entry point, the
/// release time of the slot, and a stack whose lower words are kept and
/// whose top sixteen words are the initial frame; on failure nothing changes.
pub proof fn lemma_create_process_takes_first_unused_slot(
    ps: Seq<Process>,
    qs: Seq<Process>,
    deadline: u32,
    fn_ptr: u32,
    exit_addr: u32,
    r: bool,
)
    requires
        ps.len() == PROCESS_SLOTS,
        process_created(ps, qs, deadline, fn_ptr, exit_addr, r),
    ensures
        qs.len() == PROCESS_SLOTS,
        r <==> exists|k: int| 0 <= k < 10
            && (#[trigger] ps[k].state == State::UNDEFINED || ps[k].state == State::ENDED),
        forall|j: int| 0 <= j < 11 && ps[j].state != State::UNDEFINED && ps[j].state != State::ENDED
            ==> #[trigger] qs[j] == ps[j],
        !r ==> qs == ps,
        r ==> exists|k: int| #![trigger qs[k]]
            0 <= k < 10
            && (ps[k].state == State::UNDEFINED || ps[k].state == State::ENDED)
            && (forall|j: int| 0 <= j < k ==>
                #[trigger] ps[j].state != State::UNDEFINED && ps[j].state != State::ENDED)
            && (forall|j: int| 0 <= j < 11 && j != k ==> #[trigger] qs[j] == ps[j])
            && qs[k].state == State::DEFINED
            && qs[k].deadline == deadline
            && qs[k].absolute_deadline == deadline
            && qs[k].release_time == ps[k].release_time
            && qs[k].fn_ptr == fn_ptr
            && qs[k].tos == 1008
            && qs[k].stack@.subrange(0, 1008) == ps[k].stack@.subrange(0, 1008)
            && qs[k].stack@.subrange(1008, 1024) == seq![
                0x4444_4444u32, 0x5555_5555u32, 0x6666_6666u32, 0xdead_beefu32,
                0x8888_8888u32, 0x9999_9999u32, 0x1010_1010u32, 0x1111_1111u32,
                0x0000_0000u32, 0x1111_1111u32, 0x2222_2222u32, 0x3333_3333u32,
                0x1212_1212u32, exit_addr, fn_ptr, 0x0100_0000u32,
            ],
{
    if r {
        let k = choose|k: int| #![trigger is_first_free(ps, k)]
            is_first_free(ps, k) && created(ps[k], qs[k], deadline, fn_ptr, exit_addr) && qs == ps.update(k, qs[k]);
        assert(is_free(ps[k].state));
        let st = qs[k].stack@;
        assert(st.len() == 1024);
        assert(st.subrange(0, 1008) =~= ps[k].stack@.subrange(0, 1008));
        assert(st.subrange(1008, 1024) =~= initial_frame(fn_ptr, exit_addr, FRAME_R7_MARKER));
        assert forall|j: int| 0 <= j < 11 && j != k implies #[trigger] qs[j] == ps[j] by {}
        assert forall|j: int| 0 <= j < 11 && ps[j].state != State::UNDEFINED && ps[j].state != State::ENDED
            implies #[trigger] qs[j] == ps[j] by {}
        assert(qs[k].tos == 1008);
    } else {
        assert forall|k: int| 0 <= k < 10 implies
            !(#[trigger] ps[k].state == State::UNDEFINED || ps[k].state == State::ENDED) by {
            if is_free(ps[k].state) {
                assert(has_free_slot(ps));
            }
        }
    }
}

/// What one decision does to each user process, by its state before the
/// decision, with `now` the decision time:
/// - an undefined slot is left exactly as it was;
/// - an ended job is renewed: released at the deadline of the ended job,
///   due one relative deadline later, with a fresh frame whose entry point is
///   the process's own and whose return address is `exit_addr`;
/// - any other process keeps its stack, top of stack, release time and
///   absolute deadline; no process changes its relative deadline or entry
///   point, and none is left undefined or ended;
/// - a process whose (new) absolute deadline is before `now` is failed and
///   reported missed, and only such processes are reported missed;
/// - a process that was running, and is not past its deadline, is preempted
///   unless it is the one chosen;
/// - a defined, failed or ended process whose (new) release time has come is
///   reported released and, unless past its deadline, becomes ready (or runs,
///   when chosen); one whose release time has not come stays defined, and a
///   failed one stays failed;
/// - a ready or preempted process not past its deadline stays so, unless chosen.
pub proof fn lemma_schedule_transitions(
    s0: Scheduler,
    s1: Scheduler,
    now: u32,
    exit_addr: u32,
    d: ScheduleDecision,
)
    requires
        scheduled(s0, s1, now, exit_addr, d),
    ensures
        d.trace_limit_reached == (now >= 10000),
        forall|j: int| 0 <= j < 10 ==> {
            let p = #[trigger] s0.processes@[j];
            let q = s1.processes@[j];
            &&& p.state == State::UNDEFINED ==> q == p
            &&& p.state == State::ENDED ==> {
                &&& q.release_time == p.absolute_deadline
                &&& q.absolute_deadline == p.absolute_deadline + p.deadline
                &&& q.tos == 1008
                &&& q.stack@.subrange(0, 1008) == p.stack@.subrange(0, 1008)
                &&& q.stack@.subrange(1008, 1024) == seq![
                    0x4444_4444u32, 0x5555_5555u32, 0x6666_6666u32, 0x7777_7777u32,
                    0x8888_8888u32, 0x9999_9999u32, 0x1010_1010u32, 0x1111_1111u32,
                    0x0000_0000u32, 0x1111_1111u32, 0x2222_2222u32, 0x3333_3333u32,
                    0x1212_1212u32, exit_addr, p.fn_ptr, 0x0100_0000u32,
                ]
            }
            &&& p.state != State::ENDED ==> {
                &&& q.release_time == p.release_time
                &&& q.absolute_deadline == p.absolute_deadline
                &&& q.stack == p.stack
                &&& q.tos == p.tos
            }
            &&& q.deadline == p.deadline
            &&& q.fn_ptr == p.fn_ptr
            &&& q.state != State::ENDED
            &&& p.state != State::UNDEFINED ==> q.state != State::UNDEFINED
            &&& d.missed@[j] == (p.state != State::UNDEFINED && q.absolute_deadline < now)
            &&& (p.state != State::UNDEFINED && q.absolute_deadline < now) ==> q.state == State::FAILED
            &&& (p.state == State::RUNNING && p.absolute_deadline >= now && j != d.pid)
                ==> q.state == State::PREEMPTED
            &&& d.released@[j] == ((p.state == State::DEFINED || p.state == State::FAILED
                || p.state == State::ENDED) && q.release_time <= now)
            &&& ((p.state == State::DEFINED || p.state == State::FAILED || p.state == State::ENDED)
                && q.release_time <= now && q.absolute_deadline >= now)
                ==> (q.state == State::READY || (j == d.pid && q.state == State::RUNNING))
            &&& ((p.state == State::DEFINED || p.state == State::ENDED) && q.release_time > now
                && q.absolute_deadline >= now) ==> q.state == State::DEFINED
            &&& (p.state == State::FAILED && q.release_time > now) ==> q.state == State::FAILED
            &&& ((p.state == State::READY || p.state == State::PREEMPTED) && p.absolute_deadline >= now)
                ==> (q.state == p.state || (j == d.pid && q.state == State::RUNNING))
        },
{
    let ps = s0.processes@;
    let qs = s1.processes@;
    assert forall|j: int| 0 <= j < 10 implies {
        let p = #[trigger] ps[j];
        let q = qs[j];
        &&& p.state == State::UNDEFINED ==> q == p
        &&& p.state == State::ENDED ==> {
            &&& q.release_time == p.absolute_deadline
            &&& q.absolute_deadline == p.absolute_deadline + p.deadline
            &&& q.tos == 1008
            &&& q.stack@.subrange(0, 1008) == p.stack@.subrange(0, 1008)
            &&& q.stack@.subrange(1008, 1024) == seq![
                0x4444_4444u32, 0x5555_5555u32, 0x6666_6666u32, 0x7777_7777u32,
                0x8888_8888u32, 0x9999_9999u32, 0x1010_1010u32, 0x1111_1111u32,
                0x0000_0000u32, 0x1111_1111u32, 0x2222_2222u32, 0x3333_3333u32,
                0x1212_1212u32, exit_addr, p.fn_ptr, 0x0100_0000u32,
            ]
        }
        &&& p.state != State::ENDED ==> {
            &&& q.release_time == p.release_time
            &&& q.absolute_deadline == p.absolute_deadline
            &&& q.stack == p.stack
            &&& q.tos == p.tos
        }
        &&& q.deadline == p.deadline
        &&& q.fn_ptr == p.fn_ptr
        &&& q.state != State::ENDED
        &&& p.state != State::UNDEFINED ==> q.state != State::UNDEFINED
        &&& d.missed@[j] == (p.state != State::UNDEFINED && q.absolute_deadline < now)
        &&& (p.state != State::UNDEFINED && q.absolute_deadline < now) ==> q.state == State::FAILED
        &&& (p.state == State::RUNNING && p.absolute_deadline >= now && j != d.pid)
            ==> q.state == State::PREEMPTED
        &&& d.released@[j] == ((p.state == State::DEFINED || p.state == State::FAILED
            || p.state == State::ENDED) && q.release_time <= now)
        &&& ((p.state == State::DEFINED || p.state == State::FAILED || p.state == State::ENDED)
            && q.release_time <= now && q.absolute_deadline >= now)
            ==> (q.state == State::READY || (j == d.pid && q.state == State::RUNNING))
        &&& ((p.state == State::DEFINED || p.state == State::ENDED) && q.release_time > now
            && q.absolute_deadline >= now) ==> q.state == State::DEFINED
        &&& (p.state == State::FAILED && q.release_time > now) ==> q.state == State::FAILED
        &&& ((p.state == State::READY || p.state == State::PREEMPTED) && p.absolute_deadline >= now)
            ==> (q.state == p.state || (j == d.pid && q.state == State::RUNNING))
    } by {
        let p = ps[j];
        let q = qs[j];
        assert(refreshed_fields(p, q, exit_addr));
        assert(d.missed@[j] == misses_deadline(p, now));
        assert(d.released@[j] == released_at(p, now));
        if j != d.pid {
            assert(refreshed(p, q, now, exit_addr));
        }
        if p.state == State::UNDEFINED {
            assert(!competes(p, now));
            assert(j != d.pid);
            assert(q.stack@ =~= p.stack@);
            assert(q.stack =~= p.stack);
        }
        if p.state == State::ENDED {
            assert(q.stack@.subrange(0, 1008) =~= p.stack@.subrange(0, 1008));
            assert(q.stack@.subrange(1008, 1024) =~= initial_frame(p.fn_ptr, exit_addr, FRAME_R7_PATTERN));
        }
    }
}

/// Earliest deadline first, read on the table that a decision leaves: the
/// chosen process runs, and no other process left ready or preempted has an
/// earlier deadline (nor an equal one in a lower slot); the idle slot is
/// chosen only when no user process is left ready, preempted or running.
/// The chosen slot becomes current and the idle slot is untouched.
pub proof fn lemma_schedule_runs_earliest_deadline(
    s0: Scheduler,
    s1: Scheduler,
    now: u32,
    exit_addr: u32,
    d: ScheduleDecision,
)
    requires
        scheduled(s0, s1, now, exit_addr, d),
    ensures
        s1.current_process == d.pid,
        d.pid <= 10,
        s1.processes@[10] == s0.processes@[10],
        d.pid == 10 ==> forall|j: int| 0 <= j < 10 ==> {
            let st = (#[trigger] s1.processes@[j]).state;
            st != State::READY && st != State::PREEMPTED && st != State::RUNNING
        },
        d.pid < 10 ==> {
            &&& s1.processes@[d.pid as int].state == State::RUNNING
            &&& forall|j: int| 0 <= j < 10 && j != d.pid ==> {
                let q = #[trigger] s1.processes@[j];
                &&& q.state != State::RUNNING
                &&& (q.state == State::READY || q.state == State::PREEMPTED) ==> {
                    &&& s1.processes@[d.pid as int].absolute_deadline <= q.absolute_deadline
                    &&& j < d.pid ==> s1.processes@[d.pid as int].absolute_deadline < q.absolute_deadline
                }
            }
        },
{
    let ps = s0.processes@;
    let qs = s1.processes@;
    if d.pid == MAX_PROCESSES {
        assert forall|j: int| 0 <= j < 10 implies {
            let st = (#[trigger] qs[j]).state;
            st != State::READY && st != State::PREEMPTED && st != State::RUNNING
        } by {
            assert(refreshed(ps[j], qs[j], now, exit_addr));
            assert(!competes(ps[j], now));
        }
    } else {
        assert(refreshed_fields(ps[d.pid as int], qs[d.pid as int], exit_addr));
        assert forall|j: int| 0 <= j < 10 && j != d.pid implies {
            let q = #[trigger] qs[j];
            &&& q.state != State::RUNNING
            &&& (q.state == State::READY || q.state == State::PREEMPTED) ==> {
                &&& qs[d.pid as int].absolute_deadline <= q.absolute_deadline
                &&& j < d.pid ==> qs[d.pid as int].absolute_deadline < q.absolute_deadline
            }
        } by {
            assert(refreshed(ps[j], qs[j], now, exit_addr));
            if qs[j].state == State::READY || qs[j].state == State::PREEMPTED {
                assert(competes(ps[j], now));
            }
        }
    }
}

/// `end_task` ends the job of the current process and does nothing else:
/// that process becomes `ENDED` with every other field (release time,
/// deadlines, entry point, stack, top of stack) as it was, every other slot
/// keeps its process, and the current slot and start time stay.
pub proof fn lemma_end_task_only_ends_current(s0: Scheduler, s1: Scheduler)
    requires
        s0.wf(),
        task_ended(s0, s1),
    ensures
        s1.current_process == s0.current_process,
        s1.delay == s0.delay,
        s1.processes@.len() == s0.processes@.len(),
        ({
            let c = s0.current_process as int;
            let p = s0.processes@[c];
            let q = s1.processes@[c];
            &&& q.state == State::ENDED
            &&& q.release_time == p.release_time
            &&& q.absolute_deadline == p.absolute_deadline
            &&& q.deadline == p.deadline
            &&& q.fn_ptr == p.fn_ptr
            &&& q.tos == p.tos
            &&& q.stack == p.stack
        }),
        forall|j: int| 0 <= j < 11 && j != s0.current_process ==>
            #[trigger] s1.processes@[j] == s0.processes@[j],
{
}

} // verus!
