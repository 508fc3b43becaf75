# scheduler_edf_rs

An earliest-deadline-first (EDF) scheduler for the RP2040, as a verified
library and a thin firmware around it.

- `src/scheduler/scheduler.rs`: the process table, the initial stack frames,
  process creation, the EDF decision and the end of a job, with their
  contracts and the laws of the scheduler (uniqueness and stability of the
  decision, renewal of periodic jobs, admission of new processes).
- `src/scheduler.rs`: a simpler table, with the same process creation, whose decision only
  alternates between two slots.
- `src/timer/timer.rs`: the alarm period and the millisecond counter.
- `src/tasks.rs`: the parameters of the three demonstration tasks.
- `tests/`: scenarios run against the library.
- `app/`: the firmware: hardware set-up, interrupts, critical sections,
  logging, breakpoints and the demonstration tasks.
