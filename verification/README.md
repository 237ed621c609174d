# os_kernel

The verified core of a small RISC-V batch kernel that runs up to four
applications in round-robin order.

- `src/task/model.rs`: the task manager as a mathematical value, the
  scheduler's transitions on it, and the laws they keep (round-robin choice,
  a single running task, exited tasks stay exited, well-formedness).
- `src/task/task.rs`: task contexts, control blocks and the task manager,
  whose operations are proved against the model.
- `src/task/loader.rs`: where each application is loaded and what loading it
  copies; application slots never overlap.
- `src/timer`, `src/syscall`: tick/millisecond arithmetic, timer deadlines and
  the system calls that act on the task manager.
- `src/user.rs`: the user library's clock conversion and sleep decision.
- `app/`: the machine-facing parts (control registers, firmware calls, raw
  memory, `__switch`), which carry out what the library decides.
