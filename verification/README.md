# vsched

A portable task scheduler for kernels that share it with user processes:
per-priority ready queues ordered by a bitmap, per-CPU trap wait queues
served by trap handler tasks, outside event sources reached through a table
of functions, a global process table, and pools of stacks.

Every function in `src/` is verified with Verus, except the trusted
wrappers in `collections.rs`, whose contracts restate what `heapless`
documents and are not proved. The OS is reached through the `TaskHost` and
`Stack` traits; of what they return nothing is assumed, but that a trap
handler made by `TaskHost::new_handler` serves the queue it was made for.

Each step decides and the OS acts: the states to give tasks, the process
number to give a trap handler, the task to free and the stacks to switch
to are returned as plain values, and the `app/` layer hands them on.

- `schedule/` — the ready queue, the trap wait queue, event sources, the
  process table and the scheduler that takes the next task from the source
  of highest priority.
- `stack/` — stack pools: one for stack wrappers, and the pool with per-CPU
  current and trap stacks used by the scheduling loop.
- `main_loop.rs` — the decisions of the scheduling loop on plain values.
- `current.rs` — the state shared by all CPUs and address spaces, and each
  step of the scheduling loop (trap entry, thread and coroutine exit,
  kernel and user scheduling, running a task, initialisation) on it.
- `collections.rs` — the fixed-capacity `heapless` collections behind
  trusted wrappers.

`app/` binds the library to an OS through `extern "C"` entry points: it
keeps the state behind a lock, asks the OS what only the OS knows, and
performs the switches of stack, address space and privilege the library
decides on.
