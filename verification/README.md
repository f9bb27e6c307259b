# nicyrtdyn

A runtime for Luau scripts that a host application loads as a dynamic library:
a `require` with a module cache, `.luaurc` aliases and cycle detection, a
scheduler of cooperative tasks, and native extensions.

- `src/` is the library, written in Verus. It holds what the runtime decides;
  the contracts say what each function does, and the laws (`law_..`) what holds
  of it as a whole.
- `app/` is the host: the Luau state, the file system, the clock and the C
  interface (`nicy_start`, `nicy_eval`, `nicy_compile`, `nicy_version`,
  `nicy_luau_version`, and `nicy_lua_..` for native
  modules).
- `tests/` runs the library.

The library asks for one thing at a time (an action) and goes on with what the
host answers (an event). Paths are texts, read by the rules of the system that
the host runs on; points in time are nanoseconds.

| Module | What it is about |
| --- | --- |
| `text`, `text_map`, `path` | text, maps keyed by text, lexical paths |
| `source`, `luaurc` | the `--!native` directive, aliases |
| `runtime_data`, `require_resolver` | what is kept for a state, where modules are looked for |
| `resolution`, `require`, `jit`, `loadlib` | `require`, `runtime.hasJIT`, `runtime.loadlib` |
| `timers`, `task_scheduler` | `task.spawn`, `delay`, `wait`, `cancel` |
| `start`, `eval`, `compile` | the entry points |
| `report`, `version`, `hires_timer`, `luau` | messages, the version of Luau, the Windows timer, constants |
| `resolution_laws`, `alias_laws`, `require_laws` | laws of `require` |
| `scheduler_laws`, `scheduler_history` | laws of the scheduler: of one turn, and of any number of steps |
