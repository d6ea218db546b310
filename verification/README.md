# box-run

Runs one command inside a lightweight sandbox that `bubblewrap` sets up on Linux.

The library in `src/` makes every decision of the program and is verified with Verus. It does
nothing on the host itself. A decision is made from what is known about the host
(`host::HostFacts`). Where something is missing, the decision halts with a `host::Query`. The
program in `app/` puts the query to the host, records the answer, and asks again.

- `cli`, `config`, `policy_input`: what is asked for, on the command line and in a file.
- `mounts`, `env_plan`, `landlock_plan`, `policy`: the sandbox that comes of it.
- `bwrap`, `launch`, `linux`: how the sandbox is set up, and what the process inside it does.
- `landlock_support`: what is asked of Landlock.
- `platform`, `program`: the program as a whole.
- `host`: the queries and the answers.
- `error`: what can go wrong, and how it is told.
- `unix_path`, `byte_string`, `text`, `order`, `placed`, `env_map`, `copies`: what the rest is made
  of.

What holds of the library as a whole is stated and proved in modules of its own:

- `settling`: asking step by step comes to the same as knowing everything from the start.
- `guarantees`: what holds of every policy.
- `bwrap_steps`: the arguments of `bwrap` and of the helper are read as they were meant.
- `bwrap_effects`: what these arguments amount to.
