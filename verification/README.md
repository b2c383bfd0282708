# egg

A dev environment process manager for Laravel applications: supervisor
processes and cron jobs are declared in one `.eggrc.toml` file, started with
`egg up`, inspected with `egg status` and exported for production as
Supervisor programs, Systemd services and timers, or a crontab.

The library under `src/` is verified with Verus:

- `config` — the configuration tables, their defaults, the enabled entries
  and the expansion of `{VAR}` placeholders in commands;
- `export` — the exact text of every generated Supervisor, Systemd and
  crontab file, and the list of files an export writes;
- `cron` — the scheduler state: registration, due jobs, finished runs;
- `process` — instance names, command splitting, instance records, the
  automatic-restart decision and the table of started processes;
- `status` — readable cron schedules, the rows of the status tables, what
  `up` starts, what `validate` flags and what `init` writes;
- `table` — a name-keyed table with map semantics;
- `text` — the string operations the above rely on, each proved against a
  specification over `Seq<char>`.

`app/` is the program around it: command-line parsing, reading and
parsing `.eggrc.toml`, spawning and stopping processes, the cron loop,
writing exported files and printing tables.
