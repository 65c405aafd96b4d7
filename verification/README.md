# claw

A personal AI assistant daemon: chats arrive over a web page or by SMS, are routed
to agents, run one at a time, and the answers are delivered back.

The logic is a library verified with Verus. It computes on plain values and states
in `requires` and `ensures` what each function does; whatever touches the disk, the
network, a child process or the clock is done by the program around it.

    src/            the verified library
      text, json    texts as sequences of characters, JSON values
      time, cron    instants and schedules
      protocol/     identifiers, stored enums, message contents, frames
      db/           rows, row identifiers, the versions of the schema
      config, app, circuit_breaker, recovery, logs, activity
                    start-up, crash guard, retries, log ring, activity board
      engage, router, delivery, channels/
                    who wakes on a message, where it goes, how it gets back
      runs/         the queue of sessions, prompts, one session's run
      commands/     admin commands, their gates and their answers
      cli_client, cli_server
                    the command line and its socket, line by line
      providers/    the echo, native and pi agents
      mcp/          the conversation with a tool server
    tests/          tests of the library
    app/            the daemon: SQLite, HTTP, sockets, processes, tasks

Decisions that alternate with outside work are state machines: the library says what
to do next (`action`, a plan, a step), the program does it and hands back what came
of it. Outside crates that only compute are called from the library behind small
trusted functions, each with a comment that says what is taken on trust: `serde_json`
in `json`, `jiff` in `time`, `ulid` in `db`, and a few functions of the standard
library in `text`.
