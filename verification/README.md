# goose_harness

Identity, observability and policy for harness-managed agent sessions, verified
with Verus.

A session is harness-managed when a context is discoverable: the environment
variable `GOOSE_HARNESS_CONTEXT` names a context file, or the current directory
or one of its ancestors holds `.goose-harness/session.json`. The variable comes
first; where it names no file, the walk up decides. Everything that
happens in such a session becomes a numbered event; a tool policy decides which
tools may run; a profile says how a session is provisioned.

## Layout

`src/` is the library. It does no I/O: it takes what was read and says what is
to be done.

| module       | what it holds                                                      |
|--------------|--------------------------------------------------------------------|
| `policy`     | tool policy, pattern matching, verdicts                            |
| `glob`       | glob matching and its laws                                         |
| `inspector`  | enforcement of the policy on tool requests                         |
| `events`     | event schema, and the events of a message                          |
| `message`    | messages, as far as events are derived from them                   |
| `harness`    | live state, numbering of events, taps                              |
| `context`    | identity of a session, its files, and the search for it            |
| `sink`       | which events wait for the endpoint, when they are posted           |
| `profile`    | profiles and the locked configuration                              |
| `provision`  | provisioning of a session, step by step                            |
| `git`        | what is asked of git                                               |
| `submission` | what a submission says                                             |
| `status`     | the report on the active session                                   |
| `command`    | the commands                                                       |
| `text`       | splitting, trimming and numbers on sequences of characters         |
| `json`       | JSON values of `serde_json`, and what they say                     |
| `path`       | paths of `std`, and their components                               |

What the contracts say of the components of a path holds of paths without a
prefix such as a drive; what they say of the path itself holds of every path.

The contracts speak of what strings, JSON values and paths say. Functions marked
`external_body` call `serde_json`, `chrono`, `uuid` or `std`; the comment above
each names the function that it calls and says what is believed of it.

`app/` reads and writes files, runs git and the agent, posts to the endpoint and
parses the command line. `tests/` runs the library on concrete values.
