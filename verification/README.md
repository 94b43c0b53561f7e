# goose_tasks

Background tasks for an agent: a registry that tracks every operation that runs
beside the conversation, the queue of input for the next turn, and the tools
with which a model starts, feeds, reads, lists, cancels and reaps its work.

The decisions are a Verus library (`src/`): every function carries a contract
over mathematical views, and what holds over several operations is stated and
proved as public proof functions. Processes, terminals, files, channels and the
tool protocol live in `app/`, which performs what the library decides.

| Module | What it holds |
| --- | --- |
| `tasks`, `task_laws` | the task registry, its events, its lifecycle |
| `jobs`, `job_laws` | the same for jobs |
| `turn_queue`, `task_watcher` | input for the next turn, prompts on events |
| `finished`, `steer`, `task_notification` | what happens between turns |
| `task_client`, `start_task`, `send_input`, `read_output`, `manage_tasks` | the task tools |
| `read_laws` | what reads of the output give, one after the other |
| `process_client`, `job_process` | the process tools |
| `tools`, `calls` | which tools there are, and which handler decides on a call |
| `process`, `output`, `lines` | processes, their input and their output |
| `duration`, `time`, `text` | durations, moments, texts |
| `input_thread` | the thread that prompts the user |
| `message` | messages of a conversation |
| `arguments`, `outside` | what is taken on trust from other crates |

Time never hides in a decision: each function whose result depends on the clock
has a twin, named with `_at`, that takes the moment as an argument and has an
exact contract. A registry keeps the last moment that its clock showed it, and
its moments never go back.
