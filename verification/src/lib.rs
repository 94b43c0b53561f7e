//! Background task tracking for an agent: registries of tasks and jobs, the
//! queue of input for the next turn, and the decisions behind the tools that
//! start, feed, read, list and cancel background work.
pub mod arguments;
pub mod calls;
pub mod client_promises;
pub mod duration;
pub mod duration_laws;
pub mod finished;
pub mod input_laws;
pub mod input_thread;
pub mod job_client_laws;
pub mod job_client_promises;
pub mod job_laws;
pub mod job_process;
pub mod job_promises;
pub mod job_registry_laws;
pub mod jobs;
pub mod line_laws;
pub mod lines;
pub mod manage_laws;
pub mod manage_tasks;
pub mod message;
pub mod output;
pub mod output_laws;
pub mod outside;
pub mod process;
pub mod process_client;
pub mod range_laws;
pub mod read_laws;
pub mod read_output;
pub mod registry_laws;
pub mod send_input;
pub mod send_laws;
pub mod showing;
pub mod start_laws;
pub mod start_task;
pub mod steer;
pub mod table_promises;
pub mod task_client;
pub mod task_laws;
pub mod task_notification;
pub mod task_promises;
pub mod task_watcher;
pub mod tasks;
pub mod tell_laws;
pub mod tell_promises;
pub mod text;
pub mod text_laws;
pub mod time;
pub mod time_laws;
pub mod tool_laws;
pub mod tools;
pub mod turn_queue;
pub mod view_laws;
