//! Subagents of a chat assistant: whether a call of the `Task` tool starts one, and how
//! it then works through its task, turn by turn, until it reports back.
//!
//! The library decides; it does no input or output. [`spawn::EventLoop`] answers a call
//! of the tool, and [`run::Run`] is a state machine that asks its driver for one action
//! at a time. [`laws`] states what holds of whole runs, [`turn_laws`] what a run says and
//! asks for, told from the events alone, [`call_laws`] what the arguments of a call come to,
//! [`report_laws`] what the model and the user are told, and [`view_laws`] what the models
//! of values hold.

pub mod call_laws;
pub mod chat;
pub mod command;
pub mod json;
pub mod laws;
pub mod protocol;
pub mod report;
pub mod report_laws;
pub mod run;
pub mod spawn;
pub mod task;
pub mod text;
pub mod todo;
pub mod turn_laws;
pub mod view_laws;
