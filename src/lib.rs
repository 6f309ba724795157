//! Access to process environment variables behind a small capability, so that
//! code which reads or changes the environment can be handed an isolated,
//! in-memory environment instead of the real one.
//!
//! Names and values are byte strings, as the operating system stores them;
//! reading a value as text checks that its bytes are well-formed UTF-8.

mod environment;
mod fake;
mod laws;
mod text;

pub use text::{is_valid_key, is_valid_value, raw_view, reading_of, text_value, var_view, VarError, VarReading};
pub use environment::{Environment, ProcessVars, RealEnvironment};
pub use fake::{lookup, FakeEnvironment, Vars};
pub use laws::{new_environment_is_empty, remove_unset_is_noop, second_set_wins, set_non_text_then_read, set_text_then_read, set_then_remove, unset_reads_not_present};
