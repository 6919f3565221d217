//! Persistent environment variables.
//!
//! A variable that is set here outlives the process: it is written to the
//! per-user registry key on Windows, or as an `export` line to the startup
//! file of the user's shell (`.zshenv` or `.bashrc`) elsewhere, and mirrored
//! into the environment of the running process.
//!
//! The crate holds the decisions of the two operations and proves them; it
//! touches neither files, nor the registry, nor the process environment. An
//! [`Operation`] names one [`Action`] at a time, the caller performs it and
//! reports the outcome as an [`Event`]:
//!
//! ```text
//! let mut op = set_var(Backend::Profile, "EDITOR", "vi");
//! loop {
//!     let event = match &op.pending {
//!         Action::Finish(result) => return *result,
//!         action => perform(action),
//!     };
//!     op = op.step(event);
//! }
//! ```
//!
//! * [`operation`] holds the operations and their steps,
//! * [`profile`] the choice of the startup file,
//! * [`text`] the `export` lines of such a file,
//! * [`laws`] what holds of a file's text across operations,
//! * [`host`] what holds of a whole machine across operations.
//!
//! An operation reads a file and writes it back later, and nothing locks the
//! file or the registry key in between: of two processes that change the same
//! store at once, one may lose its change.

pub mod error;
pub mod host;
pub mod laws;
pub mod operation;
pub mod profile;
pub mod text;

pub use error::EnvError;
pub use operation::{set_var, unset_var, Action, Backend, Event, Operation};
