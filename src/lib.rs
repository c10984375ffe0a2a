//! Test execution orchestration for hardware validation benches.
//!
//! - `classify`: directive markers, run mode selection, instruction kinds.
//! - `dispatch`: the instruction dispatcher, a state machine that hands the
//!   bench one action at a time and takes back what came of it.
//! - `command`: programs and arguments built from instruction lines, and the
//!   judgement of how a run ended.
//! - `timed`: the timed event scheduler.
//! - `capture`: the packet capture session lifecycle and adapter choice.
//! - `dhcp`: the minimal DHCP lease server's decisions.
//! - `reports`: test selection and grouping, report and dump invocations.
//! - `integrity`: hash headers of instruction files and script checks.
//! - `text`: character-level parsing primitives.
pub mod capture;
pub mod classify;
pub mod command;
pub mod dhcp;
pub mod dispatch;
pub mod integrity;
pub mod reports;
pub mod text;
pub mod timed;
