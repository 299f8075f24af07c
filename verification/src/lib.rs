//! Formatting and layout of a live system dashboard.
//!
//! The library turns a [`Snapshot`] of host metrics into the text of one
//! frame of the dashboard: a banner, then blocks for system, processor,
//! memory, swap, disks, network and the busiest processes. It reads no
//! clock, no file and no terminal; whoever drives it samples the host, writes
//! what [`cycle::refresh`] returns, and sleeps.
//!
//! Every quantity is an integer. Loads are thousandths of a percent, ratios
//! are compared by cross-multiplication, and what is shown with places after
//! the point is rounded once, to the nearest, ties to even. Every contract
//! states the exact text that comes out.
//!
//! - [`text`], [`rounding`]: decimal notation, alignment, rounded quotients.
//! - [`bytes`]: byte counts in binary units ([`format_bytes`]).
//! - [`gauge`]: utilisation bars and percentages ([`bar`]).
//! - [`snapshot`]: the metrics of one point in time.
//! - [`ranking`]: the processes with the highest load.
//! - [`sections`], [`frame`]: the blocks and the whole frame ([`render`]).
//! - [`cycle`]: the steps of the refresh cycle.

pub mod bytes;
pub mod cycle;
pub mod frame;
pub mod gauge;
pub mod ranking;
pub mod rounding;
pub mod sections;
pub mod snapshot;
pub mod text;

pub use bytes::format_bytes;
pub use frame::{render, try_render};
pub use gauge::bar;
pub use snapshot::{Cpu, Disk, Interface, Process, Snapshot};
