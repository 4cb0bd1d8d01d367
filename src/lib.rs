//! Frame scheduling for a per-frame step function that runs either under a
//! process that owns its loop or under a host that calls it once per tick:
//! a monotonic clock, a frame pacer with running frame-rate statistics, the
//! two loop-driver state machines, the per-frame input rules and the text
//! format of the persisted volume setting.

pub mod clock;
pub mod console;
pub mod driver;
pub mod frame_state;
pub mod pacer;
pub mod settings;
pub mod stats;

pub use console::hide_console_window;
pub use driver::sleep;
