//! The data side of a desktop telemetry dashboard: bounded rolling buffers of
//! samples, per-metric graph state with its sampling cadence, the sampler's
//! tick decisions, a lock-protected handle shared by sampler and display, and
//! the parsing and formatting of what the host reports.
//!
//! Samples, rates and scales are fixed-point values in hundredths; times are
//! nanoseconds on a monotonic clock.
pub mod rolling;
pub mod graph;
pub mod text;
pub mod lines;
pub mod fan;
pub mod memories;
pub mod systems;
pub mod network;
pub mod shared;

pub use rolling::{RollingBuffer, min_max_of};
pub use graph::{
    GraphData, ProbeError, TickOutcome, chart_bounds, clamp_rate, clamp_y_scale, interval_for_rate,
};
pub use text::{format_centi, overlay_text};
pub use fan::{FanInfo, fan_reading, package_sensor_index, parse_fan_line, parse_sensors_output};
pub use memories::{Disk, Memory, MemoryReadings, Ram, Swap, convert_bytes_to_any};
pub use systems::{Computer, get_os_info};
pub use network::{
    BarColor, Interface, InterfaceAddress, InterfaceCounters, Network, RxStats, TxStats, bar_color,
    bar_fill_permille,
};
pub use shared::{SharedGraph, adjust_intervals};
