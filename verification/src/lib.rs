//! Lap timing for Assetto Corsa Competizione telemetry: decoding of the
//! shared-memory codes and strings, lap and sector detection from successive
//! telemetry samples, and the session recording with its statistics.

pub mod shared_memory;
pub mod lap_time;
pub mod clock;
pub mod lap_recorder;
pub mod json_export;
