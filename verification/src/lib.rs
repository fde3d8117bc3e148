//! RPM shift-light logic for MOZA wheel LEDs driven by Madness-engine
//! (Automobilista 2 / Project CARS 2) UDP telemetry.
pub mod config;
pub mod device;
pub mod led;
pub mod madness;
pub mod shift_light;
pub mod listeners;
pub mod telemetry;
