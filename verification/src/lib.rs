//! Scheduling, licensing and duration logic of the Aquerty Stop power timer.

pub mod conditions;
pub mod duration;
pub mod i18n;
pub mod license;
pub mod names;
pub mod power;
pub mod schedule;
pub mod settings;
pub mod text;
pub mod tick;
