use vstd::prelude::*;

pub mod bq27441;
pub mod button;
pub mod commands;
pub mod data;
pub mod icp20100;
pub mod leds;
pub mod long_write;
pub mod power;
pub mod sampling;
pub mod services;
pub mod voc;
pub mod stcc4;

verus! {
}
