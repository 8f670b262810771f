//! A cycle-stepped model of Tomasulo's dynamic instruction scheduling.
//!
//! Instructions are issued in program order into reservation stations, wait
//! there for their operands under the tags of the slots that produce them,
//! execute with the latency of their unit, and publish their results one per
//! cycle over a single bus. `comp::Tomasulo` is the machine as a whole;
//! `comp::laws` states what holds of every cycle.

pub mod comp;
