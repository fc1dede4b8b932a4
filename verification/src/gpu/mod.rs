//! The guest GPU: PM4 command buffers and the register state they set.
pub mod command_processor;
pub mod pm4;
pub mod regs;
