//! Real-time control nucleus of a device with a rotary encoder, a serial
//! text console and a monochrome display: a quadrature decoder, a serial
//! line assembler, a command encoder for the SSD1362 display controller, and
//! a priority-ceiling scheduler with bounded deferred-request queues.

pub mod command;
pub mod dispatch;
pub mod encoder;
pub mod line;
pub mod queue;
pub mod sched;
pub mod serial;
