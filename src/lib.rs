//! Receive side of an optical data channel: a camera watches two screen
//! regions, and each frame is sampled, smoothed, classified into a symbol,
//! debounced, and latched into bits on clock edges; bits are packed into bytes.

pub mod frame;
pub mod sampler;
pub mod util;
pub mod symbol;
pub mod edge;
pub mod assembler;
pub mod decode;
pub mod in_;
pub mod channel;
