//! Verified core of a GDB remote stub for the PS Vita kernel: the ARMv7
//! next-instruction predictor used for single stepping, the GDB register
//! file codec, the debug session bookkeeping and the small parsers and
//! buffers around them.

pub mod insn;
pub mod next_pc;
pub mod armv7;
pub mod mpsc;
pub mod session;
pub mod utils;
pub mod target;
pub mod registers;
pub mod handlers;
pub mod monitor;
pub mod tcpconn;
