//! The computational core of Octopus OS: the `.tssm` model file format, the
//! decoding of its 2-bit ternary weights, the records that the kernel probes
//! hand to user space, and the decisions of the central loop.

pub mod header;
pub mod model;
pub mod event;
pub mod intent;
pub mod autonomy;
