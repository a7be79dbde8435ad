//! Bit-level core of the fast inverse square root.
//!
//! The routine estimates `1/sqrt(x)` for an IEEE-754 single-precision number
//! without a division or a square root: it reads the number's 32 bits as an
//! unsigned integer, subtracts half of that integer from a fixed constant,
//! and reads the difference as a number again. This crate holds that integer
//! step, a model of what a bit pattern denotes, and the proof that the
//! estimate is within 3.44% of the true value for every positive normal input.
//!
//! Everything here works on bit patterns (`u32`). Turning a number into its
//! bits and back, and the arithmetic that refines the estimate, belong to the
//! caller.
pub mod accuracy;
pub mod seed;
pub mod single;
