//! What the machine must supply: the output stream, file access, and
//! floating-point arithmetic.
//!
//! Floats travel through the evaluator as opaque 64-bit patterns; every
//! operation on them, and their rendering, is delegated here. None of these
//! methods carries a contract, so nothing in the library's proofs depends on
//! how a host behaves: the contracts of the evaluator hold for every
//! implementation.

use vstd::prelude::*;

verus! {

/// The machine-facing side of the evaluator. The embedding program
/// implements this against the real output stream, file system and float
/// unit; a test can implement it with captured output and scripted files.
pub trait Host {
    /// `print`: emit one line on the output stream.
    fn print_line(&mut self, line: &str);

    /// `read`: the contents of the file at `path`, or a failure message.
    fn read_file(&mut self, path: &str) -> Result<String, String>;

    /// `write`: store `contents` at `path`, or give a failure message.
    fn write_file(&mut self, path: &str, contents: &str) -> Result<(), String>;

    /// Float addition on bit patterns.
    fn float_add(&mut self, a: u64, b: u64) -> u64;

    /// Float subtraction on bit patterns.
    fn float_sub(&mut self, a: u64, b: u64) -> u64;

    /// Float multiplication on bit patterns.
    fn float_mul(&mut self, a: u64, b: u64) -> u64;

    /// Float division on bit patterns.
    fn float_div(&mut self, a: u64, b: u64) -> u64;

    /// Float remainder taking the sign of the divisor, as
    /// [`crate::misc::floor_mod`] does for integers.
    fn float_modulo(&mut self, a: u64, b: u64) -> u64;

    /// Float negation on a bit pattern.
    fn float_neg(&mut self, a: u64) -> u64;

    /// Float equality.
    fn float_eq(&mut self, a: u64, b: u64) -> bool;

    /// Float strict order.
    fn float_lt(&mut self, a: u64, b: u64) -> bool;

    /// Float non-strict order.
    fn float_leq(&mut self, a: u64, b: u64) -> bool;

    /// The float with the value of the given integer.
    fn float_of_int(&mut self, i: i64) -> u64;

    /// The integer a float truncates to.
    fn float_to_int(&mut self, a: u64) -> i64;

    /// The display form of a float.
    fn float_display(&mut self, a: u64) -> String;
}

} // verus!
