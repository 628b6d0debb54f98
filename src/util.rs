use vstd::prelude::*;

verus! {

/// Error of a numeric conversion that cannot represent its input.
#[derive(Clone, Copy, Debug, PartialEq, Eq, Structural)]
pub enum ConversionError {
    OutOfRange,
}

/// The largest value of `i64`, as a mathematical integer.
pub open spec fn i64_max() -> int {
    0x7fff_ffff_ffff_ffff
}

/// `v` limited to the range of `i64` from above (the inputs here are never negative).
pub open spec fn saturate_i64(v: int) -> int {
    if v > i64_max() {
        i64_max()
    } else {
        v
    }
}

/// Conversion of unsigned integers to `i64`.
pub trait ToI64: Sized {
    /// The converted value as a mathematical integer.
    spec fn int_value(self) -> int;

    /// Converts to `i64`, using `i64::MAX` for a value beyond its range.
    fn to_i64(self) -> (r: i64)
        ensures
            r as int == saturate_i64(self.int_value()),
    ;

    /// Converts to `i64`, failing with `OutOfRange` for a value beyond its range.
    fn try_to_i64(self) -> (r: Result<i64, ConversionError>)
        ensures
            self.int_value() <= i64_max() ==> r == Ok::<i64, ConversionError>(
                self.int_value() as i64,
            ),
            self.int_value() > i64_max() ==> r == Err::<i64, ConversionError>(
                ConversionError::OutOfRange,
            ),
    ;
}

impl ToI64 for usize {
    open spec fn int_value(self) -> int {
        self as int
    }

    fn to_i64(self) -> (r: i64) {
        if self as u64 > 0x7fff_ffff_ffff_ffffu64 {
            0x7fff_ffff_ffff_ffffi64
        } else {
            self as i64
        }
    }

    fn try_to_i64(self) -> (r: Result<i64, ConversionError>) {
        if self as u64 > 0x7fff_ffff_ffff_ffffu64 {
            Err(ConversionError::OutOfRange)
        } else {
            Ok(self as i64)
        }
    }
}

impl ToI64 for u64 {
    open spec fn int_value(self) -> int {
        self as int
    }

    fn to_i64(self) -> (r: i64) {
        if self > 0x7fff_ffff_ffff_ffffu64 {
            0x7fff_ffff_ffff_ffffi64
        } else {
            self as i64
        }
    }

    fn try_to_i64(self) -> (r: Result<i64, ConversionError>) {
        if self > 0x7fff_ffff_ffff_ffffu64 {
            Err(ConversionError::OutOfRange)
        } else {
            Ok(self as i64)
        }
    }
}

/// The arguments handed to `pwsh.exe` when it runs a hook in the background:
/// non-interactive, with the `RemoteSigned` execution policy, then the command.
pub fn pwsh_args(command: &str) -> (r: Vec<&str>)
    ensures
        r@.len() == 5,
        r@[0]@ == "-NonInteractive"@,
        r@[1]@ == "-ExecutionPolicy"@,
        r@[2]@ == "RemoteSigned"@,
        r@[3]@ == "-Command"@,
        r@[4] == command,
{
    vec!["-NonInteractive", "-ExecutionPolicy", "RemoteSigned", "-Command", command]
}

} // verus!
