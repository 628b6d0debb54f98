use bldr::util::{pwsh_args, ConversionError, ToI64};

#[test]
fn conversion_of_usize_to_i64() {
    let just_right: usize = 42;
    let zero: usize = 0;

    assert_eq!(just_right.to_i64(), 42);
    assert_eq!(zero.to_i64(), 0);
}

#[test]
fn conversion_of_too_big_usize_caps_in_release_mode() {
    let too_big = usize::max_value();
    assert_eq!(too_big.to_i64(), i64::max_value());
}

#[test]
fn conversion_of_u64_to_i64() {
    let just_right: u64 = 42;
    let zero: u64 = 0;

    assert_eq!(just_right.to_i64(), 42);
    assert_eq!(zero.to_i64(), 0);
}

#[test]
fn conversion_of_too_big_u64_caps_in_release_mode() {
    let too_big = u64::max_value();
    assert_eq!(too_big.to_i64(), i64::max_value());
}

#[test]
fn fallible_conversion_reports_out_of_range() {
    assert_eq!(u64::max_value().try_to_i64(), Err(ConversionError::OutOfRange));
    assert_eq!(usize::max_value().try_to_i64(), Err(ConversionError::OutOfRange));
    assert_eq!((i64::max_value() as u64).try_to_i64(), Ok(i64::max_value()));
    assert_eq!((i64::max_value() as u64 + 1).to_i64(), i64::max_value());
    assert_eq!(42usize.try_to_i64(), Ok(42));
}

#[test]
fn pwsh_arguments_end_with_the_command() {
    let args = pwsh_args("Write-Host hi");
    assert_eq!(
        args,
        vec!["-NonInteractive", "-ExecutionPolicy", "RemoteSigned", "-Command", "Write-Host hi"]
    );
}
