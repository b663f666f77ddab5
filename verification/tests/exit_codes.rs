use jormungandr_voting::exit_codes::ApplicationExitCode;

#[test]
fn from_i32_knows_the_four_codes() {
    assert_eq!(
        ApplicationExitCode::from_i32(10),
        Some(ApplicationExitCode::WriteSettingsError)
    );
    assert_eq!(
        ApplicationExitCode::from_i32(11),
        Some(ApplicationExitCode::LoadSettingsError)
    );
    assert_eq!(
        ApplicationExitCode::from_i32(12),
        Some(ApplicationExitCode::DBConnectionError)
    );
    assert_eq!(
        ApplicationExitCode::from_i32(13),
        Some(ApplicationExitCode::LoadBlock0Error)
    );
}

#[test]
fn from_i32_refuses_other_numbers() {
    for n in [i32::MIN, -13, -1, 0, 1, 9, 14, 100, i32::MAX] {
        assert_eq!(ApplicationExitCode::from_i32(n), None);
    }
}

#[test]
fn code_and_from_i32_are_inverse() {
    for n in 10..=13 {
        let reason = ApplicationExitCode::from_i32(n).expect("a known code");
        assert_eq!(reason.code(), n);
    }
    assert_eq!(ApplicationExitCode::WriteSettingsError.code(), 10);
    assert_eq!(ApplicationExitCode::LoadBlock0Error.code(), 13);
}
