use papirus::errors::{Error, ErrorKind};
use papirus::interface::PapirusDisplay;
use papirus::text::str_eq;

#[test]
fn full_update_writes_u() {
    let display = PapirusDisplay::new("./test/dev/epd");
    let request = display.full_update();
    assert_eq!(request.command, "U");
    assert_eq!(request.path, "./test/dev/epd/command");
}

#[test]
fn partial_update_writes_p() {
    let display = PapirusDisplay::new("./test/dev/epd");
    let request = display.partial_update();
    assert_eq!(request.command, "P");
    assert_eq!(request.path, "./test/dev/epd/command");
}

#[test]
fn fast_update_writes_f() {
    let display = PapirusDisplay::new("./test/dev/epd");
    let request = display.fast_update();
    assert_eq!(request.command, "F");
    assert_eq!(request.path, "./test/dev/epd/command");
}

#[test]
fn clear_writes_c() {
    let display = PapirusDisplay::new("./test/dev/epd");
    let request = display.clear();
    assert_eq!(request.command, "C");
    assert_eq!(request.path, "./test/dev/epd/command");
}

#[test]
fn write_data_contains_data_afterwards() {
    let display = PapirusDisplay::new("./test/dev/epd");
    let data = vec![1, 2, 3];
    let request = display.write_data(data);
    assert_eq!(vec![1, 2, 3], request.data);
    assert_eq!(request.path, "./test/dev/epd/BE/display");
}

#[test]
fn execute_command_targets_the_command_file() {
    let display = PapirusDisplay::new("/dev/epd");
    let request = display.execute_command("U");
    assert_eq!(request.path, "/dev/epd/command");
    assert_eq!(request.command, "U");
}

#[test]
fn read_requests_target_the_right_files() {
    let display = PapirusDisplay::new("/dev/epd");
    assert_eq!(display.get_version().path, "/dev/epd/version");
    assert_eq!(display.read_from_interface("error").path, "/dev/epd/error");
    assert_eq!(display.get_current_display().path, "/dev/epd/current");
}

#[test]
fn default_display_uses_the_conventional_mount_point() {
    let display = PapirusDisplay::default();
    assert_eq!(display.get_version().path, "/dev/epd/version");
}

#[test]
fn display_state_ok_is_ok() {
    let display = PapirusDisplay::new("/dev/epd");
    let state = display.get_display_state("Ok");
    assert_eq!(state.unwrap(), "Ok");
}

#[test]
fn display_state_unsupported_cog() {
    let display = PapirusDisplay::new("/dev/epd");
    let err = display.get_display_state("Unsupported COG").unwrap_err();
    assert!(matches!(err.kind(), ErrorKind::DisplayUnsupportedCog));
}

#[test]
fn display_state_panel_broken() {
    let display = PapirusDisplay::new("/dev/epd");
    let err = display.get_display_state("Panel broken").unwrap_err();
    assert!(matches!(err.kind(), ErrorKind::DisplayPanelBroken));
}

#[test]
fn display_state_dc_failed() {
    let display = PapirusDisplay::new("/dev/epd");
    let err = display.get_display_state("DC Failed").unwrap_err();
    assert!(matches!(err.kind(), ErrorKind::DisplayDcFailed));
}

#[test]
fn display_state_unknown() {
    let display = PapirusDisplay::new("/dev/epd");
    let err = display.get_display_state("Unknown").unwrap_err();
    assert!(matches!(err.kind(), ErrorKind::DisplayUnknown));
}

#[test]
fn display_state_unexpected_carries_the_state() {
    let display = PapirusDisplay::new("/dev/epd");
    let err = display.get_display_state("Flux capacitor").unwrap_err();
    match err.kind() {
        ErrorKind::UnexpectedError(state) => assert_eq!(state, "Flux capacitor"),
        other => panic!("wrong kind: {:?}", other),
    }
}

#[test]
fn error_messages_name_the_failure() {
    assert_eq!(
        Error::new(ErrorKind::DisplayUnsupportedCog).message(),
        "You are using an unsupported chip on glass"
    );
    assert_eq!(
        Error::new(ErrorKind::DisplayPanelBroken).message(),
        "Your panel is broken, please replace it"
    );
    assert_eq!(
        Error::new(ErrorKind::DisplayDcFailed).message(),
        "Voltage to low, check if the power supply is working properly and fit for the screen"
    );
    assert_eq!(
        Error::new(ErrorKind::DisplayUnknown).message(),
        "An unkown error has occured with the Display"
    );
    assert_eq!(
        Error::new(ErrorKind::UnexpectedError("boom".to_string())).message(),
        "An unexpected error has occured: boom"
    );
}

#[test]
fn str_eq_compares_contents() {
    assert!(str_eq("Ok", "Ok"));
    assert!(!str_eq("Ok", "ok"));
    assert!(!str_eq("Ok", "Okay"));
    assert!(str_eq("", ""));
}
