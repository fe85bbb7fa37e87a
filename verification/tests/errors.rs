use pomodoro::error::{
    CodecError, NotificationError, ParseError, StoreError, UdsHandlerError, UserInputHandlerError,
};

#[test]
fn parse_error_keeps_its_message() {
    let e = ParseError::new(String::from("unknown subcommand"));
    assert_eq!(e.get_message(), &Some(String::from("unknown subcommand")));
    assert_eq!(e.describe(), "error occurred while parsing: unknown subcommand");
}

#[test]
fn store_errors_convert_into_handler_errors() {
    let e = UserInputHandlerError::from(StoreError::Backend);
    assert_eq!(e, UserInputHandlerError::SledError(StoreError::Backend));
}

#[test]
fn error_lines_are_single_and_descriptive() {
    assert_eq!(
        NotificationError::EmptyTimeValues.describe(),
        "Cannot create a notification with 0 work time and 0 break time"
    );
    assert_eq!(
        NotificationError::NewNotification(ParseError::new(String::from("bad flag"))).describe(),
        "failed to get new notification: error occurred while parsing: bad flag"
    );
    assert_eq!(CodecError::Malformed.describe(), "failed to decode message");
    assert_eq!(
        UdsHandlerError::DecodeFailed(CodecError::Malformed).describe(),
        "failed to decode message"
    );
    assert_eq!(
        UserInputHandlerError::SledError(StoreError::Corrupt).describe(),
        "a stored record is corrupt"
    );
    assert_eq!(
        UserInputHandlerError::NoSubcommand.describe(),
        "subcommand is not present at runtime"
    );
}
