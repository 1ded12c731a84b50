use robe::errors::RobeError;

#[test]
fn test_display_internal() {
    let err = RobeError::Internal("error_message".to_string());
    let result = err.render();

    assert_eq!(result, "robe: error_message");
}

#[test]
fn test_display_bad_usage() {
    let err = RobeError::BadUsage("error_message".to_string());
    let result = err.render();

    let expected = "robe: Wrong usage. error_message\nUse `robe -h` for help.";

    assert_eq!(result, expected);
}

#[test]
fn test_display_hashing() {
    let err = RobeError::Hashing("bad pair".to_string());
    let result = err.render();

    assert_eq!(
        result,
        "robe: An error occurred when hashing directory contents. bad pair"
    );
}

#[test]
fn test_message_helper() {
    let err = RobeError::message("hello".to_string());

    match err {
        RobeError::Internal(msg) => assert_eq!(msg, "hello"),
        _ => panic!("Expected Internal error"),
    }
}

#[test]
fn test_target_not_found_helper() {
    let err = RobeError::target_not_found("tmux");

    match err {
        RobeError::Internal(msg) => assert_eq!(msg, "Target tmux not found"),
        _ => panic!("Expected Internal error"),
    }
}

#[test]
fn test_from_io_error() {
    let io_err = std::io::Error::new(std::io::ErrorKind::Other, "disk exploded");

    let robe_err = RobeError::message(format!("IO error: {}", io_err));
    let msg = robe_err.render();

    assert!(msg.contains("IO error"));
    assert!(msg.contains("disk exploded"));
}
