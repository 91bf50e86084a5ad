use dynamic_reload::Error;

#[test]
fn error_descriptions() {
    assert_eq!(Error::Load("bad".to_string()).description(), "Unable to load library");
    assert_eq!(
        Error::Copy("denied".to_string(), "a".to_string(), "b".to_string()).description(),
        "Unable to copy"
    );
    assert_eq!(
        Error::CopyTimeOut("a".to_string(), "b".to_string()).description(),
        "Unable to copy due to time out"
    );
    assert_eq!(Error::Find("x".to_string()).description(), "Unable to find");
}

#[test]
fn error_causes() {
    let load = Error::Load("bad elf".to_string());
    assert_eq!(load.cause().map(|c| c.as_str()), Some("bad elf"));
    let copy = Error::Copy("denied".to_string(), "a".to_string(), "b".to_string());
    assert_eq!(copy.cause().map(|c| c.as_str()), Some("denied"));
    assert!(Error::CopyTimeOut("a".to_string(), "b".to_string()).cause().is_none());
    assert!(Error::Find("x".to_string()).cause().is_none());
}

#[test]
fn error_messages() {
    assert_eq!(
        Error::Load("bad elf".to_string()).to_string(),
        "Unable to load library bad elf\nDue to: \"bad elf\""
    );
    assert_eq!(
        Error::Copy("denied".to_string(), "src/lib.so".to_string(), "tmp/1_lib.so".to_string())
            .to_string(),
        "Unable to copy \"src/lib.so\" to \"tmp/1_lib.so\"\ndenied\nDue to: \"denied\""
    );
    assert_eq!(
        Error::CopyTimeOut("a".to_string(), "b".to_string()).to_string(),
        "Unable to copy due to time out \"a\" to \"b\""
    );
    assert_eq!(
        Error::Find("wont_find_this_lib".to_string()).to_string(),
        "Unable to find wont_find_this_lib"
    );
}

#[test]
fn error_message_paths_are_escaped() {
    assert_eq!(
        Error::CopyTimeOut("dir\\with \"quote\"".to_string(), "b".to_string()).to_string(),
        "Unable to copy due to time out \"dir\\\\with \\\"quote\\\"\" to \"b\""
    );
}
