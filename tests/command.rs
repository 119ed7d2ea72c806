use elba_bot::{parse_command, Command, Error};

#[test]
fn test_parse_command() {
    let cases = vec![
        ("@na", None),
        ("@", None),
        (
            "@name /publish abc.xyz/zz.git",
            Some(Command::Publish {
                git: "abc.xyz/zz.git".to_owned(),
                refname: None,
            }),
        ),
        (
            "@name  /publish abc",
            Some(Command::Publish {
                git: "abc".to_owned(),
                refname: None,
            }),
        ),
        (
            "@name /publish abc.xyz/zz.git master",
            Some(Command::Publish {
                git: "abc.xyz/zz.git".to_owned(),
                refname: Some("master".to_owned()),
            }),
        ),
        (
            "@name /publish abc.xyz/zz.git master more",
            Some(Command::Publish {
                git: "abc.xyz/zz.git".to_owned(),
                refname: Some("master".to_owned()),
            }),
        ),
    ];

    for (text, expected) in cases {
        assert_eq!(parse_command(text, "name").unwrap(), expected);
    }
}

#[test]
fn test_parse_command_fail() {
    let cases = vec![
        "@name / publish abc",
        "@name /publis abc",
        "@name / abc",
        "@name/publish abc.xyz/zz.git",
    ];

    for text in cases {
        assert!(parse_command(text, "name").is_err());
    }
}

#[test]
fn comment_without_mention_holds_no_command() {
    for text in ["", "hello world", "/publish abc", "  @other /publish abc", "x @name /publish abc"] {
        assert_eq!(parse_command(text, "name"), Ok(None));
    }
}

#[test]
fn leading_whitespace_and_tabs_are_accepted() {
    assert_eq!(
        parse_command(" \n\t@name\t/publish\r\nsrc.git\tv1", "name"),
        Ok(Some(Command::Publish { git: "src.git".to_owned(), refname: Some("v1".to_owned()) }))
    );
}

#[test]
fn malformed_command_error_variant() {
    assert_eq!(parse_command("@name /publish", "name"), Err(Error::MalformedCommand));
    assert_eq!(parse_command("@namex /publish abc", "name"), Err(Error::MalformedCommand));
    assert_eq!(Command::from_str("@name /publis abc", "name"), Err(Error::MalformedCommand));
}

#[test]
fn trailing_spaces_give_no_ref() {
    assert_eq!(
        parse_command("@name /publish abc   ", "name"),
        Ok(Some(Command::Publish { git: "abc".to_owned(), refname: None }))
    );
}

#[test]
fn non_ascii_text_is_kept_whole() {
    assert_eq!(
        Command::from_str("@böt /publish ünï.git träg", "böt"),
        Ok(Some(Command::Publish { git: "ünï.git".to_owned(), refname: Some("träg".to_owned()) }))
    );
}
