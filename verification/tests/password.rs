use zerofs::cli::password::{
    change_password, check_passwords, environment_variables, prefixed_variable, prepare_change,
    validate_password, ChangeStep, PasswordError, Settings, StorageSettings,
};

fn settings(url: &str, password: &str) -> Settings {
    Settings {
        storage: StorageSettings {
            url: url.to_string(),
            encryption_password: password.to_string(),
        },
        aws: None,
        azure: None,
    }
}

fn pair(name: &str, value: &str) -> (String, String) {
    (name.to_string(), value.to_string())
}

#[test]
fn test_validate_password() {
    assert!(validate_password("").is_err());
    assert!(validate_password("short").is_err());
    assert!(validate_password("CHANGEME").is_err());
    assert!(validate_password("goodpassword123").is_ok());
}

#[test]
fn each_bad_password_gets_its_own_error() {
    assert!(matches!(validate_password(""), Err(PasswordError::EmptyPassword)));
    assert!(matches!(validate_password("1234567"), Err(PasswordError::TooShort)));
    assert!(matches!(validate_password("CHANGEME"), Err(PasswordError::DefaultPassword)));
    assert!(validate_password("12345678").is_ok());
    assert!(validate_password("changeme").is_ok());
}

#[test]
fn password_length_is_counted_in_characters() {
    assert!(matches!(validate_password("éééé"), Err(PasswordError::TooShort)));
    assert!(matches!(validate_password("ééééééé"), Err(PasswordError::TooShort)));
    assert!(validate_password("éééééééé").is_ok());
}

#[test]
fn messages() {
    assert_eq!(PasswordError::EmptyPassword.message(), "Password cannot be empty");
    assert_eq!(
        PasswordError::TooShort.message(),
        "Password must be at least 8 characters long"
    );
    assert_eq!(
        PasswordError::DefaultPassword.message(),
        "Please choose a secure password, not 'CHANGEME'"
    );
    assert_eq!(
        PasswordError::CurrentPasswordIsDefault.message(),
        "Current password is still the default. Please update your config file first"
    );
    assert_eq!(
        PasswordError::EncryptionError("bad tag".to_string()).message(),
        "Failed to change encryption password: bad tag"
    );
    assert_eq!(PasswordError::Other("no route".to_string()).message(), "no route");
}

#[test]
fn change_is_refused_in_order() {
    let refused = change_password(&settings("not a url", "CHANGEME"), "");
    assert!(matches!(refused, Err(PasswordError::CurrentPasswordIsDefault)));
    let refused = change_password(&settings("not a url", "current"), "");
    assert!(matches!(refused, Err(PasswordError::EmptyPassword)));
    let refused = change_password(&settings("not a url", "current"), "CHANGEME");
    assert!(matches!(refused, Err(PasswordError::DefaultPassword)));
    match change_password(&settings("not a url", "current"), "goodpassword123") {
        Err(PasswordError::Other(text)) => assert_eq!(text, "relative URL without a base"),
        _ => panic!("the URL should be refused"),
    }
}

#[test]
fn accepted_change_starts_with_the_store() {
    let change = change_password(&settings("S3://Bucket/a b", "current"), "goodpassword123");
    match change {
        Ok(change) => {
            assert_eq!(change.url, "s3://Bucket/a%20b");
            assert!(change.env_vars.is_empty());
            assert_eq!(change.current_password, "current");
            assert_eq!(change.new_password, "goodpassword123");
            assert_eq!(change.step, ChangeStep::OpenStore);
        }
        Err(_) => panic!("the change should be accepted"),
    }
}

#[test]
fn prepared_change_takes_the_url_as_read() {
    let s = settings("ignored", "current");
    match prepare_change(&s, "goodpassword123", Err("broken".to_string())) {
        Err(PasswordError::Other(text)) => assert_eq!(text, "broken"),
        _ => panic!("the URL should be refused"),
    }
    match prepare_change(&s, "goodpassword123", Ok("file:///data".to_string())) {
        Ok(change) => {
            assert_eq!(change.url, "file:///data");
            assert_eq!(change.current_password, "current");
            assert_eq!(change.new_password, "goodpassword123");
        }
        Err(_) => panic!("the change should be accepted"),
    }
}

#[test]
fn passwords_are_checked_together() {
    let s = settings("ignored", "CHANGEME");
    let refused = check_passwords(&s, "goodpassword123");
    assert!(matches!(refused, Err(PasswordError::CurrentPasswordIsDefault)));
    let s = settings("ignored", "current");
    assert!(matches!(check_passwords(&s, "short"), Err(PasswordError::TooShort)));
    assert!(check_passwords(&s, "goodpassword123").is_ok());
}

#[test]
fn variables_are_prefixed_and_lowercased() {
    let mut s = settings("memory:///", "current");
    s.aws = Some(vec![pair("Access_Key_ID", "KEY"), pair("REGION", "eu-West-1")]);
    s.azure = Some(vec![pair("StraßeÉ", "Value")]);
    assert_eq!(
        environment_variables(&s),
        vec![
            pair("aws_access_key_id", "KEY"),
            pair("aws_region", "eu-West-1"),
            pair("azure_straßeé", "Value"),
        ]
    );
    s.aws = None;
    assert_eq!(environment_variables(&s), vec![pair("azure_straßeé", "Value")]);
    assert_eq!(prefixed_variable("aws_", "token", "T"), pair("aws_token", "T"));
}

#[test]
fn steps_follow_each_other() {
    let s = settings("memory:///", "current");
    let mut change = change_password(&s, "goodpassword123").unwrap();
    let order = [
        ChangeStep::OpenStore,
        ChangeStep::OpenDatabase,
        ChangeStep::ChangeKey,
        ChangeStep::Flush,
        ChangeStep::Close,
    ];
    for step in order {
        assert_eq!(change.step, step);
        match change.step_taken(Err("failed".to_string())) {
            Err(PasswordError::EncryptionError(text)) => {
                assert_eq!(step, ChangeStep::ChangeKey);
                assert_eq!(text, "failed");
            }
            Err(PasswordError::Other(text)) => {
                assert_ne!(step, ChangeStep::ChangeKey);
                assert_eq!(text, "failed");
            }
            _ => panic!("a failed step should be reported"),
        }
        assert_eq!(change.step, step);
        assert!(change.step_taken(Ok(())).is_ok());
    }
    assert_eq!(change.step, ChangeStep::Done);
    assert_eq!(change.current_password, "current");
    assert_eq!(change.new_password, "goodpassword123");
}
