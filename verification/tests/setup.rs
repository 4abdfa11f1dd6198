use canvas_mirror::canvas::Credentials;
use canvas_mirror::setup::{resolve_credentials, SetupError, Stored};

fn text(s: &str) -> Option<String> {
    Some(s.to_string())
}

fn on_file() -> Stored {
    Stored::Loaded(Credentials {
        canvas_url: "https://stored.test".to_string(),
        canvas_token: "stored-token".to_string(),
    })
}

fn credentials(url: &str, token: &str) -> Credentials {
    Credentials { canvas_url: url.to_string(), canvas_token: token.to_string() }
}

#[test]
fn command_line_alone_is_enough() {
    assert_eq!(
        resolve_credentials(text("https://cli.test"), text("cli-token"), Stored::NoPath, false),
        Ok(credentials("https://cli.test", "cli-token"))
    );
}

#[test]
fn file_alone_is_enough() {
    assert_eq!(
        resolve_credentials(None, None, on_file(), false),
        Ok(credentials("https://stored.test", "stored-token"))
    );
}

#[test]
fn command_line_wins_over_the_file() {
    assert_eq!(
        resolve_credentials(text("https://cli.test"), None, on_file(), false),
        Ok(credentials("https://cli.test", "stored-token"))
    );
    assert_eq!(
        resolve_credentials(None, text("cli-token"), on_file(), true),
        Ok(credentials("https://stored.test", "cli-token"))
    );
    assert_eq!(
        resolve_credentials(text("https://cli.test"), text("cli-token"), on_file(), true),
        Ok(credentials("https://cli.test", "cli-token"))
    );
}

#[test]
fn missing_credentials_without_a_file() {
    for (url, token) in [(None, None), (text("u"), None), (None, text("t"))] {
        for save in [false, true] {
            assert_eq!(
                resolve_credentials(url.clone(), token.clone(), Stored::NoPath, save),
                Err(SetupError::MissingCredentials)
            );
        }
    }
}

#[test]
fn missing_file_that_is_not_about_to_be_saved() {
    assert_eq!(
        resolve_credentials(text("u"), text("t"), Stored::Absent, false),
        Err(SetupError::CredentialFileMissing)
    );
    assert_eq!(
        resolve_credentials(None, None, Stored::Absent, false),
        Err(SetupError::CredentialFileMissing)
    );
}

#[test]
fn missing_file_cannot_fill_the_gaps() {
    assert_eq!(
        resolve_credentials(text("u"), None, Stored::Absent, true),
        Err(SetupError::NothingStored)
    );
    assert_eq!(
        resolve_credentials(None, None, Stored::Absent, true),
        Err(SetupError::NothingStored)
    );
}

#[test]
fn first_save_takes_the_command_line() {
    assert_eq!(
        resolve_credentials(text("u"), text("t"), Stored::Absent, true),
        Ok(credentials("u", "t"))
    );
}

#[test]
fn saving_needs_a_path() {
    assert_eq!(
        resolve_credentials(text("u"), text("t"), Stored::NoPath, true),
        Err(SetupError::MissingSavePath)
    );
}

#[test]
fn every_setup_error_has_its_message() {
    assert_eq!(
        SetupError::MissingCredentials.message(),
        "Provide canvas url and token via -u and -t respectively or via a credential file -c"
    );
    assert_eq!(
        SetupError::CredentialFileMissing.message(),
        "The given path to the credentials file does not exists"
    );
    assert_eq!(
        SetupError::NothingStored.message(),
        "The credentials file does not exist yet: provide canvas url and token via -u and -t"
    );
    assert_eq!(
        SetupError::MissingSavePath.message(),
        "Provide the destination path to save the credential to"
    );
}

#[test]
fn credentials_clone_keeps_both_fields() {
    let first = credentials("https://cli.test", "cli-token");
    assert_eq!(first.clone(), first);
}
