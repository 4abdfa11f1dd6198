//! Choosing the credentials of a run from the command line and the
//! credentials file.

use crate::canvas::{Credentials, CredentialsView};
use vstd::prelude::*;
use vstd::string::*;

verus! {

/// What the credentials file offered.
#[derive(Debug, PartialEq, Eq)]
pub enum Stored {
    /// No path to a credentials file was given.
    NoPath,
    /// A path was given, but no file exists there.
    Absent,
    /// The credentials read from the file.
    Loaded(Credentials),
}

/// Why a run cannot start.
#[derive(Clone, Copy, Debug, PartialEq, Eq, Structural)]
pub enum SetupError {
    /// The address or the token is missing and no credentials file was
    /// named.
    MissingCredentials,
    /// The named credentials file does not exist and is not about to be
    /// written.
    CredentialFileMissing,
    /// The address or the token is missing and the named credentials file
    /// does not exist yet.
    NothingStored,
    /// The credentials are to be saved, but no path was given.
    MissingSavePath,
}

/// The credentials of a run: what the command line gave wins over what the
/// file holds. The run cannot start where the address or the token is
/// missing and no file was named; where a named file does not exist and is
/// not about to be saved; where the file would have to fill in what the
/// command line left out but does not exist; and where the credentials are
/// to be saved without a path.
pub open spec fn resolved(
    canvas_url: Option<Seq<char>>,
    canvas_token: Option<Seq<char>>,
    stored: Option<Option<CredentialsView>>,
    save: bool,
) -> Result<CredentialsView, SetupError> {
    let incomplete = canvas_url is None || canvas_token is None;
    match stored {
        None => if incomplete {
            Err(SetupError::MissingCredentials)
        } else if save {
            Err(SetupError::MissingSavePath)
        } else {
            Ok(CredentialsView { canvas_url: canvas_url->0, canvas_token: canvas_token->0 })
        },
        Some(None) => if !save {
            Err(SetupError::CredentialFileMissing)
        } else if incomplete {
            Err(SetupError::NothingStored)
        } else {
            Ok(CredentialsView { canvas_url: canvas_url->0, canvas_token: canvas_token->0 })
        },
        Some(Some(file)) => Ok(
            CredentialsView {
                canvas_url: match canvas_url {
                    Some(url) => url,
                    None => file.canvas_url,
                },
                canvas_token: match canvas_token {
                    Some(token) => token,
                    None => file.canvas_token,
                },
            },
        ),
    }
}

impl Stored {
    /// What the file offered, as a value of the model: `None` without a
    /// path, `Some(None)` for a missing file.
    pub open spec fn offered(&self) -> Option<Option<CredentialsView>> {
        match self {
            Stored::NoPath => None,
            Stored::Absent => Some(None),
            Stored::Loaded(credentials) => Some(Some(credentials@)),
        }
    }
}

/// The content of an optional text.
pub open spec fn optional_text(text: Option<String>) -> Option<Seq<char>> {
    match text {
        Some(t) => Some(t@),
        None => None,
    }
}

/// Chooses the credentials of a run, or says why the run cannot start.
pub fn resolve_credentials(
    canvas_url: Option<String>,
    canvas_token: Option<String>,
    stored: Stored,
    save: bool,
) -> (outcome: Result<Credentials, SetupError>)
    ensures
        match outcome {
            Ok(credentials) => resolved(
                optional_text(canvas_url),
                optional_text(canvas_token),
                stored.offered(),
                save,
            ) == Ok::<CredentialsView, SetupError>(credentials@),
            Err(error) => resolved(
                optional_text(canvas_url),
                optional_text(canvas_token),
                stored.offered(),
                save,
            ) == Err::<CredentialsView, SetupError>(error),
        },
{
    match stored {
        Stored::NoPath => match (canvas_url, canvas_token) {
            (Some(url), Some(token)) => if save {
                Err(SetupError::MissingSavePath)
            } else {
                Ok(Credentials { canvas_url: url, canvas_token: token })
            },
            _ => Err(SetupError::MissingCredentials),
        },
        Stored::Absent => if !save {
            Err(SetupError::CredentialFileMissing)
        } else {
            match (canvas_url, canvas_token) {
                (Some(url), Some(token)) => Ok(Credentials { canvas_url: url, canvas_token: token }),
                _ => Err(SetupError::NothingStored),
            }
        },
        Stored::Loaded(file) => {
            let url = match canvas_url {
                Some(url) => url,
                None => file.canvas_url,
            };
            let token = match canvas_token {
                Some(token) => token,
                None => file.canvas_token,
            };
            Ok(Credentials { canvas_url: url, canvas_token: token })
        },
    }
}

impl SetupError {
    /// The text of the complaint.
    pub open spec fn message_of(self) -> Seq<char> {
        match self {
            SetupError::MissingCredentials => "Provide canvas url and token via -u and -t respectively or via a credential file -c"@,
            SetupError::CredentialFileMissing => "The given path to the credentials file does not exists"@,
            SetupError::NothingStored => "The credentials file does not exist yet: provide canvas url and token via -u and -t"@,
            SetupError::MissingSavePath => "Provide the destination path to save the credential to"@,
        }
    }

    /// What to tell the user.
    pub fn message(&self) -> (text: String)
        ensures
            text@ == self.message_of(),
    {
        match self {
            SetupError::MissingCredentials => String::from_str(
                "Provide canvas url and token via -u and -t respectively or via a credential file -c",
            ),
            SetupError::CredentialFileMissing => String::from_str(
                "The given path to the credentials file does not exists",
            ),
            SetupError::NothingStored => String::from_str(
                "The credentials file does not exist yet: provide canvas url and token via -u and -t",
            ),
            SetupError::MissingSavePath => String::from_str(
                "Provide the destination path to save the credential to",
            ),
        }
    }
}

} // verus!
