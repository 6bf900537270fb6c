//! Error taxonomy of the installer and the exact messages it reports.

use vstd::prelude::*;

use crate::text::{chars_to_string, str_chars};

verus! {

/// Everything that can go wrong in one install operation.
#[derive(Debug)]
pub enum Error {
    /// Network or connection failure, with the transport's message.
    Transport(String),
    /// Non-2xx response: the status code and the response body.
    HttpStatus(u16, String),
    /// Malformed JSON or archive structure.
    Parse(String),
    /// Directory or file create/read/write/remove failure.
    Filesystem(String),
    /// Persisted state belongs to the named other repository.
    ForeignInstallation(String),
    /// A pattern-based asset lookup found nothing.
    NoMatchingAsset,
}

/// The class of an [`Error`], for callers that dispatch on failure class.
#[derive(Clone, Copy, PartialEq, Eq, Structural, Debug)]
pub enum ErrorKind {
    Transport,
    HttpStatus,
    Parse,
    Filesystem,
    ForeignInstallation,
    NoMatchingAsset,
}

/// The character standing for the decimal digit `n`.
pub open spec fn digit_char(n: int) -> char {
    if n == 0 {
        '0'
    } else if n == 1 {
        '1'
    } else if n == 2 {
        '2'
    } else if n == 3 {
        '3'
    } else if n == 4 {
        '4'
    } else if n == 5 {
        '5'
    } else if n == 6 {
        '6'
    } else if n == 7 {
        '7'
    } else if n == 8 {
        '8'
    } else {
        '9'
    }
}

/// The decimal rendering of `n`, most significant digit first.
pub open spec fn dec_digits(n: nat) -> Seq<char>
    decreases n,
{
    if n < 10 {
        seq![digit_char(n as int)]
    } else {
        dec_digits(n / 10) + seq![digit_char((n % 10) as int)]
    }
}

/// Append the decimal rendering of `n` to `out`.
pub fn push_dec_digits(out: &mut Vec<char>, n: u64)
    ensures
        final(out)@ == old(out)@ + dec_digits(n as nat),
    decreases n,
{
    if n < 10 {
        let d: u64 = n;
        out.push(exec_digit_char(d));
        proof {
            assert(out@ =~= old(out)@ + dec_digits(n as nat));
        }
    } else {
        push_dec_digits(out, n / 10);
        out.push(exec_digit_char(n % 10));
        proof {
            assert(out@ =~= old(out)@ + dec_digits(n as nat));
        }
    }
}

/// The character for one decimal digit.
fn exec_digit_char(n: u64) -> (r: char)
    requires
        n < 10,
    ensures
        r == digit_char(n as int),
{
    if n == 0 {
        '0'
    } else if n == 1 {
        '1'
    } else if n == 2 {
        '2'
    } else if n == 3 {
        '3'
    } else if n == 4 {
        '4'
    } else if n == 5 {
        '5'
    } else if n == 6 {
        '6'
    } else if n == 7 {
        '7'
    } else if n == 8 {
        '8'
    } else {
        '9'
    }
}

impl Error {
    /// The class of this error.
    pub open spec fn kind_spec(&self) -> ErrorKind {
        match self {
            Error::Transport(_) => ErrorKind::Transport,
            Error::HttpStatus(_, _) => ErrorKind::HttpStatus,
            Error::Parse(_) => ErrorKind::Parse,
            Error::Filesystem(_) => ErrorKind::Filesystem,
            Error::ForeignInstallation(_) => ErrorKind::ForeignInstallation,
            Error::NoMatchingAsset => ErrorKind::NoMatchingAsset,
        }
    }

    /// The class of this error.
    pub fn kind(&self) -> (r: ErrorKind)
        ensures
            r == self.kind_spec(),
    {
        match self {
            Error::Transport(_) => ErrorKind::Transport,
            Error::HttpStatus(_, _) => ErrorKind::HttpStatus,
            Error::Parse(_) => ErrorKind::Parse,
            Error::Filesystem(_) => ErrorKind::Filesystem,
            Error::ForeignInstallation(_) => ErrorKind::ForeignInstallation,
            Error::NoMatchingAsset => ErrorKind::NoMatchingAsset,
        }
    }

    /// The single descriptive message reported for this error.
    pub open spec fn describe_spec(&self) -> Seq<char> {
        match self {
            Error::Transport(m) => m@,
            Error::HttpStatus(code, body) => "GitHub API returned "@ + dec_digits(*code as nat)
                + ": "@ + body@,
            Error::Parse(m) => m@,
            Error::Filesystem(m) => m@,
            Error::ForeignInstallation(repo) => "installed version is for a different repository: "@
                + repo@,
            Error::NoMatchingAsset => "no matching asset found"@,
        }
    }

    /// Render the single descriptive message for this error.
    pub fn describe(&self) -> (r: String)
        ensures
            r@ == self.describe_spec(),
    {
        match self {
            Error::Transport(m) => m.clone(),
            Error::HttpStatus(code, body) => {
                let mut out = str_chars("GitHub API returned ");
                push_dec_digits(&mut out, *code as u64);
                let mut sep = str_chars(": ");
                out.append(&mut sep);
                let mut body_chars = str_chars(body.as_str());
                out.append(&mut body_chars);
                chars_to_string(&out)
            },
            Error::Parse(m) => m.clone(),
            Error::Filesystem(m) => m.clone(),
            Error::ForeignInstallation(repo) => {
                let mut out = str_chars("installed version is for a different repository: ");
                let mut repo_chars = str_chars(repo.as_str());
                out.append(&mut repo_chars);
                chars_to_string(&out)
            },
            Error::NoMatchingAsset => {
                let out = str_chars("no matching asset found");
                chars_to_string(&out)
            },
        }
    }
}

} // verus!
