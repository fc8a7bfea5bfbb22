use vstd::prelude::*;

use crate::text::concat;

verus! {

/// What can go wrong while listing or updating the installed binaries.
#[derive(Debug, PartialEq, Eq)]
pub enum Error {
    /// A line of `cargo install --list` that does not name a package; it holds the line.
    InvalidPackageLine(String),
    /// A line that is not of the form `name vX.Y.Z:` that the strict variant of the
    /// commands wants; it holds the line.
    MalformedPackageLine(String),
    /// A version text that semver refused; it holds semver's message.
    InvalidVersion(String),
    /// crates.io knows no stable version of a crate; it holds the latest release.
    NoStableVersion(String),
    /// crates.io named a latest stable version that semver refused; it holds semver's message.
    InvalidStableVersion(String),
    /// `cargo install --list` failed; it holds what cargo wrote to its error stream.
    InstalledBins(String),
    /// `cargo binstall` failed to update the packages.
    UpdateFailed,
    /// `cargo install cargo-binstall` failed; it holds what cargo wrote to its error stream.
    InstallFailed(String),
    /// The environment failed (the terminal, a prompt, starting a process); it holds its message.
    Environment(String),
    /// A command was given an event that does not answer the work it asked for.
    UnexpectedEvent,
}

/// The mathematical value of an [`Error`].
pub enum ErrorView {
    InvalidPackageLine(Seq<char>),
    MalformedPackageLine(Seq<char>),
    InvalidVersion(Seq<char>),
    NoStableVersion(Seq<char>),
    InvalidStableVersion(Seq<char>),
    InstalledBins(Seq<char>),
    UpdateFailed,
    InstallFailed(Seq<char>),
    Environment(Seq<char>),
    UnexpectedEvent,
}

impl View for Error {
    type V = ErrorView;

    open spec fn view(&self) -> ErrorView {
        match self {
            Error::InvalidPackageLine(s) => ErrorView::InvalidPackageLine(s@),
            Error::MalformedPackageLine(s) => ErrorView::MalformedPackageLine(s@),
            Error::InvalidVersion(s) => ErrorView::InvalidVersion(s@),
            Error::NoStableVersion(s) => ErrorView::NoStableVersion(s@),
            Error::InvalidStableVersion(s) => ErrorView::InvalidStableVersion(s@),
            Error::InstalledBins(s) => ErrorView::InstalledBins(s@),
            Error::UpdateFailed => ErrorView::UpdateFailed,
            Error::InstallFailed(s) => ErrorView::InstallFailed(s@),
            Error::Environment(s) => ErrorView::Environment(s@),
            Error::UnexpectedEvent => ErrorView::UnexpectedEvent,
        }
    }
}

/// The message that an error reports.
pub open spec fn error_message(e: ErrorView) -> Seq<char> {
    match e {
        ErrorView::InvalidPackageLine(line) => "Failed to parse package line: "@ + line,
        ErrorView::MalformedPackageLine(line) => "Invalid package line: "@ + line,
        ErrorView::InvalidVersion(m) => m,
        ErrorView::NoStableVersion(v) => "No stable version is available; latest release is "@ + v,
        ErrorView::InvalidStableVersion(_) => "Failed to parse latest stable version"@,
        ErrorView::InstalledBins(stderr) => "Failed to get installed binaries: "@ + stderr,
        ErrorView::UpdateFailed => "Failed to update packages"@,
        ErrorView::InstallFailed(stderr) => "Failed to install cargo-binstall: "@ + stderr,
        ErrorView::Environment(m) => m,
        ErrorView::UnexpectedEvent => "unexpected event for the current step"@,
    }
}

impl Error {
    /// The message of the error.
    pub fn message(&self) -> (r: String)
        ensures
            r@ == error_message(self@),
    {
        match self {
            Error::InvalidPackageLine(line) => concat("Failed to parse package line: ", line.as_str()),
            Error::MalformedPackageLine(line) => concat("Invalid package line: ", line.as_str()),
            Error::InvalidVersion(m) => m.as_str().to_owned(),
            Error::NoStableVersion(v) => concat(
                "No stable version is available; latest release is ",
                v.as_str(),
            ),
            Error::InvalidStableVersion(_) => "Failed to parse latest stable version".to_owned(),
            Error::InstalledBins(stderr) => concat(
                "Failed to get installed binaries: ",
                stderr.as_str(),
            ),
            Error::UpdateFailed => "Failed to update packages".to_owned(),
            Error::InstallFailed(stderr) => concat(
                "Failed to install cargo-binstall: ",
                stderr.as_str(),
            ),
            Error::Environment(m) => m.as_str().to_owned(),
            Error::UnexpectedEvent => "unexpected event for the current step".to_owned(),
        }
    }

    /// The message of the error followed by that of its cause, where it has one.
    pub fn full_message(&self) -> (r: String)
        ensures
            r@ == (match self@ {
                ErrorView::InvalidStableVersion(cause) => error_message(self@) + ": "@ + cause,
                _ => error_message(self@),
            }),
    {
        let m = self.message();
        match self {
            Error::InvalidStableVersion(cause) => {
                let with_colon = concat(m.as_str(), ": ");
                concat(with_colon.as_str(), cause.as_str())
            },
            _ => m,
        }
    }
}

} // verus!
