//! The library's error type.

use vstd::prelude::*;

verus! {

/// `std::io::Error`, carried through unread.
#[verifier::external_type_specification]
#[verifier::external_body]
pub struct ExIoError(std::io::Error);

/// Everything that can go wrong while setting up a tunnel.
#[derive(Debug)]
pub enum BeamsError {
    /// The user's target is neither a port, a `host:port`, nor a URL.
    InvalidTarget(String),
    /// A tool binary could not be located, downloaded or unpacked.
    Download(String),
    /// The tunnel could not be opened.
    TunnelStart(String),
    /// The tunnel tool printed no public address in time.
    UrlTimeout,
    /// An I/O failure.
    Io(std::io::Error),
}

/// What a [`BeamsError`] says, with its messages as character sequences.
pub enum ErrorModel {
    InvalidTarget(Seq<char>),
    Download(Seq<char>),
    TunnelStart(Seq<char>),
    UrlTimeout,
    Io,
}

impl View for BeamsError {
    type V = ErrorModel;

    open spec fn view(&self) -> ErrorModel {
        match self {
            BeamsError::InvalidTarget(m) => ErrorModel::InvalidTarget(m@),
            BeamsError::Download(m) => ErrorModel::Download(m@),
            BeamsError::TunnelStart(m) => ErrorModel::TunnelStart(m@),
            BeamsError::UrlTimeout => ErrorModel::UrlTimeout,
            BeamsError::Io(_) => ErrorModel::Io,
        }
    }
}

} // verus!
