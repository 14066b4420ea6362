//! What a TLS connection is set up with.

use vstd::prelude::*;
use vstd::string::*;

use crate::error::{MemcacheError, MemcacheErrorView};
use crate::io::{IoError, IoErrorKind, IoErrorView};
use crate::text;

verus! {

/// Whether the server has to prove who it is.
#[derive(Debug, Clone, Copy, PartialEq, Eq, Structural)]
pub enum VerifyMode {
    /// Any certificate will do.
    Skip,
    /// The certificate has to lead to a root that is trusted.
    Peer,
}

/// How a TLS connection is set up.
#[derive(Debug)]
pub struct TlsConfig {
    pub ca_path: Option<String>,
    pub key_path: Option<String>,
    pub cert_path: Option<String>,
    pub verify_mode: VerifyMode,
}

/// Where the roots come from that are trusted.
#[derive(Debug)]
pub enum Roots<'a> {
    /// The server's certificate is not verified.
    Unverified,
    /// The certificates in a file.
    File(&'a String),
    /// The system's certificates.
    Native,
}

pub open spec fn text_of(text: Option<String>) -> Option<Seq<char>> {
    match text {
        Some(text) => Some(text@),
        None => None,
    }
}

impl TlsConfig {
    /// Where the roots come from that are trusted: nowhere if the server is not
    /// verified, the given file if there is one, else the system.
    pub fn roots(&self) -> (r: Roots<'_>)
        ensures
            match r {
                Roots::Unverified => self.verify_mode == VerifyMode::Skip,
                Roots::File(path) => self.verify_mode == VerifyMode::Peer && self.ca_path == Some(*path),
                Roots::Native => self.verify_mode == VerifyMode::Peer && self.ca_path is None,
            },
    {
        match self.verify_mode {
            VerifyMode::Skip => Roots::Unverified,
            VerifyMode::Peer => match &self.ca_path {
                Some(path) => Roots::File(path),
                None => Roots::Native,
            },
        }
    }

    /// The files of the client's own certificate chain and key, if it has both.
    pub fn client_auth(&self) -> (r: Option<(&String, &String)>)
        ensures
            match r {
                Some((cert_path, key_path)) => self.cert_path == Some(*cert_path) && self.key_path == Some(*key_path),
                None => self.cert_path is None || self.key_path is None,
            },
    {
        match (&self.cert_path, &self.key_path) {
            (Some(cert_path), Some(key_path)) => Some((cert_path, key_path)),
            _ => None,
        }
    }
}

/// The error of a PEM file that cannot be read.
pub fn pem_error(path: &str, message: &str) -> (r: MemcacheError)
    ensures
        r@ == MemcacheErrorView::IOError(
            IoErrorView {
                kind: IoErrorKind::InvalidData,
                message: "failed to parse PEM file "@ + path@ + ": "@ + message@,
            },
        ),
{
    let opened = text::join("failed to parse PEM file ", path);
    let set_off = text::join(opened.as_str(), ": ");
    let whole = text::join(set_off.as_str(), message);
    MemcacheError::IOError(IoError::new(IoErrorKind::InvalidData, whole.as_str()))
}

/// Whether the system's roots are of no use, given how many certificates were
/// loaded and the first error on the way: only if there is none and an error
/// says why.
pub fn native_roots_error(certificates: usize, first: Option<&str>) -> (r: Option<MemcacheError>)
    ensures
        match r {
            Some(e) => certificates == 0 && (first matches Some(message) && e@ == MemcacheErrorView::IOError(
                IoErrorView {
                    kind: IoErrorKind::Other,
                    message: "failed to load native root certificates: "@ + message@,
                },
            )),
            None => certificates != 0 || first is None,
        },
{
    if certificates != 0 {
        return None;
    }
    match first {
        Some(message) => {
            let whole = text::join("failed to load native root certificates: ", message);
            Some(MemcacheError::IOError(IoError::new(IoErrorKind::Other, whole.as_str())))
        },
        None => None,
    }
}

/// The error of a host that is no name for a TLS server.
pub fn server_name_error(host: &str) -> (r: MemcacheError)
    ensures
        r@ == MemcacheErrorView::BadURL("invalid TLS server name: "@ + host@),
{
    MemcacheError::BadURL(text::join("invalid TLS server name: ", host))
}

} // verus!
