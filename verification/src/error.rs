//! The errors of decoding an SVID and of assembling a configuration from it.

use vstd::prelude::*;

use rustls::Error as TlsError;

verus! {

/// The error type of rustls, which is carried through unread.
#[verifier::external_type_specification]
#[verifier::external_body]
pub struct ExTlsError(TlsError);

/// Why an SVID cannot be turned into a TLS configuration.
#[derive(Debug)]
pub enum Error {
    /// A DER structure is malformed.
    X509(String),
    /// Rustls refused the configuration.
    Rustls(TlsError),
    /// The certificate chain is unusable.
    InvalidChain(String),
    /// The private key is unusable.
    InvalidKey(String),
    /// The trust bundle is unusable.
    TrustBundle(String),
}

/// What an [`Error`] says, with its text as a sequence of characters.
pub enum ErrorView {
    /// See [`Error::X509`].
    X509(Seq<char>),
    /// See [`Error::Rustls`].
    Rustls(TlsError),
    /// See [`Error::InvalidChain`].
    InvalidChain(Seq<char>),
    /// See [`Error::InvalidKey`].
    InvalidKey(Seq<char>),
    /// See [`Error::TrustBundle`].
    TrustBundle(Seq<char>),
}

impl View for Error {
    type V = ErrorView;

    open spec fn view(&self) -> ErrorView {
        match *self {
            Error::X509(m) => ErrorView::X509(m@),
            Error::Rustls(e) => ErrorView::Rustls(e),
            Error::InvalidChain(m) => ErrorView::InvalidChain(m@),
            Error::InvalidKey(m) => ErrorView::InvalidKey(m@),
            Error::TrustBundle(m) => ErrorView::TrustBundle(m@),
        }
    }
}

impl vstd::std_specs::convert::FromSpecImpl<TlsError> for Error {
    open spec fn obeys_from_spec() -> bool {
        true
    }

    open spec fn from_spec(e: TlsError) -> Error {
        Error::Rustls(e)
    }
}

impl From<TlsError> for Error {
    fn from(e: TlsError) -> (r: Error) {
        Error::Rustls(e)
    }
}

/// The view of an error keeps its kind and its whole text.
pub proof fn law_view_keeps_kind_and_text(m: String, e: TlsError)
    ensures
        Error::X509(m)@ == ErrorView::X509(m@),
        Error::Rustls(e)@ == ErrorView::Rustls(e),
        Error::InvalidChain(m)@ == ErrorView::InvalidChain(m@),
        Error::InvalidKey(m)@ == ErrorView::InvalidKey(m@),
        Error::TrustBundle(m)@ == ErrorView::TrustBundle(m@),
{
}

/// An error of rustls is converted as it is.
pub proof fn law_rustls_error_is_converted_as_it_is(e: TlsError)
    ensures
        <Error as vstd::std_specs::convert::FromSpec<TlsError>>::from_spec(e)@
            == ErrorView::Rustls(e),
{
}

} // verus!
