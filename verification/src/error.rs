//! Why issuing a certificate can fail.

use vstd::prelude::*;
use vstd::string::*;

verus! {

/// A failure to produce or to load a certificate.
#[derive(Clone, Debug, PartialEq, Eq)]
pub enum CertError {
    /// A subject entry, an alternative name or a PEM text is longer than the
    /// cryptographic library accepts.
    InputTooLong,
    /// The validity period, counted in seconds, does not fit the platform's
    /// time arithmetic.
    ValidityTooLong,
    /// The serial ledger of the signing authority has reached `u32::MAX`.
    SerialsExhausted,
    /// A file of the certificate exists, and overwriting was not asked for.
    FileExists,
    /// The cryptographic library failed; the text is its own message.
    Crypto(String),
}

impl CertError {
    /// A line of text for the operator.
    pub fn message(&self) -> (text: String)
        ensures
            self matches CertError::Crypto(m) ==> text@ == "cryptographic failure: "@ + m@,
            self is InputTooLong ==> text@ == "an input is too long for the cryptographic library"@,
            self is ValidityTooLong ==> text@ == "the validity period is too long"@,
            self is SerialsExhausted ==> text@ == "the serial ledger is exhausted"@,
            self is FileExists ==> text@ == "a file of the certificate exists"@,
    {
        match self {
            CertError::InputTooLong => String::from_str(
                "an input is too long for the cryptographic library",
            ),
            CertError::ValidityTooLong => String::from_str("the validity period is too long"),
            CertError::SerialsExhausted => String::from_str("the serial ledger is exhausted"),
            CertError::FileExists => String::from_str("a file of the certificate exists"),
            CertError::Crypto(m) => {
                let mut text = String::from_str("cryptographic failure: ");
                text.append(m.as_str());
                text
            },
        }
    }
}

} // verus!
