//! The values of a client configuration: where the API server is, which
//! authority vouches for it, and the client's certificate and key.
//!
//! The certificate data goes into the configuration in base64, the alphabet
//! of RFC 4648 with padding. Writing the configuration down as a document is
//! left to the caller.

use vstd::prelude::*;
use vstd::string::*;
use crate::cert::Bundle;
use crate::error::CertError;
use crate::text::concat2;

verus! {

/// The base64 text of `data`, as `base64::encode` computes it.
pub uninterp spec fn base64_text(data: Seq<u8>) -> Seq<char>;

/// Whether `base64::encode` can encode `len` bytes: the length of the
/// result, four characters for every three bytes begun, must fit a `usize`.
pub open spec fn spec_encodable(len: nat) -> bool {
    (len / 3) * 4 + 4 <= usize::MAX
}

/// `base64::encode`: the base64 text of `data`. The call aborts where the
/// length of the result does not fit a `usize`.
#[verifier::external_body]
fn base64_encode(data: &Vec<u8>) -> (text: String)
    requires
        spec_encodable(data@.len()),
    ensures
        text@ == base64_text(data@),
{
    base64::encode(data)
}

/// What a client configuration is made from.
pub struct KubeconfigParameters<'a> {
    /// The address of the API server, as it follows `https://`.
    pub apiserver_address: &'a str,
    pub cluster_name: &'a str,
    pub username: &'a str,
    /// The client's bundle.
    pub cert: &'a Box<Bundle>,
    /// The bundle of the authority that signed the API server's certificate.
    pub ca_cert: &'a Box<Bundle>,
    /// The file that the configuration is written to.
    pub kubeconfig_filename: &'a str,
}

/// The values of a client configuration with one cluster, one user and the
/// context `default` that joins them.
#[derive(Clone, PartialEq, Eq)]
pub struct Kubeconfig {
    /// The URL of the API server.
    pub server: String,
    pub cluster_name: String,
    pub username: String,
    /// The authority's certificate: its PEM text in base64.
    pub certificate_authority_data: String,
    /// The client's certificate: its PEM text in base64.
    pub client_certificate_data: String,
    /// The client's key: its PEM text in base64.
    pub client_key_data: String,
}

/// Whether `data` is short enough to be encoded.
pub fn encodable(data: &Vec<u8>) -> (r: bool)
    ensures
        r == spec_encodable(data@.len()),
{
    data.len() / 3 <= (usize::MAX - 4) / 4
}

/// Whether the three PEM texts of a client configuration can be encoded.
pub open spec fn spec_kubeconfig_encodable(config: KubeconfigParameters) -> bool {
    &&& spec_encodable(config.ca_cert.cert@.len())
    &&& spec_encodable(config.cert.cert@.len())
    &&& spec_encodable(config.cert.key@.len())
}

/// The values of the client configuration for `config`.
pub fn create_kubeconfig(config: &KubeconfigParameters) -> (r: Result<Kubeconfig, CertError>)
    ensures
        match r {
            Ok(k) => {
                &&& spec_kubeconfig_encodable(*config)
                &&& k.server@ == "https://"@ + config.apiserver_address@
                &&& k.cluster_name@ == config.cluster_name@
                &&& k.username@ == config.username@
                &&& k.certificate_authority_data@ == base64_text(config.ca_cert.cert@)
                &&& k.client_certificate_data@ == base64_text(config.cert.cert@)
                &&& k.client_key_data@ == base64_text(config.cert.key@)
            },
            Err(e) => e is InputTooLong && !spec_kubeconfig_encodable(*config),
        },
{
    if !encodable(&config.ca_cert.cert) || !encodable(&config.cert.cert) || !encodable(
        &config.cert.key,
    ) {
        return Err(CertError::InputTooLong);
    }
    Ok(
        Kubeconfig {
            server: concat2("https://", config.apiserver_address),
            cluster_name: String::from_str(config.cluster_name),
            username: String::from_str(config.username),
            certificate_authority_data: base64_encode(&config.ca_cert.cert),
            client_certificate_data: base64_encode(&config.cert.cert),
            client_key_data: base64_encode(&config.cert.key),
        },
    )
}

} // verus!
