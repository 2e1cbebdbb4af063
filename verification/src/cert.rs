//! Certificate requests, and the certificates issued for them.
//!
//! A request is plain data: subject, key length, validity, serial number and
//! the lists of usage names that select the certificate's extensions. The
//! functions in the first half of this file say what a request means. The
//! second half hands that meaning to the cryptographic library, call by call.

use vstd::prelude::*;
use vstd::string::*;
use openssl::error::ErrorStack;
use openssl::pkey::{PKey, Private};
use openssl::x509::extension::{
    BasicConstraints, ExtendedKeyUsage, KeyUsage, SubjectAlternativeName,
};
use openssl::x509::{X509, X509Name};
use crate::error::CertError;
use crate::san::{san_kind, spec_san_kind, SanKind};
use crate::signer::{
    alt_names_build, alt_names_dns, alt_names_ip, alt_names_items, alt_names_new,
    asn1_time_days_from_now, authority_key_identifier, basic_constraints_build,
    basic_constraints_ca, basic_constraints_critical, basic_constraints_fields,
    basic_constraints_new, builder_append_extension, builder_build, builder_set_issuer_name,
    builder_set_not_after, builder_set_not_before, builder_set_pubkey,
    builder_set_serial_number, builder_set_subject_name, builder_set_version, builder_sign,
    conf_new, digest_sha256, error_stack_message, extended_key_usage_build, extended_key_usage_client_auth,
    extended_key_usage_code_signing, extended_key_usage_critical,
    extended_key_usage_is_critical, extended_key_usage_items, extended_key_usage_new,
    extended_key_usage_server_auth, extended_key_usage_time_stamping, key_usage_build,
    key_usage_critical, key_usage_crl_sign, key_usage_data_encipherment,
    key_usage_decipher_only, key_usage_digital_signature, key_usage_encipher_only,
    key_usage_fields, key_usage_key_agreement, key_usage_key_cert_sign,
    key_usage_key_encipherment, key_usage_new, key_usage_non_repudiation,
    name_append_common_name, name_append_country, name_append_locality,
    name_append_organization, name_append_organization_unit, name_append_state_or_province,
    name_build, name_builder, pkey_from_rsa, pkey_private_key_from_pem, rsa_generate,
    rsa_private_key_to_pem, subject_key_identifier, x509_builder, x509_from_pem,
    spec_certificate_header, spec_rsa_private_key_header, x509_subject_name, x509_to_pem,
    MAX_INPUT_BYTES,
};
use crate::text::{
    all_fit, begins_with, concat3, fits, list_fits, opt_fits, opt_text, opt_text_fits, opt_texts,
    same_text, text_fits, texts,
};

verus! {

/// The subject of a certificate, by attribute.
#[derive(Clone, Debug, PartialEq, Eq)]
pub struct Subject {
    /// CN
    pub common_name: String,
    /// C
    pub country: Option<String>,
    /// O
    pub organization: Option<String>,
    /// OU
    pub organization_unit: Option<String>,
    /// ST
    pub state_or_province_name: Option<String>,
    /// L
    pub locality: Option<String>,
}

/// A `Subject` as mathematical data.
pub ghost struct SubjectView {
    pub common_name: Seq<char>,
    pub country: Option<Seq<char>>,
    pub organization: Option<Seq<char>>,
    pub organization_unit: Option<Seq<char>>,
    pub state_or_province_name: Option<Seq<char>>,
    pub locality: Option<Seq<char>>,
}

impl View for Subject {
    type V = SubjectView;

    open spec fn view(&self) -> SubjectView {
        SubjectView {
            common_name: self.common_name@,
            country: opt_text(self.country),
            organization: opt_text(self.organization),
            organization_unit: opt_text(self.organization_unit),
            state_or_province_name: opt_text(self.state_or_province_name),
            locality: opt_text(self.locality),
        }
    }
}

/// A certificate together with its private key.
#[derive(Clone, PartialEq, Eq)]
pub struct Bundle {
    /// The certificate, PEM-encoded.
    pub cert: Vec<u8>,
    /// The private key, PEM-encoded.
    pub key: Vec<u8>,
    /// The serial number under which the bundle was issued. A bundle that
    /// was loaded from its files has none on record.
    pub serial_number: Option<u32>,
    /// The certificate, PEM-encoded, of the authority that the certificate
    /// was signed with when it was issued; none where it was signed with its
    /// own key. A bundle that was loaded from its files has none on record.
    pub issuer: Option<Vec<u8>>,
}

/// A `Bundle` as mathematical data.
pub ghost struct BundleView {
    pub cert: Seq<u8>,
    pub key: Seq<u8>,
    pub serial_number: Option<u32>,
    pub issuer: Option<Seq<u8>>,
}

impl View for Bundle {
    type V = BundleView;

    open spec fn view(&self) -> BundleView {
        BundleView {
            cert: self.cert@,
            key: self.key@,
            serial_number: self.serial_number,
            issuer: match self.issuer {
                Some(pem) => Some(pem@),
                None => None,
            },
        }
    }
}

/// A request for one certificate.
pub struct CertificateParameters<'a> {
    /// Length of the RSA modulus, in bits.
    pub key_length: u32,
    /// The serial number to issue under.
    pub serial_number: u32,
    /// Days from the moment of signing until the certificate expires.
    pub validity_days: u32,
    pub subject: Subject,
    /// Names of key usage bits; see `spec_key_usage_flags`.
    pub key_usage: Vec<String>,
    /// Names of extended key usage purposes; see `spec_purposes`.
    pub extended_key_usage: Option<Vec<String>>,
    /// Names of basic constraints; see `spec_is_authority`.
    pub basic_constraints: Option<Vec<String>>,
    /// Subject alternative names, each an IP address or a DNS name.
    pub san: Option<Vec<String>>,
    /// The authority that signs, or `None` for a self-signed certificate.
    pub ca: Option<&'a Box<Bundle>>,
}

/// A `CertificateParameters` as mathematical data.
pub ghost struct ParametersView {
    pub key_length: u32,
    pub serial_number: u32,
    pub validity_days: u32,
    pub subject: SubjectView,
    pub key_usage: Seq<Seq<char>>,
    pub extended_key_usage: Option<Seq<Seq<char>>>,
    pub basic_constraints: Option<Seq<Seq<char>>>,
    pub san: Option<Seq<Seq<char>>>,
    pub ca: Option<BundleView>,
}

impl<'a> View for CertificateParameters<'a> {
    type V = ParametersView;

    open spec fn view(&self) -> ParametersView {
        ParametersView {
            key_length: self.key_length,
            serial_number: self.serial_number,
            validity_days: self.validity_days,
            subject: self.subject@,
            key_usage: texts(self.key_usage@),
            extended_key_usage: opt_texts(self.extended_key_usage),
            basic_constraints: opt_texts(self.basic_constraints),
            san: opt_texts(self.san),
            ca: match self.ca {
                Some(b) => Some(b@),
                None => None,
            },
        }
    }
}

/// A subject that has a common name and nothing else.
pub open spec fn spec_plain_subject(cn: Seq<char>) -> SubjectView {
    SubjectView {
        common_name: cn,
        country: None,
        organization: None,
        organization_unit: None,
        state_or_province_name: None,
        locality: None,
    }
}

/// The key usage names of every leaf certificate.
pub open spec fn spec_leaf_key_usage() -> Seq<Seq<char>> {
    seq!["digital_signature"@, "key_encipherment"@, "critical"@]
}

/// The key usage names of a certificate authority.
pub open spec fn spec_authority_key_usage() -> Seq<Seq<char>> {
    seq!["digital_signature"@, "key_encipherment"@, "key_cert_sign"@, "critical"@]
}

/// The request that `CertificateParameters::default` makes.
pub open spec fn spec_default(cn: Seq<char>) -> ParametersView {
    ParametersView {
        key_length: 2048,
        serial_number: 0,
        validity_days: 100,
        subject: spec_plain_subject(cn),
        key_usage: Seq::empty(),
        extended_key_usage: None,
        basic_constraints: None,
        san: None,
        ca: None,
    }
}

/// A leaf request with the given extended key usage names.
pub open spec fn spec_leaf(
    cn: Seq<char>,
    key_length: u32,
    validity_days: u32,
    purposes: Seq<Seq<char>>,
) -> ParametersView {
    ParametersView {
        key_length,
        serial_number: 0,
        validity_days,
        subject: spec_plain_subject(cn),
        key_usage: spec_leaf_key_usage(),
        extended_key_usage: Some(purposes),
        basic_constraints: None,
        san: None,
        ca: None,
    }
}

/// The request that `CertificateParameters::client` makes.
pub open spec fn spec_client(cn: Seq<char>, key_length: u32, validity_days: u32) -> ParametersView {
    spec_leaf(cn, key_length, validity_days, seq!["client_auth"@])
}

/// The request that `CertificateParameters::server` makes.
pub open spec fn spec_server(cn: Seq<char>, key_length: u32, validity_days: u32) -> ParametersView {
    spec_leaf(cn, key_length, validity_days, seq!["server_auth"@])
}

/// The request that `CertificateParameters::client_and_server` makes.
pub open spec fn spec_client_and_server(
    cn: Seq<char>,
    key_length: u32,
    validity_days: u32,
) -> ParametersView {
    spec_leaf(cn, key_length, validity_days, seq!["server_auth"@, "client_auth"@])
}

/// The request that `CertificateParameters::ca` makes.
pub open spec fn spec_ca(cn: Seq<char>, key_length: u32, validity_days: u32) -> ParametersView {
    ParametersView {
        key_length,
        serial_number: 0,
        validity_days,
        subject: spec_plain_subject(cn),
        key_usage: spec_authority_key_usage(),
        extended_key_usage: None,
        basic_constraints: Some(seq!["ca"@]),
        san: None,
        ca: None,
    }
}

/// The bits of the key usage extension.
#[derive(Clone, Copy, Debug, PartialEq, Eq, Structural)]
pub struct KeyUsageFlags {
    pub critical: bool,
    pub digital_signature: bool,
    pub non_repudiation: bool,
    pub key_encipherment: bool,
    pub data_encipherment: bool,
    pub key_agreement: bool,
    pub key_cert_sign: bool,
    pub crl_sign: bool,
    pub encipher_only: bool,
    pub decipher_only: bool,
}

/// The bits that a list of key usage names selects: a bit is set exactly if
/// its name occurs in the list. Other names select nothing.
pub open spec fn spec_key_usage_flags(names: Seq<Seq<char>>) -> KeyUsageFlags {
    KeyUsageFlags {
        critical: names.contains("critical"@),
        digital_signature: names.contains("digital_signature"@),
        non_repudiation: names.contains("non_repudiation"@),
        key_encipherment: names.contains("key_encipherment"@),
        data_encipherment: names.contains("data_encipherment"@),
        key_agreement: names.contains("key_agreement"@),
        key_cert_sign: names.contains("key_cert_sign"@),
        crl_sign: names.contains("crl_sign"@),
        encipher_only: names.contains("encipher_only"@),
        decipher_only: names.contains("decipher_only"@),
    }
}

/// A purpose of the extended key usage extension.
#[derive(Clone, Copy, Debug, PartialEq, Eq, Structural)]
pub enum Purpose {
    ServerAuth,
    ClientAuth,
    CodeSigning,
    TimeStamping,
}

/// The purpose that a name stands for, if any. The name `critical` stands
/// for no purpose: it marks the extension.
pub open spec fn spec_purpose(name: Seq<char>) -> Option<Purpose> {
    if name == "critical"@ {
        None
    } else if name == "server_auth"@ {
        Some(Purpose::ServerAuth)
    } else if name == "client_auth"@ {
        Some(Purpose::ClientAuth)
    } else if name == "code_signing"@ {
        Some(Purpose::CodeSigning)
    } else if name == "time_stamping"@ {
        Some(Purpose::TimeStamping)
    } else {
        None
    }
}

/// The purposes that a list of names selects, in the order of the list and
/// with its repetitions.
pub open spec fn spec_purposes(names: Seq<Seq<char>>) -> Seq<Purpose>
    decreases names.len(),
{
    if names.len() == 0 {
        Seq::empty()
    } else {
        let before = spec_purposes(names.drop_last());
        match spec_purpose(names.last()) {
            Some(p) => before.push(p),
            None => before,
        }
    }
}

/// The extended key usage extension of a certificate.
#[derive(Clone, Debug, PartialEq, Eq)]
pub struct ExtendedUsage {
    pub critical: bool,
    pub purposes: Vec<Purpose>,
}

/// Whether a list of basic constraint names marks a certificate authority.
pub open spec fn spec_is_authority(constraints: Option<Seq<Seq<char>>>) -> bool {
    match constraints {
        Some(names) => names.contains("ca"@),
        None => false,
    }
}

/// The encoding of each name of a list.
pub open spec fn spec_san_kinds(names: Seq<Seq<char>>) -> Seq<SanKind> {
    Seq::new(names.len(), |i: int| spec_san_kind(names[i]))
}

/// A request made by `CertificateParameters::ca` is for a certificate
/// authority, and it allows the key to sign certificates.
pub proof fn lemma_authority_request(cn: Seq<char>, key_length: u32, validity_days: u32)
    ensures
        spec_is_authority(spec_ca(cn, key_length, validity_days).basic_constraints),
        spec_key_usage_flags(spec_ca(cn, key_length, validity_days).key_usage).key_cert_sign,
{
    let p = spec_ca(cn, key_length, validity_days);
    assert(p.basic_constraints->0[0] == "ca"@);
    assert(p.key_usage[2] == "key_cert_sign"@);
}

/// A leaf request is never for a certificate authority.
pub proof fn lemma_leaf_request(
    cn: Seq<char>,
    key_length: u32,
    validity_days: u32,
    purposes: Seq<Seq<char>>,
)
    ensures
        !spec_is_authority(spec_leaf(cn, key_length, validity_days, purposes).basic_constraints),
        !spec_is_authority(spec_default(cn).basic_constraints),
{
}

/// Whether `names` holds `name`.
pub fn has_name(names: &Vec<String>, name: &str) -> (r: bool)
    ensures
        r == texts(names@).contains(name@),
{
    let mut i: usize = 0;
    while i < names.len()
        invariant
            i <= names.len(),
            forall|j: int| 0 <= j < i ==> texts(names@)[j] != name@,
        decreases names.len() - i,
    {
        if same_text(names[i].as_str(), name) {
            assert(texts(names@)[i as int] == name@);
            return true;
        }
        i = i + 1;
    }
    false
}

/// The key usage bits that `names` selects.
pub fn key_usage_flags(names: &Vec<String>) -> (flags: KeyUsageFlags)
    ensures
        flags == spec_key_usage_flags(texts(names@)),
{
    KeyUsageFlags {
        critical: has_name(names, "critical"),
        digital_signature: has_name(names, "digital_signature"),
        non_repudiation: has_name(names, "non_repudiation"),
        key_encipherment: has_name(names, "key_encipherment"),
        data_encipherment: has_name(names, "data_encipherment"),
        key_agreement: has_name(names, "key_agreement"),
        key_cert_sign: has_name(names, "key_cert_sign"),
        crl_sign: has_name(names, "crl_sign"),
        encipher_only: has_name(names, "encipher_only"),
        decipher_only: has_name(names, "decipher_only"),
    }
}

/// The purpose that `name` stands for, if any.
pub fn purpose(name: &str) -> (r: Option<Purpose>)
    ensures
        r == spec_purpose(name@),
{
    if same_text(name, "critical") {
        None
    } else if same_text(name, "server_auth") {
        Some(Purpose::ServerAuth)
    } else if same_text(name, "client_auth") {
        Some(Purpose::ClientAuth)
    } else if same_text(name, "code_signing") {
        Some(Purpose::CodeSigning)
    } else if same_text(name, "time_stamping") {
        Some(Purpose::TimeStamping)
    } else {
        None
    }
}

/// The extended key usage extension that `names` selects.
pub fn extended_usage(names: &Vec<String>) -> (usage: ExtendedUsage)
    ensures
        usage.critical == texts(names@).contains("critical"@),
        usage.purposes@ == spec_purposes(texts(names@)),
{
    let mut purposes: Vec<Purpose> = Vec::new();
    let mut i: usize = 0;
    let ghost all = texts(names@);
    assert(all.take(0) =~= Seq::<Seq<char>>::empty());
    while i < names.len()
        invariant
            i <= names.len(),
            all == texts(names@),
            purposes@ == spec_purposes(all.take(i as int)),
        decreases names.len() - i,
    {
        proof {
            let next = all.take(i + 1);
            assert(next.drop_last() =~= all.take(i as int));
            assert(next.last() == names@[i as int]@);
        }
        match purpose(names[i].as_str()) {
            Some(p) => {
                purposes.push(p);
            },
            None => {},
        }
        i = i + 1;
    }
    assert(all.take(i as int) =~= all);
    ExtendedUsage { critical: has_name(names, "critical"), purposes }
}

/// Whether `constraints` marks a certificate authority.
pub fn is_authority(constraints: &Option<Vec<String>>) -> (r: bool)
    ensures
        r == spec_is_authority(opt_texts(*constraints)),
{
    match constraints {
        Some(names) => has_name(names, "ca"),
        None => false,
    }
}

/// The encoding of each of the alternative names `names`.
pub fn san_kinds(names: &Vec<String>) -> (kinds: Vec<SanKind>)
    ensures
        kinds@ == spec_san_kinds(texts(names@)),
{
    let mut kinds: Vec<SanKind> = Vec::new();
    let mut i: usize = 0;
    while i < names.len()
        invariant
            i <= names.len(),
            kinds@.len() == i,
            forall|j: int| 0 <= j < i ==> kinds@[j] == spec_san_kind(#[trigger] names@[j]@),
        decreases names.len() - i,
    {
        kinds.push(san_kind(names[i].as_str()));
        i = i + 1;
    }
    assert(kinds@ =~= spec_san_kinds(texts(names@)));
    kinds
}

fn plain_subject(cn: &str) -> (subject: Subject)
    ensures
        subject@ == spec_plain_subject(cn@),
{
    Subject {
        common_name: String::from_str(cn),
        country: None,
        organization: None,
        organization_unit: None,
        state_or_province_name: None,
        locality: None,
    }
}

fn leaf_key_usage() -> (names: Vec<String>)
    ensures
        texts(names@) == spec_leaf_key_usage(),
{
    let mut names: Vec<String> = Vec::new();
    names.push(String::from_str("digital_signature"));
    names.push(String::from_str("key_encipherment"));
    names.push(String::from_str("critical"));
    assert(texts(names@) =~= spec_leaf_key_usage());
    names
}

fn leaf<'a>(cn: &str, key_length: u32, validity_days: u32, purposes: Vec<String>) -> (p:
    CertificateParameters<'a>)
    ensures
        p@ == spec_leaf(cn@, key_length, validity_days, texts(purposes@)),
{
    CertificateParameters {
        key_length,
        serial_number: 0,
        validity_days,
        subject: plain_subject(cn),
        key_usage: leaf_key_usage(),
        extended_key_usage: Some(purposes),
        basic_constraints: None,
        san: None,
        ca: None,
    }
}

impl<'a> CertificateParameters<'a> {
    /// A request with a common name and no extension: 2048 bits, 100 days.
    pub fn default(cn: &str) -> (p: CertificateParameters<'a>)
        ensures
            p@ == spec_default(cn@),
    {
        let p = CertificateParameters {
            key_length: 2048,
            serial_number: 0,
            validity_days: 100,
            subject: plain_subject(cn),
            key_usage: Vec::new(),
            extended_key_usage: None,
            basic_constraints: None,
            san: None,
            ca: None,
        };
        assert(texts(p.key_usage@) =~= Seq::<Seq<char>>::empty());
        p
    }

    /// A request for a certificate that authenticates a client.
    pub fn client(cn: &str, key_length: u32, validity_days: u32) -> (p: CertificateParameters<'a>)
        ensures
            p@ == spec_client(cn@, key_length, validity_days),
    {
        let mut purposes: Vec<String> = Vec::new();
        purposes.push(String::from_str("client_auth"));
        assert(texts(purposes@) =~= seq!["client_auth"@]);
        leaf(cn, key_length, validity_days, purposes)
    }

    /// A request for a certificate that authenticates a server.
    pub fn server(cn: &str, key_length: u32, validity_days: u32) -> (p: CertificateParameters<'a>)
        ensures
            p@ == spec_server(cn@, key_length, validity_days),
    {
        let mut purposes: Vec<String> = Vec::new();
        purposes.push(String::from_str("server_auth"));
        assert(texts(purposes@) =~= seq!["server_auth"@]);
        leaf(cn, key_length, validity_days, purposes)
    }

    /// A request for a certificate that authenticates both a server and a client.
    pub fn client_and_server(cn: &str, key_length: u32, validity_days: u32) -> (p:
        CertificateParameters<'a>)
        ensures
            p@ == spec_client_and_server(cn@, key_length, validity_days),
    {
        let mut purposes: Vec<String> = Vec::new();
        purposes.push(String::from_str("server_auth"));
        purposes.push(String::from_str("client_auth"));
        assert(texts(purposes@) =~= seq!["server_auth"@, "client_auth"@]);
        leaf(cn, key_length, validity_days, purposes)
    }

    /// A request for the certificate of a certificate authority.
    pub fn ca(cn: &str, key_length: u32, validity_days: u32) -> (p: CertificateParameters<'a>)
        ensures
            p@ == spec_ca(cn@, key_length, validity_days),
    {
        let mut key_usage: Vec<String> = Vec::new();
        key_usage.push(String::from_str("digital_signature"));
        key_usage.push(String::from_str("key_encipherment"));
        key_usage.push(String::from_str("key_cert_sign"));
        key_usage.push(String::from_str("critical"));
        assert(texts(key_usage@) =~= spec_authority_key_usage());
        let mut constraints: Vec<String> = Vec::new();
        constraints.push(String::from_str("ca"));
        assert(texts(constraints@) =~= seq!["ca"@]);
        CertificateParameters {
            key_length,
            serial_number: 0,
            validity_days,
            subject: plain_subject(cn),
            key_usage,
            extended_key_usage: None,
            basic_constraints: Some(constraints),
            san: None,
            ca: None,
        }
    }
}

/// Whether every text and PEM input of a request is short enough to be
/// handed to the cryptographic library.
pub open spec fn spec_inputs_fit(p: ParametersView) -> bool {
    &&& text_fits(p.subject.common_name)
    &&& opt_text_fits(p.subject.country)
    &&& opt_text_fits(p.subject.organization)
    &&& opt_text_fits(p.subject.organization_unit)
    &&& opt_text_fits(p.subject.state_or_province_name)
    &&& opt_text_fits(p.subject.locality)
    &&& (p.san matches Some(names) ==> all_fit(names))
    &&& (p.ca matches Some(b) ==> b.cert.len() <= MAX_INPUT_BYTES && b.key.len() <= MAX_INPUT_BYTES)
}

/// Whether a validity period, counted in seconds, fits the platform's time
/// arithmetic. On a 64-bit platform every period does.
pub open spec fn spec_validity_fits(days: u32) -> bool {
    days * 86400 <= isize::MAX
}

/// The certificate on record as signer for a request signed by `signer`.
pub open spec fn spec_issuer(signer: Option<BundleView>) -> Option<Seq<u8>> {
    match signer {
        Some(s) => Some(s.cert),
        None => None,
    }
}

/// What holds of a bundle that was issued under the serial number `serial`
/// and signed by `signer`: it has that number and the signer's certificate
/// on record, its certificate is a PEM text that begins with the header of
/// a certificate, and its key is one that begins with the header of an RSA
/// private key.
pub open spec fn spec_fresh_bundle(b: BundleView, serial: u32, signer: Option<BundleView>) -> bool {
    &&& b.serial_number == Some(serial)
    &&& b.issuer == spec_issuer(signer)
    &&& begins_with(b.cert, spec_certificate_header())
    &&& begins_with(b.key, spec_rsa_private_key_header())
}

/// What holds of every outcome of issuing the request `p`.
///
/// A request with an input that is too long is refused as such, and one
/// whose inputs fit but whose validity period does not, as that. Every other
/// request either fails in the cryptographic library or yields a bundle of
/// two PEM texts with the serial number and the signer of the request on
/// record.
pub open spec fn spec_issued(p: ParametersView, r: Result<Box<Bundle>, CertError>) -> bool {
    if !spec_inputs_fit(p) {
        r matches Err(CertError::InputTooLong)
    } else if !spec_validity_fits(p.validity_days) {
        r matches Err(CertError::ValidityTooLong)
    } else {
        match r {
            Ok(b) => spec_fresh_bundle(b@, p.serial_number, p.ca),
            Err(e) => e is Crypto,
        }
    }
}

/// Whether the subject's entries are all short enough.
fn subject_fits(subject: &Subject) -> (r: bool)
    ensures
        r == {
            &&& text_fits(subject@.common_name)
            &&& opt_text_fits(subject@.country)
            &&& opt_text_fits(subject@.organization)
            &&& opt_text_fits(subject@.organization_unit)
            &&& opt_text_fits(subject@.state_or_province_name)
            &&& opt_text_fits(subject@.locality)
        },
{
    fits(subject.common_name.as_str()) && opt_fits(&subject.country) && opt_fits(
        &subject.organization,
    ) && opt_fits(&subject.organization_unit) && opt_fits(&subject.state_or_province_name)
        && opt_fits(&subject.locality)
}

/// Whether a validity period of `days` days can be handed on.
pub fn validity_fits(days: u32) -> (r: bool)
    ensures
        r == spec_validity_fits(days),
{
    let seconds: u64 = days as u64 * 86400;
    seconds <= isize::MAX as u64
}

/// The set `fields` with `name` added where `on` holds.
pub open spec fn spec_with_field(fields: Set<Seq<char>>, on: bool, name: Seq<char>) -> Set<
    Seq<char>,
> {
    if on {
        fields.insert(name)
    } else {
        fields
    }
}

/// The fields of the cryptographic library's key usage record that are set
/// for `flags`: one for each bit, under the bit's own name.
pub open spec fn spec_key_usage_fields(flags: KeyUsageFlags) -> Set<Seq<char>> {
    let f0 = Set::<Seq<char>>::empty();
    let f1 = spec_with_field(f0, flags.critical, "critical"@);
    let f2 = spec_with_field(f1, flags.digital_signature, "digital_signature"@);
    let f3 = spec_with_field(f2, flags.non_repudiation, "non_repudiation"@);
    let f4 = spec_with_field(f3, flags.key_encipherment, "key_encipherment"@);
    let f5 = spec_with_field(f4, flags.data_encipherment, "data_encipherment"@);
    let f6 = spec_with_field(f5, flags.key_agreement, "key_agreement"@);
    let f7 = spec_with_field(f6, flags.key_cert_sign, "key_cert_sign"@);
    let f8 = spec_with_field(f7, flags.crl_sign, "crl_sign"@);
    let f9 = spec_with_field(f8, flags.encipher_only, "encipher_only"@);
    spec_with_field(f9, flags.decipher_only, "decipher_only"@)
}

/// Whether `name` is the name of a key usage bit.
pub open spec fn spec_is_key_usage_name(name: Seq<char>) -> bool {
    ||| name == "critical"@
    ||| name == "digital_signature"@
    ||| name == "non_repudiation"@
    ||| name == "key_encipherment"@
    ||| name == "data_encipherment"@
    ||| name == "key_agreement"@
    ||| name == "key_cert_sign"@
    ||| name == "crl_sign"@
    ||| name == "encipher_only"@
    ||| name == "decipher_only"@
}

/// The key usage record that is handed to the cryptographic library for a
/// list of names has a field set exactly if the list holds the field's
/// name: every bit that the request names is asked for, and no other.
pub proof fn lemma_key_usage_fields_are_the_names(names: Seq<Seq<char>>, name: Seq<char>)
    ensures
        spec_key_usage_fields(spec_key_usage_flags(names)).contains(name) <==> names.contains(name)
            && spec_is_key_usage_name(name),
{
    reveal_strlit("critical");
    reveal_strlit("digital_signature");
    reveal_strlit("non_repudiation");
    reveal_strlit("key_encipherment");
    reveal_strlit("data_encipherment");
    reveal_strlit("key_agreement");
    reveal_strlit("key_cert_sign");
    reveal_strlit("crl_sign");
    reveal_strlit("encipher_only");
    reveal_strlit("decipher_only");
}

/// The name under which the cryptographic library knows a purpose.
pub open spec fn spec_purpose_item(purpose: Purpose) -> Seq<char> {
    match purpose {
        Purpose::ServerAuth => "serverAuth"@,
        Purpose::ClientAuth => "clientAuth"@,
        Purpose::CodeSigning => "codeSigning"@,
        Purpose::TimeStamping => "timeStamping"@,
    }
}

/// The names under which the cryptographic library knows a list of purposes.
pub open spec fn spec_purpose_items(purposes: Seq<Purpose>) -> Seq<Seq<char>> {
    Seq::new(purposes.len(), |i: int| spec_purpose_item(purposes[i]))
}

/// The fields of the cryptographic library's basic constraints record that
/// are set for a certificate: it is always critical, and it marks an
/// authority where `authority` holds.
pub open spec fn spec_basic_constraints_fields(authority: bool) -> Set<Seq<char>> {
    spec_with_field(Set::<Seq<char>>::empty().insert("critical"@), authority, "ca"@)
}

/// The alternative names as they are handed to the cryptographic library:
/// each name of the list, in order, marked as an IP address exactly if it is
/// written as one.
pub open spec fn spec_alt_names_items(names: Seq<Seq<char>>) -> Seq<(bool, Seq<char>)> {
    Seq::new(names.len(), |i: int| (crate::san::spec_is_ip(names[i]), names[i]))
}

/// The key usage record with the bits of `flags`.
fn collect_key_usage(flags: &KeyUsageFlags) -> (usage: KeyUsage)
    ensures
        key_usage_fields(usage) == spec_key_usage_fields(*flags),
{
    let mut usage = key_usage_new();
    if flags.critical {
        key_usage_critical(&mut usage);
    }
    if flags.digital_signature {
        key_usage_digital_signature(&mut usage);
    }
    if flags.non_repudiation {
        key_usage_non_repudiation(&mut usage);
    }
    if flags.key_encipherment {
        key_usage_key_encipherment(&mut usage);
    }
    if flags.data_encipherment {
        key_usage_data_encipherment(&mut usage);
    }
    if flags.key_agreement {
        key_usage_key_agreement(&mut usage);
    }
    if flags.key_cert_sign {
        key_usage_key_cert_sign(&mut usage);
    }
    if flags.crl_sign {
        key_usage_crl_sign(&mut usage);
    }
    if flags.encipher_only {
        key_usage_encipher_only(&mut usage);
    }
    if flags.decipher_only {
        key_usage_decipher_only(&mut usage);
    }
    usage
}

/// The extended key usage record with the purposes of `plan`, in order.
fn collect_extended_usage(plan: &ExtendedUsage) -> (usage: ExtendedKeyUsage)
    ensures
        extended_key_usage_items(usage) == spec_purpose_items(plan.purposes@),
        extended_key_usage_is_critical(usage) == plan.critical,
{
    let mut usage = extended_key_usage_new();
    if plan.critical {
        extended_key_usage_critical(&mut usage);
    }
    let ghost all = spec_purpose_items(plan.purposes@);
    let mut i: usize = 0;
    assert(extended_key_usage_items(usage) =~= all.take(0));
    while i < plan.purposes.len()
        invariant
            i <= plan.purposes.len(),
            all == spec_purpose_items(plan.purposes@),
            extended_key_usage_items(usage) == all.take(i as int),
            extended_key_usage_is_critical(usage) == plan.critical,
        decreases plan.purposes.len() - i,
    {
        match plan.purposes[i] {
            Purpose::ServerAuth => extended_key_usage_server_auth(&mut usage),
            Purpose::ClientAuth => extended_key_usage_client_auth(&mut usage),
            Purpose::CodeSigning => extended_key_usage_code_signing(&mut usage),
            Purpose::TimeStamping => extended_key_usage_time_stamping(&mut usage),
        }
        assert(all.take(i + 1) =~= all.take(i as int).push(all[i as int]));
        i = i + 1;
    }
    assert(all.take(i as int) =~= all);
    usage
}

/// The critical basic constraints record, for an authority or for a leaf.
fn collect_basic_constraints(authority: bool) -> (constraints: BasicConstraints)
    ensures
        basic_constraints_fields(constraints) == spec_basic_constraints_fields(authority),
{
    let mut constraints = basic_constraints_new();
    basic_constraints_critical(&mut constraints);
    if authority {
        basic_constraints_ca(&mut constraints);
    }
    constraints
}

/// An attribute of a distinguished name.
#[derive(Clone, Copy, Debug, PartialEq, Eq, Structural)]
pub enum NameField {
    /// CN
    CommonName,
    /// C
    Country,
    /// O
    Organization,
    /// OU
    OrganizationUnit,
    /// ST
    StateOrProvince,
    /// L
    Locality,
}

/// One entry of a distinguished name.
#[derive(Clone, Debug, PartialEq, Eq)]
pub struct NameEntry {
    pub field: NameField,
    pub value: String,
}

/// The view of each entry of a list.
pub open spec fn entry_views(entries: Seq<NameEntry>) -> Seq<(NameField, Seq<char>)> {
    Seq::new(entries.len(), |i: int| (entries[i].field, entries[i].value@))
}

/// The list `entries`, with an entry for `field` at its end where `value`
/// is present.
pub open spec fn spec_with_entry(
    entries: Seq<(NameField, Seq<char>)>,
    field: NameField,
    value: Option<Seq<char>>,
) -> Seq<(NameField, Seq<char>)> {
    match value {
        Some(v) => entries.push((field, v)),
        None => entries,
    }
}

/// The entries of the distinguished name of a subject: the common name
/// first, then those of country, organization, organizational unit, state
/// or province and locality that are present, in this order.
pub open spec fn spec_subject_entries(subject: SubjectView) -> Seq<(NameField, Seq<char>)> {
    let e0 = seq![(NameField::CommonName, subject.common_name)];
    let e1 = spec_with_entry(e0, NameField::Country, subject.country);
    let e2 = spec_with_entry(e1, NameField::Organization, subject.organization);
    let e3 = spec_with_entry(e2, NameField::OrganizationUnit, subject.organization_unit);
    let e4 = spec_with_entry(e3, NameField::StateOrProvince, subject.state_or_province_name);
    spec_with_entry(e4, NameField::Locality, subject.locality)
}

/// Whether the value of every entry of a list fits.
pub open spec fn spec_entries_fit(entries: Seq<(NameField, Seq<char>)>) -> bool {
    forall|i: int| 0 <= i < entries.len() ==> text_fits((#[trigger] entries[i]).1)
}

/// The entries of a subject whose texts all fit, fit all.
pub proof fn lemma_subject_entries_fit(subject: SubjectView)
    requires
        text_fits(subject.common_name),
        opt_text_fits(subject.country),
        opt_text_fits(subject.organization),
        opt_text_fits(subject.organization_unit),
        opt_text_fits(subject.state_or_province_name),
        opt_text_fits(subject.locality),
    ensures
        spec_entries_fit(spec_subject_entries(subject)),
{
    let e0 = seq![(NameField::CommonName, subject.common_name)];
    let e1 = spec_with_entry(e0, NameField::Country, subject.country);
    let e2 = spec_with_entry(e1, NameField::Organization, subject.organization);
    let e3 = spec_with_entry(e2, NameField::OrganizationUnit, subject.organization_unit);
    let e4 = spec_with_entry(e3, NameField::StateOrProvince, subject.state_or_province_name);
    assert(spec_entries_fit(e0));
    assert(spec_entries_fit(e1));
    assert(spec_entries_fit(e2));
    assert(spec_entries_fit(e3));
    assert(spec_entries_fit(e4));
}

fn push_entry(entries: &mut Vec<NameEntry>, field: NameField, value: &Option<String>)
    ensures
        entry_views(final(entries)@) == spec_with_entry(
            entry_views(old(entries)@),
            field,
            opt_text(*value),
        ),
{
    match value {
        Some(v) => {
            entries.push(NameEntry { field, value: v.clone() });
            assert(entry_views(entries@) =~= entry_views(old(entries)@).push((field, v@)));
        },
        None => {},
    }
}

/// The entries of the distinguished name of `subject`, in the order in
/// which they go into a certificate.
pub fn subject_entries(subject: &Subject) -> (entries: Vec<NameEntry>)
    ensures
        entry_views(entries@) == spec_subject_entries(subject@),
{
    let mut entries: Vec<NameEntry> = Vec::new();
    entries.push(NameEntry { field: NameField::CommonName, value: subject.common_name.clone() });
    assert(entry_views(entries@) =~= seq![(NameField::CommonName, subject@.common_name)]);
    push_entry(&mut entries, NameField::Country, &subject.country);
    push_entry(&mut entries, NameField::Organization, &subject.organization);
    push_entry(&mut entries, NameField::OrganizationUnit, &subject.organization_unit);
    push_entry(&mut entries, NameField::StateOrProvince, &subject.state_or_province_name);
    push_entry(&mut entries, NameField::Locality, &subject.locality);
    entries
}

/// The distinguished name of `subject`, made by handing the entries of
/// `subject_entries` to the cryptographic library one after the other.
fn subject_name(subject: &Subject) -> (r: Result<X509Name, ErrorStack>)
    requires
        text_fits(subject@.common_name),
        opt_text_fits(subject@.country),
        opt_text_fits(subject@.organization),
        opt_text_fits(subject@.organization_unit),
        opt_text_fits(subject@.state_or_province_name),
        opt_text_fits(subject@.locality),
{
    let entries = subject_entries(subject);
    proof {
        lemma_subject_entries_fit(subject@);
    }
    let mut name = name_builder()?;
    let mut i: usize = 0;
    while i < entries.len()
        invariant
            i <= entries.len(),
            spec_entries_fit(entry_views(entries@)),
        decreases entries.len() - i,
    {
        assert(text_fits(entry_views(entries@)[i as int].1));
        let value = entries[i].value.as_str();
        match entries[i].field {
            NameField::CommonName => name_append_common_name(&mut name, value)?,
            NameField::Country => name_append_country(&mut name, value)?,
            NameField::Organization => name_append_organization(&mut name, value)?,
            NameField::OrganizationUnit => name_append_organization_unit(&mut name, value)?,
            NameField::StateOrProvince => name_append_state_or_province(&mut name, value)?,
            NameField::Locality => name_append_locality(&mut name, value)?,
        }
        i = i + 1;
    }
    Ok(name_build(name))
}

/// The subject alternative name record that lists `names` in order, each
/// as an IP address or as a DNS name according to `san_kind`.
fn collect_alt_names(names: &Vec<String>) -> (list: SubjectAlternativeName)
    requires
        all_fit(texts(names@)),
    ensures
        alt_names_items(list) == spec_alt_names_items(texts(names@)),
{
    let mut list = alt_names_new();
    let ghost all = spec_alt_names_items(texts(names@));
    let mut i: usize = 0;
    assert(alt_names_items(list) =~= all.take(0));
    while i < names.len()
        invariant
            i <= names.len(),
            all_fit(texts(names@)),
            all == spec_alt_names_items(texts(names@)),
            alt_names_items(list) == all.take(i as int),
        decreases names.len() - i,
    {
        assert(text_fits(texts(names@)[i as int]));
        let name = names[i].as_str();
        match san_kind(name) {
            SanKind::Ip => alt_names_ip(&mut list, name),
            SanKind::Dns => alt_names_dns(&mut list, name),
        }
        assert(all.take(i + 1) =~= all.take(i as int).push(all[i as int]));
        i = i + 1;
    }
    assert(all.take(i as int) =~= all);
    list
}

impl<'a> CertificateParameters<'a> {
    /// Whether `gen_cert` can hand every input of this request on.
    pub fn inputs_fit(&self) -> (r: bool)
        ensures
            r == spec_inputs_fit(self@),
    {
        if !subject_fits(&self.subject) {
            return false;
        }
        if let Some(names) = &self.san {
            if !list_fits(names) {
                return false;
            }
        }
        if let Some(ca) = self.ca {
            if ca.cert.len() > MAX_INPUT_BYTES || ca.key.len() > MAX_INPUT_BYTES {
                return false;
            }
        }
        true
    }

    /// Generates a key, builds the certificate that this request describes
    /// and signs it: with the key of `ca` where there is one, else with the
    /// new key itself.
    ///
    /// Every step is a call into the cryptographic library and may fail;
    /// the first failure ends the signing. What comes back otherwise is the
    /// PEM text of the signed certificate with the PEM text of the new key,
    /// with the serial number and the signer of the request on record.
    fn sign_request(&self) -> (r: Result<Box<Bundle>, ErrorStack>)
        requires
            spec_inputs_fit(self@),
            spec_validity_fits(self.validity_days),
        ensures
            r matches Ok(b) ==> spec_fresh_bundle(b@, self.serial_number, self@.ca),
    {
        let rsa = rsa_generate(self.key_length)?;
        let key = rsa_private_key_to_pem(&rsa)?;
        let pkey = pkey_from_rsa(rsa)?;
        let issuer: Option<X509> = match self.ca {
            Some(ca) => Some(x509_from_pem(&ca.cert)?),
            None => None,
        };
        let issuer_key: Option<PKey<Private>> = match self.ca {
            Some(ca) => Some(pkey_private_key_from_pem(&ca.key)?),
            None => None,
        };
        let mut builder = x509_builder()?;
        builder_set_version(&mut builder, 2)?;
        builder_set_pubkey(&mut builder, &pkey)?;
        let conf = conf_new()?;

        let flags = key_usage_flags(&self.key_usage);
        let usage = collect_key_usage(&flags);
        builder_append_extension(&mut builder, key_usage_build(&usage)?)?;
        if let Some(names) = &self.extended_key_usage {
            let purposes = collect_extended_usage(&extended_usage(names));
            builder_append_extension(&mut builder, extended_key_usage_build(&purposes)?)?;
        }
        let name = subject_name(&self.subject)?;
        builder_set_subject_name(&mut builder, &name)?;

        let not_before = asn1_time_days_from_now(0)?;
        let not_after = asn1_time_days_from_now(self.validity_days)?;
        builder_set_not_before(&mut builder, &not_before)?;
        builder_set_not_after(&mut builder, &not_after)?;

        if let Some(names) = &self.san {
            let list = collect_alt_names(names);
            let extension = alt_names_build(&list, &builder, issuer.as_ref(), &conf)?;
            builder_append_extension(&mut builder, extension)?;
        }
        builder_set_serial_number(&mut builder, self.serial_number)?;
        if self.basic_constraints.is_some() {
            let constraints = collect_basic_constraints(is_authority(&self.basic_constraints));
            builder_append_extension(&mut builder, basic_constraints_build(&constraints)?)?;
        }
        match &issuer {
            Some(issuer_cert) => {
                let subject_id = subject_key_identifier(&builder, Some(issuer_cert), &conf)?;
                let authority_id = authority_key_identifier(&builder, issuer_cert, &conf, true)?;
                builder_append_extension(&mut builder, authority_id)?;
                builder_append_extension(&mut builder, subject_id)?;
            },
            None => {
                let subject_id = subject_key_identifier(&builder, None, &conf)?;
                builder_append_extension(&mut builder, subject_id)?;
            },
        }
        match &issuer {
            Some(issuer_cert) => {
                let issuer_name = x509_subject_name(issuer_cert)?;
                builder_set_issuer_name(&mut builder, &issuer_name)?;
            },
            None => {
                builder_set_issuer_name(&mut builder, &name)?;
            },
        }
        match &issuer_key {
            Some(signing_key) => builder_sign(&mut builder, signing_key, digest_sha256())?,
            None => builder_sign(&mut builder, &pkey, digest_sha256())?,
        }
        let cert = x509_to_pem(&builder_build(builder))?;
        let signed_with = match self.ca {
            Some(ca) => Some(ca.cert.clone()),
            None => None,
        };
        Ok(Box::new(Bundle { cert, key, serial_number: Some(self.serial_number), issuer: signed_with }))
    }

    /// Issues the certificate that this request describes, with a fresh key.
    ///
    /// The request is refused before any cryptographic work where an input
    /// is too long or the validity period does not fit. After that only the
    /// cryptographic library can fail. A certificate that comes back carries
    /// the serial number of the request.
    pub fn gen_cert(&self) -> (r: Result<Box<Bundle>, CertError>)
        ensures
            spec_issued(self@, r),
    {
        if !self.inputs_fit() {
            return Err(CertError::InputTooLong);
        }
        if !validity_fits(self.validity_days) {
            return Err(CertError::ValidityTooLong);
        }
        match self.sign_request() {
            Ok(bundle) => Ok(bundle),
            Err(e) => Err(CertError::Crypto(error_stack_message(&e))),
        }
    }
}

impl Bundle {
    /// The private key, read anew from its PEM text.
    pub fn private_key(&self) -> (r: Result<PKey<Private>, CertError>)
        ensures
            self.key@.len() > MAX_INPUT_BYTES ==> r matches Err(CertError::InputTooLong),
            self.key@.len() <= MAX_INPUT_BYTES ==> (r matches Err(e) ==> e is Crypto),
    {
        if self.key.len() > MAX_INPUT_BYTES {
            return Err(CertError::InputTooLong);
        }
        match pkey_private_key_from_pem(&self.key) {
            Ok(key) => Ok(key),
            Err(e) => Err(CertError::Crypto(error_stack_message(&e))),
        }
    }

    /// The certificate, PEM-encoded.
    pub fn to_pem(&self) -> (pem: Vec<u8>)
        ensures
            pem@ == self.cert@,
    {
        self.cert.clone()
    }

    /// The files that hold the bundle `filename` in the directory `dir`: the
    /// key file first, then the certificate file.
    pub fn file_names(dir: &str, filename: &str) -> (names: (String, String))
        ensures
            names.0@ == dir@ + "/"@ + filename@ + ".key"@,
            names.1@ == dir@ + "/"@ + filename@ + ".crt"@,
    {
        let mut key = concat3(dir, "/", filename);
        key.append(".key");
        let mut crt = concat3(dir, "/", filename);
        crt.append(".crt");
        (key, crt)
    }

    /// Loads a bundle from the contents of its two files. The certificate
    /// and the key must each be one that the cryptographic library can read.
    /// No serial number goes on record.
    pub fn from_pem(cert: Vec<u8>, key: Vec<u8>) -> (r: Result<Box<Bundle>, CertError>)
        ensures
            match r {
                Ok(b) => b@ == (BundleView {
                    cert: cert@,
                    key: key@,
                    serial_number: None,
                    issuer: None,
                })
                    && cert@.len() <= MAX_INPUT_BYTES && key@.len() <= MAX_INPUT_BYTES,
                Err(e) => if cert@.len() > MAX_INPUT_BYTES || key@.len() > MAX_INPUT_BYTES {
                    e is InputTooLong
                } else {
                    e is Crypto
                },
            },
    {
        if cert.len() > MAX_INPUT_BYTES || key.len() > MAX_INPUT_BYTES {
            return Err(CertError::InputTooLong);
        }
        match x509_from_pem(&cert) {
            Ok(_) => {},
            Err(e) => {
                return Err(CertError::Crypto(error_stack_message(&e)));
            },
        }
        match pkey_private_key_from_pem(&key) {
            Ok(_) => {},
            Err(e) => {
                return Err(CertError::Crypto(error_stack_message(&e)));
            },
        }
        Ok(Box::new(Bundle { cert, key, serial_number: None, issuer: None }))
    }
}

} // verus!
