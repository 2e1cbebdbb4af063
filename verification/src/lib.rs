//! The certificates of a Kubernetes cluster: three certificate authorities,
//! the leaf certificates that the cluster's components, hosts and users need,
//! and the store on disk that holds them.
//!
//! The library decides and signs; it never touches a disk. Whatever is to be
//! read is handed in as plain values, and whatever is to be written comes
//! back as a list of [`store::StoreOp`] for the caller to carry out.
//!
//! * [`cert`]: certificate requests, their meaning, and the signing itself.
//! * [`kubernetes_certs`]: the request, the signing authority and the place
//!   in the store of each role.
//! * [`hierarchy`]: the three authorities and their bootstrap.
//! * [`issuance`]: drawing serial numbers, and issuing the certificates of
//!   one role or of many in one run.
//! * [`ledger`]: the serial numbers of an authority.
//! * [`store`], [`link`]: the layout of the store, what filing a bundle
//!   writes, and how a symbolic link is put in place.
//! * [`laws`]: what holds of the store as a whole.
//! * [`san`], [`decimal`], [`text`]: names, numerals and strings.
//! * [`signer`]: the boundary to OpenSSL.

pub mod arg_parser;
pub mod cert;
pub mod config_parser;
pub mod decimal;
pub mod error;
pub mod hierarchy;
pub mod issuance;
pub mod kubeconfig;
pub mod kubernetes_certs;
pub mod laws;
pub mod ledger;
pub mod link;
pub mod san;
pub mod signer;
pub mod store;
pub mod text;

pub use cert::{Bundle, CertificateParameters, Subject};
pub use hierarchy::CA;
pub use san::is_ip;
