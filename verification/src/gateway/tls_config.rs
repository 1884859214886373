//! Where the TLS material lies and how a server configuration is made of it.

use crate::paths::{path_debug_text, path_exists};
use std::path::PathBuf;
use std::sync::Arc;
use vstd::prelude::*;
use vstd::string::*;

verus! {

pub struct TlsConfiguration {
    pub cert_path: PathBuf,
    pub key_path: PathBuf,
    pub auto_generate: bool,
}

/// `rustls::ServerConfig`, carried through as it comes.
#[verifier::external_type_specification]
#[verifier::external_body]
pub struct ExServerConfig(rustls::ServerConfig);

/// The three encodings in which a private key comes.
#[derive(Debug, Clone, Copy, PartialEq, Eq, Structural)]
pub enum PrivateKeyKind {
    Pkcs1,
    Pkcs8,
    Sec1,
}

/// A private key: its bytes in DER and the encoding they are in.
#[derive(Debug)]
pub struct PrivateKey {
    pub kind: PrivateKeyKind,
    pub der: Vec<u8>,
}

pub struct PrivateKeyView {
    pub kind: PrivateKeyKind,
    pub der: Seq<u8>,
}

impl View for PrivateKey {
    type V = PrivateKeyView;

    open spec fn view(&self) -> PrivateKeyView {
        PrivateKeyView { kind: self.kind, der: self.der@ }
    }
}

/// The bytes of each certificate of a chain.
pub open spec fn chain_view(certificates: Seq<Vec<u8>>) -> Seq<Seq<u8>> {
    certificates.map_values(|der: Vec<u8>| der@)
}

/// The view of what reading a key gave.
pub open spec fn read_key_view(key: Option<Option<PrivateKey>>) -> Option<Option<PrivateKeyView>> {
    match key {
        None => None,
        Some(None) => Some(None),
        Some(Some(k)) => Some(Some(k@)),
    }
}

/// The certificates of the PEM text `pem`, each in DER, as
/// `rustls_pemfile::certs` reads them; `None` where a section cannot be read.
pub uninterp spec fn pem_certificates(pem: Seq<u8>) -> Option<Seq<Seq<u8>>>;

/// The first private key of the PEM text `pem`, as
/// `rustls_pemfile::private_key` reads it: `None` where a section cannot
/// be read, `Some(None)` where no section holds a private key.
pub uninterp spec fn pem_private_key(pem: Seq<u8>) -> Option<Option<PrivateKeyView>>;

/// Reads the certificates of `pem` with `rustls_pemfile::certs`, all of
/// them or none: one section that cannot be read makes the result `None`.
/// What comes back is `pem_certificates`, each certificate as its bytes.
#[verifier::external_body]
fn read_certificates(pem: &[u8]) -> (certificates: Option<Vec<Vec<u8>>>)
    ensures
        match certificates {
            Some(chain) => pem_certificates(pem@) == Some(chain_view(chain@)),
            None => pem_certificates(pem@) is None,
        },
{
    let mut reader = pem;
    rustls_pemfile::certs(&mut reader).map(|c| c.map(|der| der.to_vec())).collect::<
        Result<Vec<_>, _>,
    >().ok()
}

/// Reads the first private key of `pem` with `rustls_pemfile::private_key`
/// and hands it back as its bytes with its encoding. What comes back is
/// `pem_private_key`. The outer `None` is a section that cannot be read,
/// the inner one a text without a private key; a key in an encoding other
/// than the three, which `rustls_pemfile` does not yield, would count as
/// one that cannot be read.
#[verifier::external_body]
fn read_private_key(pem: &[u8]) -> (key: Option<Option<PrivateKey>>)
    ensures
        read_key_view(key) == pem_private_key(pem@),
{
    let mut reader = pem;
    match rustls_pemfile::private_key(&mut reader) {
        Ok(Some(rustls::pki_types::PrivateKeyDer::Pkcs1(k))) => Some(
            Some(PrivateKey { kind: PrivateKeyKind::Pkcs1, der: k.secret_pkcs1_der().to_vec() }),
        ),
        Ok(Some(rustls::pki_types::PrivateKeyDer::Pkcs8(k))) => Some(
            Some(PrivateKey { kind: PrivateKeyKind::Pkcs8, der: k.secret_pkcs8_der().to_vec() }),
        ),
        Ok(Some(rustls::pki_types::PrivateKeyDer::Sec1(k))) => Some(
            Some(PrivateKey { kind: PrivateKeyKind::Sec1, der: k.secret_sec1_der().to_vec() }),
        ),
        Ok(None) => Some(None),
        _ => None,
    }
}

/// Builds a server configuration without client authentication from one
/// certificate chain and its key, with `rustls::ServerConfig::builder`,
/// `with_no_client_auth` and `with_single_cert`. The call fails where
/// rustls cannot load the key, and the failure comes back as its text.
/// Loading an ECDSA key draws on the system's random source, so whether the
/// call succeeds is not a matter of the key alone, and nothing is claimed
/// of the result.
#[verifier::external_body]
fn build_server_config(certificates: Vec<Vec<u8>>, key: PrivateKey) -> (config: Result<
    rustls::ServerConfig,
    String,
>) {
    let key_der = match key.kind {
        PrivateKeyKind::Pkcs1 => rustls::pki_types::PrivateKeyDer::Pkcs1(key.der.into()),
        PrivateKeyKind::Pkcs8 => rustls::pki_types::PrivateKeyDer::Pkcs8(key.der.into()),
        PrivateKeyKind::Sec1 => rustls::pki_types::PrivateKeyDer::Sec1(key.der.into()),
    };
    let chain = certificates.into_iter().map(rustls::pki_types::CertificateDer::from).collect();
    match rustls::ServerConfig::builder().with_no_client_auth().with_single_cert(chain, key_der) {
        Ok(config) => Ok(config),
        Err(e) => Err(e.to_string()),
    }
}

/// Why material that was read as `certificates` and `key` cannot make a
/// configuration, as far as reading decides: `None` where the certificates
/// were read and a key was found.
pub open spec fn unreadable_parts(
    certificates: Option<Seq<Seq<u8>>>,
    key: Option<Option<PrivateKeyView>>,
) -> Option<Seq<char>> {
    if certificates is None {
        Some("Failed to parse certificate"@)
    } else if key is None {
        Some("Failed to parse private key"@)
    } else if key == Some(None::<PrivateKeyView>) {
        Some("No private key found"@)
    } else {
        None
    }
}

/// The message for a key that rustls refused with `detail`.
pub open spec fn build_failure(detail: Seq<char>) -> Seq<char> {
    "Failed to build TLS config: "@ + detail
}

/// What making a configuration of material read as `certificates` and
/// `key` gives. Material that could not be read gives the reason for it.
/// Material that was read goes to the builder: what comes back is a
/// configuration or the builder's failure.
pub open spec fn is_config_of(
    certificates: Option<Seq<Seq<u8>>>,
    key: Option<Option<PrivateKeyView>>,
    result: Result<Arc<rustls::ServerConfig>, String>,
) -> bool {
    match unreadable_parts(certificates, key) {
        Some(reason) => result matches Err(message) && message@ == reason,
        None => match result {
            Ok(_) => true,
            Err(message) => "Failed to build TLS config: "@.is_prefix_of(message@),
        },
    }
}

/// What validating gives for a configuration that may or may not have its
/// material generated, where the certificate file is there or not, and the
/// key file is there or not. A missing file is an error unless it may be
/// generated; the certificate is named first.
pub open spec fn is_validated(
    auto_generate: bool,
    cert_exists: bool,
    key_exists: bool,
    result: Result<(), String>,
) -> bool {
    if auto_generate || (cert_exists && key_exists) {
        result is Ok
    } else {
        match result {
            Ok(_) => false,
            Err(message) => if !cert_exists {
                "Certificate not found: "@.is_prefix_of(message@)
            } else {
                "Key not found: "@.is_prefix_of(message@)
            },
        }
    }
}

impl TlsConfiguration {
    /// A configuration that lets missing material be generated.
    pub fn new(cert_path: PathBuf, key_path: PathBuf) -> (config: Self)
        ensures
            config.cert_path == cert_path,
            config.key_path == key_path,
            config.auto_generate,
    {
        Self { cert_path, key_path, auto_generate: true }
    }

    /// Whether the configuration can be used, given which of the two files
    /// are there. A missing file is an error unless it may be generated;
    /// the certificate is looked at first.
    pub fn validate_with(&self, cert_exists: bool, key_exists: bool) -> (result: Result<(), String>)
        ensures
            is_validated(self.auto_generate, cert_exists, key_exists, result),
            result is Ok <==> self.auto_generate || (cert_exists && key_exists),
    {
        if !cert_exists && !self.auto_generate {
            return Err(
                "Certificate not found: ".to_string().concat(
                    path_debug_text(&self.cert_path).as_str(),
                ),
            );
        }
        if !key_exists && !self.auto_generate {
            return Err(
                "Key not found: ".to_string().concat(path_debug_text(&self.key_path).as_str()),
            );
        }
        Ok(())
    }

    /// Whether the configuration can be used, by what is on disk.
    pub fn validate(&self) -> (result: Result<(), String>)
        ensures
            exists|cert_exists: bool, key_exists: bool| #[trigger]
                is_validated(self.auto_generate, cert_exists, key_exists, result),
            self.auto_generate ==> result is Ok,
            result matches Err(message) ==> "Certificate not found: "@.is_prefix_of(message@)
                || "Key not found: "@.is_prefix_of(message@),
    {
        let cert_exists = path_exists(&self.cert_path);
        let key_exists = path_exists(&self.key_path);
        let result = self.validate_with(cert_exists, key_exists);
        assert(is_validated(self.auto_generate, cert_exists, key_exists, result));
        result
    }

    /// What the builder's answer becomes: its configuration, shared, or its
    /// failure under the heading of the build.
    pub fn config_from_built(built: Result<rustls::ServerConfig, String>) -> (result: Result<
        Arc<rustls::ServerConfig>,
        String,
    >)
        ensures
            result is Ok <==> built is Ok,
            result matches Ok(shared) ==> built matches Ok(config) && *shared == config,
            built matches Err(detail) ==> (result matches Err(message) && message@
                == build_failure(detail@)),
    {
        match built {
            Ok(config) => Ok(Arc::new(config)),
            Err(detail) => Err("Failed to build TLS config: ".to_string().concat(detail.as_str())),
        }
    }

    /// A server configuration from what reading the certificates and the
    /// key gave. The certificates are looked at first, then the key; what
    /// was read goes to the builder.
    pub fn config_from_parts(certificates: Option<Vec<Vec<u8>>>, key: Option<Option<PrivateKey>>) -> (result:
        Result<Arc<rustls::ServerConfig>, String>)
        ensures
            is_config_of(
                match certificates {
                    Some(chain) => Some(chain_view(chain@)),
                    None => None,
                },
                read_key_view(key),
                result,
            ),
    {
        let certificates = match certificates {
            Some(certificates) => certificates,
            None => {
                return Err("Failed to parse certificate".to_string());
            },
        };
        let key = match key {
            None => {
                return Err("Failed to parse private key".to_string());
            },
            Some(None) => {
                return Err("No private key found".to_string());
            },
            Some(Some(key)) => key,
        };
        Self::config_from_built(build_server_config(certificates, key))
    }

    /// A server configuration from the PEM text of a certificate chain and
    /// of its private key. What cannot be read is an error, the
    /// certificates first: a section of certificates that cannot be read,
    /// a section of the key text that cannot be read, a key text without a
    /// key. What was read goes to rustls, which makes the configuration or
    /// refuses the key.
    pub fn load_config(cert_pem: &[u8], key_pem: &[u8]) -> (result: Result<
        Arc<rustls::ServerConfig>,
        String,
    >)
        ensures
            is_config_of(pem_certificates(cert_pem@), pem_private_key(key_pem@), result),
            unreadable_parts(pem_certificates(cert_pem@), pem_private_key(key_pem@)) matches Some(
                reason,
            ) ==> (result matches Err(message) && message@ == reason),
            unreadable_parts(pem_certificates(cert_pem@), pem_private_key(key_pem@)) is None ==> (
            result is Ok || (result matches Err(message) && "Failed to build TLS config: "@.is_prefix_of(
                message@,
            ))),
    {
        let certificates = read_certificates(cert_pem);
        let key = read_private_key(key_pem);
        Self::config_from_parts(certificates, key)
    }
}

} // verus!
