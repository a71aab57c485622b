//! Building the TLS server configuration out of PEM-encoded key material:
//! the certificate chain must hold at least one certificate and the key
//! file exactly one PKCS#8 private key.
//!
//! Reading the PEM files from disk happens outside the library; their
//! bytes are handed in. The PEM parse and the final configuration are
//! outside calls; every rule about their outcomes is decided here.

use vstd::prelude::*;

verus! {

#[verifier::external_type_specification]
#[verifier::external_body]
pub struct ExServerConfig(rustls::ServerConfig);

#[verifier::external_type_specification]
#[verifier::external_body]
pub struct ExTlsError(rustls::Error);

#[verifier::external_type_specification]
#[verifier::external_body]
pub struct ExIoError(std::io::Error);

/// What can go wrong building the TLS configuration.
#[derive(Debug)]
pub enum TlsConfigError {
    /// The PEM bytes hold no usable certificate chain.
    Certificate,
    /// The PEM bytes do not hold exactly one PKCS#8 private key.
    PrivateKey,
    /// A configured certificate or key path could not be used.
    UnresolvablePath,
    /// The TLS backend rejected the key material.
    TlsError(rustls::Error),
}

/// The DER certificates that `rustls_pemfile::certs` extracts from the
/// given PEM bytes, or `None` when the PEM structure is rejected.
pub uninterp spec fn pem_certs_of(b: Seq<u8>) -> Option<Seq<Seq<u8>>>;

/// The DER PKCS#8 keys that `rustls_pemfile::pkcs8_private_keys`
/// extracts from the given PEM bytes, or `None` when rejected.
pub uninterp spec fn pem_keys_of(b: Seq<u8>) -> Option<Seq<Seq<u8>>>;

/// Relies on `rustls_pemfile::certs`: the DER contents of every
/// CERTIFICATE section of the PEM bytes, in order; reading from a byte
/// slice, the outcome depends on the bytes alone.
#[verifier::external_body]
fn pem_certs(b: &Vec<u8>) -> (r: Result<Vec<Vec<u8>>, std::io::Error>)
    ensures
        r is Ok <==> pem_certs_of(b@) is Some,
        r is Ok ==> Some(r->Ok_0.deep_view()) == pem_certs_of(b@),
{
    rustls_pemfile::certs(&mut b.as_slice())
}

/// Relies on `rustls_pemfile::pkcs8_private_keys`: the DER contents of
/// every PRIVATE KEY section of the PEM bytes, in order; reading from a
/// byte slice, the outcome depends on the bytes alone.
#[verifier::external_body]
fn pem_pkcs8_keys(b: &Vec<u8>) -> (r: Result<Vec<Vec<u8>>, std::io::Error>)
    ensures
        r is Ok <==> pem_keys_of(b@) is Some,
        r is Ok ==> Some(r->Ok_0.deep_view()) == pem_keys_of(b@),
{
    rustls_pemfile::pkcs8_private_keys(&mut b.as_slice())
}

/// Whether rustls accepts the given DER chain and key as server key
/// material: `with_single_cert` parses the key bytes and succeeds or
/// fails on the arguments alone.
pub uninterp spec fn rustls_accepts(certs: Seq<Seq<u8>>, key: Seq<u8>) -> bool;

/// Relies on `rustls::ServerConfig::builder` with safe defaults, no
/// client authentication, and `with_single_cert`: a server configuration
/// for the given DER chain and key. Success is decided by parsing the
/// key material, so it depends on the arguments alone.
#[verifier::external_body]
fn make_server_config(cert_ders: Vec<Vec<u8>>, key_der: Vec<u8>) -> (r: Result<
    rustls::ServerConfig,
    rustls::Error,
>)
    ensures
        r is Ok <==> rustls_accepts(cert_ders.deep_view(), key_der@),
{
    let chain: Vec<rustls::Certificate> = cert_ders.into_iter().map(rustls::Certificate).collect();
    rustls::ServerConfig::builder().with_safe_defaults().with_no_client_auth().with_single_cert(
        chain,
        rustls::PrivateKey(key_der),
    )
}

/// The certificate chain of a PEM file: every certificate it holds, and
/// at least one.
pub fn load_cert(pem: &Vec<u8>) -> (r: Result<Vec<Vec<u8>>, TlsConfigError>)
    ensures
        r is Ok <==> (pem_certs_of(pem@) matches Some(cs) && cs.len() > 0),
        r is Ok ==> Some(r->Ok_0.deep_view()) == pem_certs_of(pem@),
        r is Err ==> (r->Err_0 is Certificate),
{
    match pem_certs(pem) {
        Err(_) => Err(TlsConfigError::Certificate),
        Ok(certs) => {
            if certs.len() == 0 {
                Err(TlsConfigError::Certificate)
            } else {
                Ok(certs)
            }
        },
    }
}

/// The private key of a PEM file: it must hold exactly one PKCS#8 key.
pub fn load_priv_key(pem: &Vec<u8>) -> (r: Result<Vec<u8>, TlsConfigError>)
    ensures
        r is Ok <==> (pem_keys_of(pem@) matches Some(ks) && ks.len() == 1),
        r is Ok ==> Some(r->Ok_0@) == Some(pem_keys_of(pem@)->0[0]),
        r is Err ==> (r->Err_0 is PrivateKey),
{
    match pem_pkcs8_keys(pem) {
        Err(_) => Err(TlsConfigError::PrivateKey),
        Ok(mut keys) => {
            if keys.len() == 1 {
                let k = keys.pop();
                match k {
                    Some(key) => {
                        proof {
                            assert(key@ =~= pem_keys_of(pem@)->0[0]);
                        }
                        Ok(key)
                    },
                    None => Err(TlsConfigError::PrivateKey),
                }
            } else {
                Err(TlsConfigError::PrivateKey)
            }
        },
    }
}

/// Builds the server TLS configuration from PEM bytes.
pub struct TlsConfigBuilder {
    pub https_enabled: bool,
    pub cert_pem: Vec<u8>,
    pub priv_key_pem: Vec<u8>,
}

impl TlsConfigBuilder {
    pub fn new(https_enabled: bool, cert_pem: Vec<u8>, priv_key_pem: Vec<u8>) -> (r:
        TlsConfigBuilder)
        ensures
            r.https_enabled == https_enabled,
            r.cert_pem@ == cert_pem@,
            r.priv_key_pem@ == priv_key_pem@,
    {
        TlsConfigBuilder { https_enabled, cert_pem, priv_key_pem }
    }

    /// The server configuration for the held key material. An empty or
    /// unreadable certificate chain fails with `Certificate`; zero or
    /// several private keys fail with `PrivateKey`; with both in hand,
    /// the build succeeds exactly when rustls accepts the pair, and its
    /// rejection surfaces as `TlsError`.
    pub fn build(&self) -> (r: Result<rustls::ServerConfig, TlsConfigError>)
        ensures
            !(pem_certs_of(self.cert_pem@) matches Some(cs) && cs.len() > 0) ==> r is Err
                && (r->Err_0 is Certificate),
            (pem_certs_of(self.cert_pem@) matches Some(cs) && cs.len() > 0) && !(pem_keys_of(
                self.priv_key_pem@,
            ) matches Some(ks) && ks.len() == 1) ==> r is Err && (r->Err_0 is PrivateKey),
            (pem_certs_of(self.cert_pem@) matches Some(cs) && cs.len() > 0) && (pem_keys_of(
                self.priv_key_pem@,
            ) matches Some(ks) && ks.len() == 1) ==> {
                &&& r is Ok <==> rustls_accepts(
                    pem_certs_of(self.cert_pem@)->0,
                    pem_keys_of(self.priv_key_pem@)->0[0],
                )
                &&& r is Err ==> (r->Err_0 is TlsError)
            },
            r is Err ==> (r->Err_0 is Certificate) || (r->Err_0 is PrivateKey) || (r->Err_0
                is TlsError),
    {
        let cert_chain = match load_cert(&self.cert_pem) {
            Ok(v) => v,
            Err(e) => {
                return Err(e);
            },
        };
        let priv_key = match load_priv_key(&self.priv_key_pem) {
            Ok(v) => v,
            Err(e) => {
                return Err(e);
            },
        };
        match make_server_config(cert_chain, priv_key) {
            Ok(cfg) => Ok(cfg),
            Err(e) => Err(TlsConfigError::TlsError(e)),
        }
    }
}

} // verus!
