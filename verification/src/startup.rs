//! What the server needs before it listens, an address, videos, certificates and
//! a private key, and what a viewer trusts.

use vstd::prelude::*;

verus! {

/// `std::io::Error`, carried through as it is. Nothing is claimed of it.
#[verifier::external_type_specification]
#[verifier::external_body]
pub struct ExIoError(std::io::Error);

/// Why the server cannot run.
#[derive(Debug, Clone, Copy, PartialEq, Eq, Structural)]
pub enum StartupError {
    /// There is no video.
    NoVideos,
    /// There is no private key.
    NoPrivateKey,
}

impl StartupError {
    /// The error in words.
    pub fn message(self) -> (message: String)
        ensures
            message@ == match self {
                StartupError::NoVideos => "No MP4 files found in server/videos directory"@,
                StartupError::NoPrivateKey => "Failed to load private key"@,
            },
    {
        match self {
            StartupError::NoVideos => "No MP4 files found in server/videos directory".to_string(),
            StartupError::NoPrivateKey => "Failed to load private key".to_string(),
        }
    }
}

/// Whether an address is the one to listen on.
pub open spec fn listens_on(given: Option<String>, address: Seq<char>) -> bool {
    address == match given {
        Some(given) => given@,
        None => "127.0.0.1:8080"@,
    }
}

/// The address to listen on: the given one, or one of this machine alone.
pub fn listen_address(given: Option<String>) -> (address: String)
    ensures
        listens_on(given, address@),
{
    match given {
        Some(address) => address,
        None => "127.0.0.1:8080".to_string(),
    }
}

/// Whether a number of channels is the one that so many video files make.
pub open spec fn counts(files: nat, count: Result<usize, StartupError>) -> bool {
    if files == 0 {
        count == Err::<usize, StartupError>(StartupError::NoVideos)
    } else {
        count == Ok::<usize, StartupError>(files as usize)
    }
}

/// The number of channels that some video files make. There must be one at
/// least.
pub fn count_channels(files: &Vec<String>) -> (count: Result<usize, StartupError>)
    ensures
        counts(files@.len(), count),
{
    if files.len() == 0 {
        Err(StartupError::NoVideos)
    } else {
        Ok(files.len())
    }
}

/// A certificate, in DER form.
#[derive(Debug, PartialEq, Eq)]
pub struct Certificate(pub Vec<u8>);

/// A private key, in DER form.
#[derive(Debug, PartialEq, Eq)]
pub struct PrivateKey(pub Vec<u8>);

/// Why a PEM file could not be read.
#[derive(Debug)]
pub enum LoadError {
    /// A section of the file is not well-formed.
    Pem(std::io::Error),
}

/// The bytes of some sections.
pub open spec fn sections(vecs: Seq<Vec<u8>>) -> Seq<Seq<u8>> {
    vecs.map_values(|vec: Vec<u8>| vec@)
}

/// The DER forms of some certificates.
pub open spec fn certificate_bytes(certs: Seq<Certificate>) -> Seq<Seq<u8>> {
    certs.map_values(|cert: Certificate| cert.0@)
}

/// The DER forms of some private keys.
pub open spec fn key_bytes(keys: Seq<PrivateKey>) -> Seq<Seq<u8>> {
    keys.map_values(|key: PrivateKey| key.0@)
}

/// Whether a section begins anywhere in a PEM file: the bytes `-----BEGIN `.
pub open spec fn has_section(pem: Seq<u8>) -> bool {
    exists|at: int|
        0 <= at <= pem.len() - 11 && #[trigger] pem.subrange(at, at + 11) == seq![
            0x2du8,
            0x2du8,
            0x2du8,
            0x2du8,
            0x2du8,
            0x42u8,
            0x45u8,
            0x47u8,
            0x49u8,
            0x4eu8,
            0x20u8,
        ]
}

/// The certificates in a PEM file, if the file is well-formed.
pub uninterp spec fn pem_certificates(pem: Seq<u8>) -> Option<Seq<Seq<u8>>>;

/// The PKCS #8 private keys in a PEM file, if the file is well-formed.
pub uninterp spec fn pem_private_keys(pem: Seq<u8>) -> Option<Seq<Seq<u8>>>;

/// `rustls_pemfile::certs` on the bytes of a file: the DER form of each
/// certificate, in order, or an error if a section is not well-formed. Without
/// any section there is no certificate and no error.
#[verifier::external_body]
fn read_certs(pem: &[u8]) -> (found: Result<Vec<Vec<u8>>, std::io::Error>)
    ensures
        match found {
            Ok(certs) => pem_certificates(pem@) == Some(sections(certs@)),
            Err(_) => pem_certificates(pem@) is None,
        },
        !has_section(pem@) ==> found is Ok && found->Ok_0@.len() == 0,
{
    rustls_pemfile::certs(&mut &pem[..])
}

/// `rustls_pemfile::pkcs8_private_keys` on the bytes of a file: the DER form of
/// each PKCS #8 private key, in order, or an error if a section is not
/// well-formed. Without any section there is no key and no error.
#[verifier::external_body]
fn read_private_keys(pem: &[u8]) -> (found: Result<Vec<Vec<u8>>, std::io::Error>)
    ensures
        match found {
            Ok(keys) => pem_private_keys(pem@) == Some(sections(keys@)),
            Err(_) => pem_private_keys(pem@) is None,
        },
        !has_section(pem@) ==> found is Ok && found->Ok_0@.len() == 0,
{
    rustls_pemfile::pkcs8_private_keys(&mut &pem[..])
}

/// The certificates with given DER forms.
pub fn certificates_from(ders: Vec<Vec<u8>>) -> (certs: Vec<Certificate>)
    ensures
        certificate_bytes(certs@) == sections(ders@),
{
    let mut certs: Vec<Certificate> = Vec::new();
    for der in it: ders
        invariant
            certificate_bytes(certs@) == sections(it.seq().take(it.index())),
            it.seq() == ders@,
    {
        let ghost before = certs@;
        certs.push(Certificate(der));
        proof {
            assert(certificate_bytes(certs@) =~= certificate_bytes(before).push(der@));
            assert(sections(it.seq().take(it.index() + 1)) =~= sections(
                it.seq().take(it.index()),
            ).push(der@));
        }
    }
    certs
}

/// The private keys with given DER forms.
pub fn private_keys_from(ders: Vec<Vec<u8>>) -> (keys: Vec<PrivateKey>)
    ensures
        key_bytes(keys@) == sections(ders@),
{
    let mut keys: Vec<PrivateKey> = Vec::new();
    for der in it: ders
        invariant
            key_bytes(keys@) == sections(it.seq().take(it.index())),
            it.seq() == ders@,
    {
        let ghost before = keys@;
        keys.push(PrivateKey(der));
        proof {
            assert(key_bytes(keys@) =~= key_bytes(before).push(der@));
            assert(sections(it.seq().take(it.index() + 1)) =~= sections(
                it.seq().take(it.index()),
            ).push(der@));
        }
    }
    keys
}

/// The certificates in a PEM file, in order.
pub fn load_certs(cert_pem: &[u8]) -> (certs: Result<Vec<Certificate>, LoadError>)
    ensures
        match certs {
            Ok(certs) => pem_certificates(cert_pem@) == Some(certificate_bytes(certs@)),
            Err(_) => pem_certificates(cert_pem@) is None,
        },
        !has_section(cert_pem@) ==> (certs matches Ok(certs) && certs@.len() == 0),
{
    match read_certs(cert_pem) {
        Ok(ders) => {
            let certs = certificates_from(ders);
            assert(certificate_bytes(certs@).len() == certs@.len());
            assert(sections(ders@).len() == ders@.len());
            Ok(certs)
        },
        Err(error) => Err(LoadError::Pem(error)),
    }
}

/// The PKCS #8 private keys in a PEM file, in order.
pub fn load_private_keys(key_pem: &[u8]) -> (keys: Result<Vec<PrivateKey>, LoadError>)
    ensures
        match keys {
            Ok(keys) => pem_private_keys(key_pem@) == Some(key_bytes(keys@)),
            Err(_) => pem_private_keys(key_pem@) is None,
        },
        !has_section(key_pem@) ==> (keys matches Ok(keys) && keys@.len() == 0),
{
    match read_private_keys(key_pem) {
        Ok(ders) => {
            let keys = private_keys_from(ders);
            assert(key_bytes(keys@).len() == keys@.len());
            assert(sections(ders@).len() == ders@.len());
            Ok(keys)
        },
        Err(error) => Err(LoadError::Pem(error)),
    }
}

/// Whether a private key is the one to use of some.
pub open spec fn is_used(keys: Seq<PrivateKey>, key: Result<PrivateKey, StartupError>) -> bool {
    if keys.len() == 0 {
        key == Err::<PrivateKey, StartupError>(StartupError::NoPrivateKey)
    } else {
        key == Ok::<PrivateKey, StartupError>(keys[0])
    }
}

/// The private key that the server uses: the first. There must be one.
pub fn first_private_key(keys: Vec<PrivateKey>) -> (key: Result<PrivateKey, StartupError>)
    ensures
        is_used(keys@, key),
{
    let mut keys = keys;
    if keys.len() == 0 {
        Err(StartupError::NoPrivateKey)
    } else {
        Ok(keys.remove(0))
    }
}

/// `rustls::RootCertStore`, the certificates that a viewer trusts. Nothing is
/// claimed of it here.
#[verifier::external_type_specification]
#[verifier::external_body]
pub struct ExRootCertStore(rustls::RootCertStore);

/// `rustls::Error`, carried through as it is. Nothing is claimed of it.
#[verifier::external_type_specification]
#[verifier::external_body]
pub struct ExRustlsError(rustls::Error);

/// What is kept of a certificate that is trusted: its subject, its public key and
/// its constraints on names, if the bytes are taken for a certificate at all.
pub uninterp spec fn trust_anchor(der: Seq<u8>) -> Option<
    (Seq<u8>, Seq<u8>, Option<Seq<u8>>),
>;

/// What a store keeps of the certificates in it, in the order in which they were
/// added.
pub uninterp spec fn anchors(store: rustls::RootCertStore) -> Seq<
    (Seq<u8>, Seq<u8>, Option<Seq<u8>>),
>;

/// `rustls::RootCertStore::empty`: a store without any certificate.
#[verifier::external_body]
fn no_roots() -> (store: rustls::RootCertStore)
    ensures
        anchors(store).len() == 0,
{
    rustls::RootCertStore::empty()
}

/// `rustls::RootCertStore::add`: puts what is kept of a certificate behind the
/// others, or leaves the store as it is and gives an error if the bytes are not
/// taken for a certificate.
#[verifier::external_body]
fn add_root(store: &mut rustls::RootCertStore, der: Vec<u8>) -> (added: Result<
    (),
    rustls::Error,
>)
    ensures
        match added {
            Ok(_) => trust_anchor(der@) matches Some(anchor) && anchors(*final(store)) == anchors(
                *old(store),
            ).push(anchor),
            Err(_) => trust_anchor(der@) is None && anchors(*final(store)) == anchors(*old(store)),
        },
{
    store.add(&rustls::Certificate(der))
}

/// Why a certificate cannot be trusted.
#[derive(Debug)]
pub enum RootError {
    /// Its bytes are not taken for a certificate.
    Rejected(rustls::Error),
}

/// Whether each of some certificates is taken for one.
pub open spec fn all_accepted(certs: Seq<Certificate>) -> bool {
    forall|i: int| 0 <= i < certs.len() ==> trust_anchor((#[trigger] certs[i]).0@) is Some
}

/// A store that trusts all of some certificates, if each of them is taken for one.
pub fn trusted_roots(certs: Vec<Certificate>) -> (roots: Result<rustls::RootCertStore, RootError>)
    ensures
        match roots {
            Ok(store) => {
                &&& all_accepted(certs@)
                &&& anchors(store) == certs@.map_values(
                    |cert: Certificate| trust_anchor(cert.0@)->Some_0,
                )
            },
            Err(_) => !all_accepted(certs@),
        },
{
    let mut store = no_roots();
    let ghost anchor = |cert: Certificate| trust_anchor(cert.0@)->Some_0;
    assert(anchors(store) =~= certs@.take(0).map_values(anchor));
    for cert in it: certs
        invariant
            it.seq() == certs@,
            anchor == (|cert: Certificate| trust_anchor(cert.0@)->Some_0),
            all_accepted(it.seq().take(it.index())),
            anchors(store) == it.seq().take(it.index()).map_values(anchor),
    {
        assert(certs@[it.index()] == cert);
        if let Err(error) = add_root(&mut store, cert.0) {
            return Err(RootError::Rejected(error));
        }
        proof {
            let longer = it.seq().take(it.index() + 1);
            assert(longer =~= it.seq().take(it.index()).push(cert));
            assert(anchors(store) =~= longer.map_values(anchor));
            assert forall|i: int| 0 <= i < longer.len() implies trust_anchor(
                (#[trigger] longer[i]).0@,
            ) is Some by {
                if i < it.index() {
                    assert(longer[i] == it.seq().take(it.index())[i]);
                }
            }
        }
    }
    assert(certs@.take(certs@.len() as int) =~= certs@);
    Ok(store)
}

/// Each section of a file becomes one certificate or one private key with the very
/// bytes of the section, in the same order.
pub proof fn law_sections_are_kept(
    ders: Seq<Vec<u8>>,
    certs: Seq<Certificate>,
    keys: Seq<PrivateKey>,
)
    ensures
        sections(ders).len() == ders.len(),
        forall|i: int| 0 <= i < ders.len() ==> #[trigger] sections(ders)[i] == ders[i]@,
        certificate_bytes(certs).len() == certs.len(),
        forall|i: int| 0 <= i < certs.len() ==> #[trigger] certificate_bytes(certs)[i] == certs[i].0@,
        key_bytes(keys).len() == keys.len(),
        forall|i: int| 0 <= i < keys.len() ==> #[trigger] key_bytes(keys)[i] == keys[i].0@,
        certificate_bytes(certs) == sections(ders) ==> certs.len() == ders.len() && forall|i: int|
            0 <= i < certs.len() ==> (#[trigger] certs[i]).0@ == ders[i]@,
        key_bytes(keys) == sections(ders) ==> keys.len() == ders.len() && forall|i: int|
            0 <= i < keys.len() ==> (#[trigger] keys[i]).0@ == ders[i]@,
{
    assert(sections(ders).len() == ders.len());
    assert(certificate_bytes(certs).len() == certs.len());
    assert(key_bytes(keys).len() == keys.len());
    if certificate_bytes(certs) == sections(ders) {
        assert forall|i: int| 0 <= i < certs.len() implies (#[trigger] certs[i]).0@ == ders[i]@ by {
            assert(certificate_bytes(certs)[i] == sections(ders)[i]);
        }
    }
    if key_bytes(keys) == sections(ders) {
        assert forall|i: int| 0 <= i < keys.len() implies (#[trigger] keys[i]).0@ == ders[i]@ by {
            assert(key_bytes(keys)[i] == sections(ders)[i]);
        }
    }
}

/// One certificate that is not taken for one is enough for none to be trusted.
pub proof fn law_each_certificate_counts(certs: Seq<Certificate>, at: int)
    requires
        0 <= at < certs.len(),
        trust_anchor(certs[at].0@) is None,
    ensures
        !all_accepted(certs),
{
}

/// Certificates of which each is taken for one are all trusted.
pub proof fn law_good_certificates_are_accepted(certs: Seq<Certificate>)
    requires
        forall|i: int| 0 <= i < certs.len() ==> trust_anchor((#[trigger] certs[i]).0@) is Some,
    ensures
        all_accepted(certs),
{
}

/// The server listens on the address that it is given, character by character, and
/// where none is given on port 8080 of its own machine.
pub proof fn law_given_address_is_used(given: Option<String>, address: Seq<char>)
    requires
        listens_on(given, address),
    ensures
        given matches Some(text) ==> address.len() == text@.len() && forall|i: int|
            0 <= i < address.len() ==> #[trigger] address[i] == text@[i],
        given is None ==> address == "127.0.0.1:8080"@,
{
}

/// The server runs with any number of videos but none, and each makes a channel; it
/// runs with any number of keys but none, and the first in the file is used.
pub proof fn law_server_needs_a_video_and_a_key(
    files: nat,
    count: Result<usize, StartupError>,
    keys: Seq<PrivateKey>,
    key: Result<PrivateKey, StartupError>,
)
    requires
        files <= usize::MAX,
        counts(files, count),
        is_used(keys, key),
    ensures
        files > 0 <==> count is Ok,
        count matches Ok(number) ==> number == files,
        count matches Err(error) ==> error is NoVideos,
        keys.len() > 0 <==> key is Ok,
        key matches Ok(used) ==> used.0@ == keys[0].0@,
        key matches Err(error) ==> error is NoPrivateKey,
{
}

} // verus!
