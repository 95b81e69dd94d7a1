//! The host's certificate and the viewer's check of it.
//!
//! A host makes a fresh certificate, and its fingerprint reaches the viewer
//! through the signalling server.  The viewer takes the certificate that the
//! connection presents only if it has that fingerprint.

use vstd::prelude::*;
use vstd::string::StringSliceAdditionalSpecFns;

use crate::text::{join2, join3};

verus! {

/// The SHA-256 digest of `data`, as computed by `sha2::Sha256::digest`.
pub uninterp spec fn sha256_digest(data: Seq<u8>) -> Seq<u8>;

/// `sha2::Sha256::digest`.
///
/// Claimed of it: the digest depends on the bytes alone and has 32 bytes.
#[verifier::external_body]
fn sha256(data: &[u8]) -> (digest: Vec<u8>)
    ensures
        digest@ == sha256_digest(data@),
        digest@.len() == 32,
{
    let output = <sha2::Sha256 as sha2::Digest>::digest(data);
    output.to_vec()
}

/// The hexadecimal digit with value `n`, in lower case.
pub open spec fn hex_digit(n: int) -> char {
    if n < 10 {
        (48 + n) as char
    } else {
        (87 + n) as char
    }
}

/// Two hexadecimal digits for each byte, the high half first.
pub open spec fn hex_text(bytes: Seq<u8>) -> Seq<char> {
    Seq::new(
        2 * bytes.len(),
        |i: int|
            if i % 2 == 0 {
                hex_digit(bytes[i / 2] as int / 16)
            } else {
                hex_digit(bytes[i / 2] as int % 16)
            },
    )
}

/// `hex::encode`.
///
/// Claimed of it: it writes each byte as two lower-case hexadecimal digits, high
/// half first.  The precondition keeps the text within what a `String` can hold.
#[verifier::external_body]
fn hex_encode(bytes: &[u8]) -> (text: String)
    requires
        2 * bytes@.len() <= isize::MAX,
    ensures
        text@ == hex_text(bytes@),
{
    hex::encode(bytes)
}

/// The fingerprint of a certificate in DER form.
pub open spec fn fingerprint(cert: Seq<u8>) -> Seq<char> {
    hex_text(sha256_digest(cert))
}

/// Writes a digest the way fingerprints are shown and compared.
pub fn fingerprint_text(digest: &[u8]) -> (text: String)
    requires
        2 * digest@.len() <= isize::MAX,
    ensures
        text@ == hex_text(digest@),
{
    hex_encode(digest)
}

/// The SHA-256 fingerprint of a certificate in DER form, by which a viewer
/// recognises the host.
pub fn cert_fingerprint(cert: &[u8]) -> (text: String)
    ensures
        text@ == fingerprint(cert@),
        text@ == hex_text(sha256_digest(cert@)),
        text@.len() == 64,
{
    let digest = sha256(cert);
    fingerprint_text(digest.as_slice())
}

/// The names that the host's certificate is made for.
pub fn certificate_names() -> (names: Vec<String>)
    ensures
        names@.len() == 1,
        names@[0]@ == "localhost"@,
{
    vec!["localhost".to_owned()]
}

/// Why a host or viewer could not set up its end of a connection.
#[derive(Clone, Copy, Debug, PartialEq, Eq, Structural)]
pub enum IdentityError {
    /// The certificate could not be made.
    Certificate,
}

impl IdentityError {
    /// The text shown to the user.
    pub fn message(&self) -> (text: String)
        ensures
            text@ == "gerar certificado self-signed"@,
    {
        "gerar certificado self-signed".to_owned()
    }
}

/// The error type of `rcgen`.
#[verifier::external_type_specification]
#[verifier::external_body]
pub struct ExRcgenError(rcgen::Error);

/// Whether `c` can stand in the text of an IP address: a hexadecimal digit, a
/// colon or a dot.
pub open spec fn in_ip_address(c: char) -> bool {
    '0' <= c <= '9' || 'a' <= c <= 'f' || 'A' <= c <= 'F' || c == ':' || c == '.'
}

/// Whether `name` is a short name that cannot be taken for an IP address.
pub open spec fn is_dns_name(name: Seq<char>) -> bool {
    &&& name.len() < 128
    &&& exists|i: int| 0 <= i < name.len() && !in_ip_address(#[trigger] name[i])
}

/// A short DNS name as it stands among the subject's names in a certificate: its
/// tag, its length and its characters.
pub open spec fn dns_entry(name: Seq<char>) -> Seq<u8> {
    seq![0x82u8, name.len() as u8] + name.map_values(|c: char| c as u8)
}

/// Whether the certificate `cert`, in DER form, has an entry for `name`.
pub open spec fn made_for(cert: Seq<u8>, name: Seq<char>) -> bool {
    exists|at: int|
        0 <= at <= cert.len() - dns_entry(name).len() && #[trigger] cert.subrange(
            at,
            at + dns_entry(name).len(),
        ) == dns_entry(name)
}

/// Whether the certificate `cert` has an entry for each DNS name of `names`.
pub open spec fn made_for_all(cert: Seq<u8>, names: Seq<String>) -> bool {
    forall|i: int|
        0 <= i < names.len() && is_dns_name((#[trigger] names[i])@) ==> made_for(cert, names[i]@)
}

/// How many bytes the public key of a certificate has: a marker and two coordinates
/// of a point on the curve P-256.
pub const PUBLIC_KEY_LENGTH: usize = 65;

/// Whether `key`, a private key in PKCS#8 DER form, belongs to the certificate `cert`:
/// it ends with the public key, and the certificate holds that public key.
pub open spec fn key_belongs(cert: Seq<u8>, key: Seq<u8>) -> bool {
    &&& PUBLIC_KEY_LENGTH <= key.len()
    &&& exists|at: int|
        0 <= at <= cert.len() - PUBLIC_KEY_LENGTH && #[trigger] cert.subrange(
            at,
            at + PUBLIC_KEY_LENGTH,
        ) == key.skip(key.len() - PUBLIC_KEY_LENGTH)
}

/// `rcgen::generate_simple_self_signed`: a certificate for `names` and its
/// private key, both in DER form.
///
/// Claimed of it: it refuses names that are not ASCII, and the certificate has an
/// entry for each short name that cannot be read as an IP address.  The private
/// key ends with its public key, which stands in the certificate.  The key is
/// drawn at random, so nothing more is said of the bytes; drawing it can fail, so
/// nothing is said of success.
#[verifier::external_body]
fn generate_certificate(names: Vec<String>) -> (made: Result<(Vec<u8>, Vec<u8>), rcgen::Error>)
    ensures
        made is Ok ==> forall|i: int| 0 <= i < names@.len() ==> (#[trigger] names@[i]).is_ascii(),
        made is Ok ==> made_for_all(made->Ok_0.0@, names@),
        made is Ok ==> key_belongs(made->Ok_0.0@, made->Ok_0.1@),
{
    let made = rcgen::generate_simple_self_signed(names)?;
    Ok((made.cert.der().to_vec(), made.key_pair.serialize_der()))
}

/// The certificate chain and the private key in what was generated.
///
/// The certificate is the only one of the chain.
pub fn certificate_chain(generated: Result<(Vec<u8>, Vec<u8>), rcgen::Error>) -> (made: Result<
    (Vec<Vec<u8>>, Vec<u8>),
    IdentityError,
>)
    ensures
        match generated {
            Ok((cert, key)) => made matches Ok(pair) && pair.0@ == seq![cert] && pair.1 == key,
            Err(_) => made == Err::<(Vec<Vec<u8>>, Vec<u8>), IdentityError>(
                IdentityError::Certificate,
            ),
        },
{
    match generated {
        Ok((cert, key)) => {
            let certs = vec![cert];
            assert(certs@ =~= seq![cert]);
            Ok((certs, key))
        },
        Err(_) => Err(IdentityError::Certificate),
    }
}

/// Makes a certificate for this host, under the name `localhost`, with its private
/// key.
///
/// The certificate is the only one of the chain.  Whether it can be made is left to
/// the system's source of random numbers.
pub fn self_signed_cert() -> (made: Result<(Vec<Vec<u8>>, Vec<u8>), IdentityError>)
    ensures
        made matches Ok(pair) ==> pair.0@.len() == 1 && made_for(pair.0@[0]@, "localhost"@)
            && key_belongs(pair.0@[0]@, pair.1@),
        made matches Err(e) ==> e == IdentityError::Certificate,
{
    let names = certificate_names();
    proof {
        reveal_strlit("localhost");
        assert(!in_ip_address(names@[0]@[0]));
        assert(is_dns_name(names@[0]@));
    }
    certificate_chain(generate_certificate(names))
}

/// What the host's end of the connection is set up with.
pub struct ServerConfig {
    /// The certificate chain in DER form, the host's own first.
    pub certs: Vec<Vec<u8>>,
    /// The private key in PKCS#8 DER form.
    pub key: Vec<u8>,
    /// The application protocols on offer.
    pub alpn_protocols: Vec<Vec<u8>>,
}

/// What the viewer's end of the connection is set up with.
pub struct ClientConfig {
    /// Decides which host is accepted.
    pub verifier: FingerprintVerifier,
    /// The application protocols on offer.
    pub alpn_protocols: Vec<Vec<u8>>,
}

/// The one application protocol that both ends speak.
pub open spec fn speaks_screenshare(protocols: Seq<Vec<u8>>) -> bool {
    protocols.len() == 1 && protocols[0]@ == "screenshare".spec_bytes()
}

fn alpn_protocols() -> (protocols: Vec<Vec<u8>>)
    ensures
        speaks_screenshare(protocols@),
{
    vec!["screenshare".as_bytes_vec()]
}

/// Sets up the host's end with a given certificate chain and key, and tells the
/// fingerprint to announce.
pub fn server_config_with(certs: Vec<Vec<u8>>, key: Vec<u8>) -> (made: (ServerConfig, String))
    requires
        certs@.len() > 0,
    ensures
        made.0.certs == certs,
        made.0.key == key,
        speaks_screenshare(made.0.alpn_protocols@),
        made.1@ == fingerprint(certs@[0]@),
{
    let announced = cert_fingerprint(certs[0].as_slice());
    (ServerConfig { certs, key, alpn_protocols: alpn_protocols() }, announced)
}

/// Sets up the host's end with the certificate chain and key that were made, if
/// they were, and tells the fingerprint to announce.
pub fn server_config_from(chain: Result<(Vec<Vec<u8>>, Vec<u8>), IdentityError>) -> (made: Result<
    (ServerConfig, String),
    IdentityError,
>)
    requires
        chain matches Ok(pair) ==> pair.0@.len() > 0,
    ensures
        match chain {
            Ok((certs, key)) => {
                &&& made matches Ok(pair)
                &&& pair.0.certs == certs
                &&& pair.0.key == key
                &&& speaks_screenshare(pair.0.alpn_protocols@)
                &&& pair.1@ == fingerprint(certs@[0]@)
            },
            Err(e) => made == Err::<(ServerConfig, String), IdentityError>(e),
        },
{
    match chain {
        Ok((certs, key)) => Ok(server_config_with(certs, key)),
        Err(e) => Err(e),
    }
}

/// Sets up the host's end with a fresh certificate under the name `localhost`, and
/// tells the fingerprint to announce.
pub fn server_config() -> (made: Result<(ServerConfig, String), IdentityError>)
    ensures
        made matches Ok(pair) ==> pair.0.certs@.len() == 1 && made_for(
            pair.0.certs@[0]@,
            "localhost"@,
        ) && key_belongs(pair.0.certs@[0]@, pair.0.key@) && pair.1@ == fingerprint(
            pair.0.certs@[0]@,
        ) && speaks_screenshare(
            pair.0.alpn_protocols@,
        ),
        made matches Err(e) ==> e == IdentityError::Certificate,
{
    server_config_from(self_signed_cert())
}

/// Sets up the viewer's end to accept only the host with the given fingerprint.
pub fn client_config(expected_fingerprint: String) -> (config: ClientConfig)
    ensures
        config.verifier.expected_fingerprint == expected_fingerprint,
        speaks_screenshare(config.alpn_protocols@),
{
    ClientConfig {
        verifier: FingerprintVerifier { expected_fingerprint },
        alpn_protocols: alpn_protocols(),
    }
}

/// The text of the refusal of a certificate.
pub open spec fn mismatch_text(expected: Seq<char>, actual: Seq<char>) -> Seq<char> {
    "fingerprint do certificado nao confere: esperado "@ + expected + ", recebido "@ + actual
}

/// Compares a fingerprint with the expected one; they must be the same text.
pub fn check_fingerprint(expected: &String, actual: &String) -> (checked: Result<(), String>)
    ensures
        match checked {
            Ok(_) => actual@ == expected@,
            Err(reason) => actual@ != expected@ && reason@ == mismatch_text(expected@, actual@),
        },
{
    if *actual == *expected {
        Ok(())
    } else {
        let start = join3(
            "fingerprint do certificado nao confere: esperado ",
            expected.as_str(),
            ", recebido ",
        );
        Err(join2(start.as_str(), actual.as_str()))
    }
}

/// Accepts a host by the fingerprint that came through the signalling server.
#[derive(Debug)]
pub struct FingerprintVerifier {
    /// The fingerprint that the host announced.
    pub expected_fingerprint: String,
}

impl FingerprintVerifier {
    /// Whether the certificate `cert` is the one that is expected.
    pub open spec fn accepts(&self, cert: Seq<u8>) -> bool {
        fingerprint(cert) == self.expected_fingerprint@
    }

    /// Checks the certificate that the host presents, in DER form; a refusal says
    /// which fingerprint was expected and which came.
    pub fn verify_server_cert(&self, end_entity: &[u8]) -> (checked: Result<(), String>)
        ensures
            match checked {
                Ok(_) => self.accepts(end_entity@),
                Err(reason) => !self.accepts(end_entity@) && reason@ == mismatch_text(
                    self.expected_fingerprint@,
                    fingerprint(end_entity@),
                ),
            },
    {
        let actual = cert_fingerprint(end_entity);
        check_fingerprint(&self.expected_fingerprint, &actual)
    }
}

/// Different byte strings have different hexadecimal texts.
pub proof fn lemma_hex_injective(a: Seq<u8>, b: Seq<u8>)
    requires
        hex_text(a) == hex_text(b),
    ensures
        a == b,
{
    assert(hex_text(a).len() == 2 * a.len() && hex_text(b).len() == 2 * b.len());
    assert forall|i: int| 0 <= i < a.len() implies a[i] == b[i] by {
        assert((2 * i) / 2 == i && (2 * i + 1) / 2 == i);
        assert(hex_text(a)[2 * i] == hex_digit(a[i] as int / 16));
        assert(hex_text(b)[2 * i] == hex_digit(b[i] as int / 16));
        assert(hex_text(a)[2 * i + 1] == hex_digit(a[i] as int % 16));
        assert(hex_text(b)[2 * i + 1] == hex_digit(b[i] as int % 16));
        lemma_hex_digit_injective(a[i] as int / 16, b[i] as int / 16);
        lemma_hex_digit_injective(a[i] as int % 16, b[i] as int % 16);
    }
    assert(a =~= b);
}

proof fn lemma_hex_digit_injective(m: int, n: int)
    requires
        0 <= m < 16,
        0 <= n < 16,
        hex_digit(m) == hex_digit(n),
    ensures
        m == n,
{
    assert(hex_digit(m) as int == if m < 10 {
        48 + m
    } else {
        87 + m
    });
    assert(hex_digit(n) as int == if n < 10 {
        48 + n
    } else {
        87 + n
    });
}

/// A viewer that was told the fingerprint of `announced` accepts a certificate
/// exactly when it has the same digest; the announced certificate itself is thus
/// always accepted.
pub proof fn lemma_verifier_accepts_announced(
    verifier: FingerprintVerifier,
    announced: Seq<u8>,
    presented: Seq<u8>,
)
    requires
        verifier.expected_fingerprint@ == fingerprint(announced),
    ensures
        verifier.accepts(presented) <==> sha256_digest(presented) == sha256_digest(announced),
        verifier.accepts(announced),
{
    if verifier.accepts(presented) {
        lemma_hex_injective(sha256_digest(presented), sha256_digest(announced));
    }
}

/// The refusal of a certificate names the expected fingerprint and the one that came,
/// each in full.
pub proof fn lemma_mismatch_names_both(expected: Seq<char>, actual: Seq<char>)
    ensures
        mismatch_text(expected, actual) == "fingerprint do certificado nao confere: esperado "@
            + expected + ", recebido "@ + actual,
{
}

} // verus!
