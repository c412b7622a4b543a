//! Keys and certificates, made by the `rcgen` crate.

use vstd::prelude::*;

use crate::text::texts;

verus! {

/// Parameters of a certificate to be made.
#[verifier::external_type_specification]
#[verifier::external_body]
pub struct ExCertificateParams(rcgen::CertificateParams);

/// A pair of a private and a public key.
#[verifier::external_type_specification]
#[verifier::external_body]
pub struct ExKeyPair(rcgen::KeyPair);

/// A finished certificate.
#[verifier::external_type_specification]
#[verifier::external_body]
pub struct ExCertificate(rcgen::Certificate);

/// Why a key or a certificate could not be made.
#[verifier::external_type_specification]
#[verifier::external_body]
pub struct ExRcgenError(rcgen::Error);

/// What parameters hold: the subject names, and whether the certificate is one
/// of an authority.
pub uninterp spec fn params_content(params: rcgen::CertificateParams) -> (Seq<Seq<char>>, bool);

/// The private key of a pair in PKCS#8 form, if the process holds it.
pub uninterp spec fn private_key(pair: rcgen::KeyPair) -> Option<Seq<u8>>;

/// What a certificate holds: the subject names, whether it is one of an
/// authority, the key it is made out for and the key it is signed with, both by
/// their private keys.
pub uninterp spec fn cert_content(cert: rcgen::Certificate) -> (
    (Seq<Seq<char>>, bool),
    Option<Seq<u8>>,
    Option<Seq<u8>>,
);

/// The DER form of a certificate.
pub uninterp spec fn cert_der(cert: rcgen::Certificate) -> Seq<u8>;

/// Whether a text is the PEM form of a certificate in DER form.
pub uninterp spec fn is_pem_of(text: Seq<char>, der: Seq<u8>) -> bool;

/// Whether a text consists of ASCII characters.
pub open spec fn is_ascii_text(text: Seq<char>) -> bool {
    forall|i: int| 0 <= i < text.len() ==> (#[trigger] text[i]) as u32 <= 0x7f
}

/// Whether a character can stand in an IP address: a hexadecimal digit, a dot
/// or a colon.
pub open spec fn is_address_char(c: char) -> bool {
    let u = c as u32;
    0x30 <= u <= 0x39 || 0x41 <= u <= 0x46 || 0x61 <= u <= 0x66 || u == 0x2e || u == 0x3a
}

/// Whether a name cannot be read as an IP address, since some character of it
/// stands in none.
pub open spec fn is_host_name(name: Seq<char>) -> bool {
    exists|i: int| 0 <= i < name.len() && !is_address_char(#[trigger] name[i])
}

/// Whether no name of a list can be read as an IP address.
pub open spec fn are_host_names(names: Seq<Seq<char>>) -> bool {
    forall|i: int| 0 <= i < names.len() ==> is_host_name(#[trigger] names[i])
}

/// `rcgen::CertificateParams::new`: parameters for the given host names, of no
/// authority. It fails on a name that is not ASCII, and only then. A name that
/// is an IP address would be kept as the address and not as its text, so such
/// names are left out.
#[verifier::external_body]
pub(crate) fn new_params(names: Vec<String>) -> (res: Result<
    rcgen::CertificateParams,
    rcgen::Error,
>)
    requires
        are_host_names(texts(names@)),
    ensures
        (match res {
            Ok(params) => params_content(params) == (texts(names@), false) && forall|i: int|
                0 <= i < names@.len() ==> is_ascii_text((#[trigger] names@[i])@),
            Err(_) => exists|i: int|
                0 <= i < names@.len() && !is_ascii_text((#[trigger] names@[i])@),
        }),
{
    rcgen::CertificateParams::new(names)
}

/// Sets the `is_ca` field of `rcgen::CertificateParams`: the parameters of an
/// authority without constraints, otherwise unchanged.
#[verifier::external_body]
pub(crate) fn for_authority(params: rcgen::CertificateParams) -> (res: rcgen::CertificateParams)
    ensures
        params_content(res) == (params_content(params).0, true),
{
    let mut params = params;
    params.is_ca = rcgen::IsCa::Ca(rcgen::BasicConstraints::Unconstrained);
    params
}

/// `rcgen::KeyPair::generate`: a fresh key pair, held by the process. Which one
/// rests on chance, and so does a failure.
#[verifier::external_body]
pub(crate) fn new_key() -> (res: Result<rcgen::KeyPair, rcgen::Error>)
    ensures
        res is Ok ==> private_key(res->Ok_0) is Some,
{
    rcgen::KeyPair::generate()
}

/// `rcgen::CertificateParams::self_signed`: a certificate with what the
/// parameters hold, made out for the key and signed with it.
#[verifier::external_body]
pub(crate) fn self_signed(params: rcgen::CertificateParams, key: &rcgen::KeyPair) -> (res: Result<
    rcgen::Certificate,
    rcgen::Error,
>)
    ensures
        res is Ok ==> cert_content(res->Ok_0) == (
            params_content(params),
            private_key(*key),
            private_key(*key),
        ),
{
    params.self_signed(key)
}

/// `rcgen::CertificateParams::signed_by`: a certificate with what the
/// parameters hold, made out for one key and signed with another, that of the
/// issuer.
#[verifier::external_body]
pub(crate) fn signed_by(
    params: rcgen::CertificateParams,
    key: &rcgen::KeyPair,
    issuer: &rcgen::Certificate,
    issuer_key: &rcgen::KeyPair,
) -> (res: Result<rcgen::Certificate, rcgen::Error>)
    ensures
        res is Ok ==> cert_content(res->Ok_0) == (
            params_content(params),
            private_key(*key),
            private_key(*issuer_key),
        ),
{
    params.signed_by(key, issuer, issuer_key)
}

/// `rcgen::Certificate::pem`: the PEM form. Its line ends depend on the
/// platform.
#[verifier::external_body]
pub(crate) fn pem(cert: &rcgen::Certificate) -> (res: String)
    ensures
        is_pem_of(res@, cert_der(*cert)),
{
    cert.pem()
}

/// `rcgen::Certificate::der`: the DER form.
#[verifier::external_body]
pub(crate) fn der(cert: &rcgen::Certificate) -> (res: Vec<u8>)
    ensures
        res@ == cert_der(*cert),
{
    cert.der().to_vec()
}

/// `rcgen::KeyPair::serialize_der`: the private key in PKCS#8 form. It panics
/// on a pair whose private key the process does not hold.
#[verifier::external_body]
pub(crate) fn key_der(pair: &rcgen::KeyPair) -> (res: Vec<u8>)
    requires
        private_key(*pair) is Some,
    ensures
        private_key(*pair) == Some(res@),
{
    pair.serialize_der()
}

/// `rcgen::generate_simple_self_signed`: a fresh key pair, held by the process,
/// and a certificate of no authority for the given host names, made out for the
/// pair and signed with it. Which pair rests on chance, and so does a failure
/// that is not due to a name. A name that is an IP address would be kept as the
/// address and not as its text, so such names are left out.
#[verifier::external_body]
pub(crate) fn simple_self_signed(names: Vec<String>) -> (res: Result<
    (rcgen::Certificate, rcgen::KeyPair),
    rcgen::Error,
>)
    requires
        are_host_names(texts(names@)),
    ensures
        res is Ok ==> private_key(res->Ok_0.1) is Some && cert_content(res->Ok_0.0) == (
            (texts(names@), false),
            private_key(res->Ok_0.1),
            private_key(res->Ok_0.1),
        ),
{
    rcgen::generate_simple_self_signed(names).map(|made| (made.cert, made.key_pair))
}

} // verus!
