//! The gatekeeper's certificate: loaded from a secret of the cluster, or made
//! and stored there on the first run.

use vstd::prelude::*;
use vstd::slice::slice_to_vec;
use vstd::utf8::encode_utf8;

use crate::certs::{
    cert_content, cert_der, der, for_authority, is_address_char, is_ascii_text, is_pem_of, key_der,
    new_key, new_params, pem, private_key, self_signed, signed_by,
};
use crate::text::{or_default, str_eq, text_or, texts};

verus! {

/// Certificates ready to be loaded into a TLS server configuration.
#[derive(Debug, Clone, PartialEq, Eq)]
pub struct GatekeeperCerts {
    /// DER-encoded gatekeeper leaf certificate (signed by the project CA).
    pub cert_der: Vec<u8>,
    /// DER-encoded PKCS#8 private key for the leaf cert.
    pub key_der: Vec<u8>,
}

/// The namespace of the secret, from `K8S_NAMESPACE`.
pub fn namespace(var: Option<String>) -> (res: String)
    ensures
        res@ == text_or(var, "extraction-mmo"@),
{
    or_default(var, "extraction-mmo")
}

/// The name of the secret, from `CERT_SECRET_NAME`.
pub fn secret_name(var: Option<String>) -> (res: String)
    ensures
        res@ == text_or(var, "extraction-mmo-certs"@),
{
    or_default(var, "extraction-mmo-certs")
}

// ---------------------------------------------------------------------------
// Loading
// ---------------------------------------------------------------------------
/// The entries of a secret, by name; of two with one name the later counts.
pub open spec fn secret_entries(data: Seq<(String, Vec<u8>)>) -> Map<Seq<char>, Seq<u8>>
    decreases data.len(),
{
    if data.len() == 0 {
        Map::empty()
    } else {
        secret_entries(data.drop_last()).insert(data.last().0@, data.last().1@)
    }
}

fn find_entry(data: &Vec<(String, Vec<u8>)>, name: &str) -> (res: Option<Vec<u8>>)
    ensures
        (match res {
            Some(value) => secret_entries(data@).contains_key(name@) && secret_entries(
                data@,
            )[name@] == value@,
            None => !secret_entries(data@).contains_key(name@),
        }),
{
    let mut i: usize = data.len();
    assert(data@.take(data@.len() as int) =~= data@);
    while i > 0
        invariant
            i <= data@.len(),
            secret_entries(data@).contains_key(name@) == secret_entries(
                data@.take(i as int),
            ).contains_key(name@),
            secret_entries(data@)[name@] == secret_entries(data@.take(i as int))[name@],
        decreases i,
    {
        i = i - 1;
        assert(data@.take(i + 1).drop_last() =~= data@.take(i as int));
        if str_eq(data[i].0.as_str(), name) {
            return Some(data[i].1.clone());
        }
    }
    None
}

/// Why an existing secret cannot be used.
pub open spec fn load_error(data: Option<Vec<(String, Vec<u8>)>>, name: Seq<char>) -> Option<
    Seq<char>,
> {
    match data {
        None => Some("Secret "@ + name + " has no data field"@),
        Some(list) => if !secret_entries(list@).contains_key("tls.crt"@) {
            Some("Secret "@ + name + " missing tls.crt"@)
        } else if !secret_entries(list@).contains_key("tls.key"@) {
            Some("Secret "@ + name + " missing tls.key"@)
        } else {
            None
        },
    }
}

fn secret_message(name: &str, problem: &str) -> (res: String)
    ensures
        res@ == "Secret "@ + name@ + problem@,
{
    "Secret ".to_owned().concat(name).concat(problem)
}

/// Takes certificate and key out of an existing secret.
pub fn load_from_secret(data: &Option<Vec<(String, Vec<u8>)>>, name: &str) -> (res: Result<
    GatekeeperCerts,
    String,
>)
    ensures
        (match res {
            Ok(certs) => load_error(*data, name@) is None && certs.cert_der@ == secret_entries(
                data->Some_0@,
            )["tls.crt"@] && certs.key_der@ == secret_entries(data->Some_0@)["tls.key"@],
            Err(reason) => load_error(*data, name@) == Some(reason@),
        }),
{
    match data {
        None => Err(secret_message(name, " has no data field")),
        Some(list) => match find_entry(list, "tls.crt") {
            None => Err(secret_message(name, " missing tls.crt")),
            Some(cert_der) => match find_entry(list, "tls.key") {
                None => Err(secret_message(name, " missing tls.key")),
                Some(key_der) => Ok(GatekeeperCerts { cert_der, key_der }),
            },
        },
    }
}

// ---------------------------------------------------------------------------
// Generating
// ---------------------------------------------------------------------------
/// What failed while certificates were made.
#[derive(Debug, Clone, Copy, PartialEq, Eq, Structural)]
pub enum GenerateError {
    CaParams,
    CaKey,
    CaSigning,
    LeafParams,
    LeafKey,
    LeafSigning,
}

/// The names that the authority's certificate is for.
pub open spec fn ca_names() -> Seq<Seq<char>> {
    seq!["extraction-mmo-ca"@]
}

/// The names that the gatekeeper's certificate is for.
pub open spec fn leaf_names() -> Seq<Seq<char>> {
    seq!["gatekeeper"@, "gatekeeper-quic"@, "localhost"@]
}

/// Whether two certificates belong together: an authority's, signed with its
/// own key, and the gatekeeper's, made out for the gatekeeper's key and signed
/// with the authority's.
pub open spec fn is_chain(
    ca: rcgen::Certificate,
    leaf: rcgen::Certificate,
    leaf_key: Seq<u8>,
) -> bool {
    &&& cert_content(ca).0 == (ca_names(), true)
    &&& cert_content(ca).1 == cert_content(ca).2
    &&& cert_content(leaf).0 == (leaf_names(), false)
    &&& cert_content(leaf).1 == Some(leaf_key)
    &&& cert_content(leaf).2 == cert_content(ca).1
}

/// Whether a text and bytes are what a first run makes: the authority's
/// certificate, the gatekeeper's certificate and its key.
pub open spec fn is_generated(ca_pem: Seq<char>, leaf_der: Seq<u8>, leaf_key: Seq<u8>) -> bool {
    exists|ca: rcgen::Certificate, leaf: rcgen::Certificate|
        #[trigger]
        is_chain(ca, leaf, leaf_key) && is_pem_of(ca_pem, cert_der(ca)) && leaf_der == cert_der(
            leaf,
        )
}

/// The text and the bytes of finished certificates and the key.
pub fn cert_bundle(
    ca_cert: &rcgen::Certificate,
    leaf_cert: &rcgen::Certificate,
    leaf_key: &rcgen::KeyPair,
) -> (res: (String, Vec<u8>, Vec<u8>))
    requires
        private_key(*leaf_key) is Some,
    ensures
        is_pem_of(res.0@, cert_der(*ca_cert)),
        res.1@ == cert_der(*leaf_cert),
        private_key(*leaf_key) == Some(res.2@),
{
    (pem(ca_cert), der(leaf_cert), key_der(leaf_key))
}

/// Generate a CA cert and a gatekeeper leaf cert signed by it.
///
/// Returns `(ca_pem, leaf_cert_der, leaf_key_der)`. Only the keys and the
/// signatures can fail, by chance; the names never do.
pub fn generate_certs() -> (res: Result<(String, Vec<u8>, Vec<u8>), GenerateError>)
    ensures
        (match res {
            Ok(made) => is_generated(made.0@, made.1@, made.2@),
            Err(error) => error != GenerateError::CaParams && error != GenerateError::LeafParams,
        }),
{
    let mut names: Vec<String> = Vec::new();
    names.push("extraction-mmo-ca".to_owned());
    proof {
        reveal_strlit("extraction-mmo-ca");
        assert(is_ascii_text("extraction-mmo-ca"@));
        assert(!is_address_char("extraction-mmo-ca"@[1]));
        assert(texts(names@) =~= ca_names());
    }
    let ca_params = match new_params(names) {
        Ok(params) => for_authority(params),
        Err(_) => return Err(GenerateError::CaParams),
    };
    let ca_key = match new_key() {
        Ok(key) => key,
        Err(_) => return Err(GenerateError::CaKey),
    };
    let ca_cert = match self_signed(ca_params, &ca_key) {
        Ok(cert) => cert,
        Err(_) => return Err(GenerateError::CaSigning),
    };

    let mut names: Vec<String> = Vec::new();
    names.push("gatekeeper".to_owned());
    names.push("gatekeeper-quic".to_owned());
    names.push("localhost".to_owned());
    proof {
        reveal_strlit("gatekeeper");
        reveal_strlit("gatekeeper-quic");
        reveal_strlit("localhost");
        assert(is_ascii_text("gatekeeper"@));
        assert(is_ascii_text("gatekeeper-quic"@));
        assert(is_ascii_text("localhost"@));
        assert(!is_address_char("gatekeeper"@[0]));
        assert(!is_address_char("gatekeeper-quic"@[0]));
        assert(!is_address_char("localhost"@[0]));
        assert(texts(names@) =~= leaf_names());
    }
    let leaf_params = match new_params(names) {
        Ok(params) => params,
        Err(_) => return Err(GenerateError::LeafParams),
    };
    let leaf_key = match new_key() {
        Ok(key) => key,
        Err(_) => return Err(GenerateError::LeafKey),
    };
    let leaf_cert = match signed_by(leaf_params, &leaf_key, &ca_cert, &ca_key) {
        Ok(cert) => cert,
        Err(_) => return Err(GenerateError::LeafSigning),
    };
    let made = cert_bundle(&ca_cert, &leaf_cert, &leaf_key);
    assert(is_generated(made.0@, made.1@, made.2@)) by {
        assert(is_chain(ca_cert, leaf_cert, made.2@));
    }
    Ok(made)
}

/// A secret to create.
#[derive(Debug, Clone, PartialEq, Eq)]
pub struct SecretManifest {
    pub name: String,
    pub namespace: String,
    pub data: Vec<(String, Vec<u8>)>,
}

/// Whether a secret holds an authority's certificate as text, and a certificate
/// and its key as they are.
pub open spec fn is_cert_secret(
    secret: SecretManifest,
    name: Seq<char>,
    ns: Seq<char>,
    ca_pem: Seq<u8>,
    certs: GatekeeperCerts,
) -> bool {
    &&& secret.name@ == name
    &&& secret.namespace@ == ns
    &&& secret_entries(secret.data@) == Map::empty().insert("ca.crt"@, ca_pem).insert(
        "tls.crt"@,
        certs.cert_der@,
    ).insert("tls.key"@, certs.key_der@)
}

/// The secret that holds freshly made certificates:
/// - `ca.crt`: CA cert PEM (game server pods mount this to trust the gatekeeper)
/// - `tls.crt`: gatekeeper leaf cert DER
/// - `tls.key`: gatekeeper private key DER
pub fn create_cert_secret(
    name: &str,
    ns: &str,
    ca_pem: &str,
    certs: &GatekeeperCerts,
) -> (res: SecretManifest)
    ensures
        is_cert_secret(res, name@, ns@, encode_utf8(ca_pem@), *certs),
{
    let mut data: Vec<(String, Vec<u8>)> = Vec::new();
    let ghost d0 = data@;
    data.push(("ca.crt".to_owned(), slice_to_vec(ca_pem.as_bytes())));
    let ghost d1 = data@;
    data.push(("tls.crt".to_owned(), certs.cert_der.clone()));
    let ghost d2 = data@;
    data.push(("tls.key".to_owned(), certs.key_der.clone()));
    proof {
        assert(d1.drop_last() =~= d0);
        assert(d2.drop_last() =~= d1);
        assert(data@.drop_last() =~= d2);
        assert(secret_entries(d0) =~= Map::empty());
        assert(secret_entries(d1) =~= Map::empty().insert("ca.crt"@, encode_utf8(ca_pem@)));
        assert(secret_entries(d2) =~= secret_entries(d1).insert("tls.crt"@, certs.cert_der@));
    }
    SecretManifest { name: name.to_owned(), namespace: ns.to_owned(), data }
}

// ---------------------------------------------------------------------------
// Deciding
// ---------------------------------------------------------------------------
/// How the look for the secret came out.
#[derive(Debug, Clone, PartialEq, Eq)]
pub enum SecretLookup {
    /// The secret is there; its data, if it has any.
    Found(Option<Vec<(String, Vec<u8>)>>),
    /// The cluster answered with an error of this code.
    ApiError(u16),
    /// The cluster could not be asked.
    Unreachable,
}

/// What to do about the certificates.
#[derive(Debug, Clone, PartialEq, Eq)]
pub enum CertsStep {
    /// Use these.
    Use(GatekeeperCerts),
    /// Create the secret, then use these.
    Create { secret: SecretManifest, certs: GatekeeperCerts },
    /// Give up with this reason.
    Fail(String),
}

/// Whether a secret and certificates are those of a first run: a fresh
/// authority and a gatekeeper's certificate signed by it, all in the secret.
pub open spec fn is_first_run(
    secret: SecretManifest,
    name: Seq<char>,
    ns: Seq<char>,
    certs: GatekeeperCerts,
) -> bool {
    exists|ca_pem: Seq<char>|
        #[trigger]
        is_generated(ca_pem, certs.cert_der@, certs.key_der@) && is_cert_secret(
            secret,
            name,
            ns,
            encode_utf8(ca_pem),
            certs,
        )
}

/// What follows once certificates were made, or could not be.
pub fn first_run(
    made: Result<(String, Vec<u8>, Vec<u8>), GenerateError>,
    name: &str,
    ns: &str,
) -> (res: CertsStep)
    ensures
        (match made {
            Ok(parts) => res is Create && res->certs.cert_der@ == parts.1@ && res->certs.key_der@
                == parts.2@ && is_cert_secret(
                res->secret,
                name@,
                ns@,
                encode_utf8(parts.0@),
                res->certs,
            ),
            Err(_) => res is Fail && res->Fail_0@ == "generate TLS certs"@,
        }),
{
    match made {
        Ok((ca_pem, leaf_der, leaf_key)) => {
            let certs = GatekeeperCerts { cert_der: leaf_der, key_der: leaf_key };
            let secret = create_cert_secret(name, ns, ca_pem.as_str(), &certs);
            CertsStep::Create { secret, certs }
        },
        Err(_) => CertsStep::Fail("generate TLS certs".to_owned()),
    }
}

/// Ensure the TLS cert Secret exists in the cluster.
///
/// **First run**: generates a CA cert + a gatekeeper leaf cert signed by it, to
/// be stored in the secret.
///
/// **Subsequent runs**: reads the existing secret so the cert is stable across
/// gatekeeper restarts.
pub fn ensure_certs(lookup: &SecretLookup, name: &str, ns: &str) -> (res: CertsStep)
    ensures
        (match *lookup {
            SecretLookup::Found(data) => match load_error(data, name@) {
                Some(reason) => res is Fail && res->Fail_0@ == reason,
                None => res is Use && res->Use_0.cert_der@ == secret_entries(
                    data->Some_0@,
                )["tls.crt"@] && res->Use_0.key_der@ == secret_entries(
                    data->Some_0@,
                )["tls.key"@],
            },
            SecretLookup::ApiError(code) => if code == 404 {
                match res {
                    CertsStep::Create { secret, certs } => is_first_run(
                        secret,
                        name@,
                        ns@,
                        certs,
                    ),
                    CertsStep::Fail(reason) => reason@ == "generate TLS certs"@,
                    CertsStep::Use(_) => false,
                }
            } else {
                res is Fail && res->Fail_0@ == "GET Secret "@ + name@
            },
            SecretLookup::Unreachable => res is Fail && res->Fail_0@ == "GET Secret "@ + name@,
        }),
{
    match lookup {
        SecretLookup::Found(data) => match load_from_secret(data, name) {
            Ok(certs) => CertsStep::Use(certs),
            Err(reason) => CertsStep::Fail(reason),
        },
        SecretLookup::ApiError(code) => if *code == 404 {
            let made = generate_certs();
            let ghost parts = made;
            let res = first_run(made, name, ns);
            proof {
                if parts is Ok {
                    assert(is_generated(parts->Ok_0.0@, parts->Ok_0.1@, parts->Ok_0.2@));
                    assert(is_first_run(res->secret, name@, ns@, res->certs));
                }
            }
            res
        } else {
            CertsStep::Fail("GET Secret ".to_owned().concat(name))
        },
        SecretLookup::Unreachable => CertsStep::Fail("GET Secret ".to_owned().concat(name)),
    }
}

/// A secret can be used exactly if it has both a certificate and its key; why
/// one cannot be used is said in the message.
pub proof fn law_load_error(list: Vec<(String, Vec<u8>)>, name: Seq<char>)
    ensures
        load_error(None, name) == Some("Secret "@ + name + " has no data field"@),
        load_error(Some(list), name) is None <==> secret_entries(list@).contains_key("tls.crt"@)
            && secret_entries(list@).contains_key("tls.key"@),
        !secret_entries(list@).contains_key("tls.crt"@) ==> load_error(Some(list), name) == Some(
            "Secret "@ + name + " missing tls.crt"@,
        ),
        secret_entries(list@).contains_key("tls.crt"@) && !secret_entries(list@).contains_key(
            "tls.key"@,
        ) ==> load_error(Some(list), name) == Some("Secret "@ + name + " missing tls.key"@),
{
}

/// An entry of a secret is the last one of its name, and a name that no entry
/// has is not there.
pub proof fn law_secret_entries(data: Seq<(String, Vec<u8>)>, k: int, name: Seq<char>)
    ensures
        0 <= k < data.len() && data[k].0@ == name && (forall|i: int|
            k < i < data.len() ==> (#[trigger] data[i]).0@ != name) ==> secret_entries(
            data,
        ).contains_key(name) && secret_entries(data)[name] == data[k].1@,
        (forall|i: int| 0 <= i < data.len() ==> (#[trigger] data[i]).0@ != name)
            ==> !secret_entries(data).contains_key(name),
    decreases data.len(),
{
    if data.len() > 0 {
        let rest = data.drop_last();
        law_secret_entries(rest, k, name);
        assert(data[data.len() - 1] == data.last());
        assert(forall|i: int| 0 <= i < rest.len() ==> rest[i] == data[i]);
        if forall|i: int| 0 <= i < data.len() ==> (#[trigger] data[i]).0@ != name {
            assert forall|i: int| 0 <= i < rest.len() implies (#[trigger] rest[i]).0@ != name by {
                assert(rest[i] == data[i]);
            }
        }
        if 0 <= k < rest.len() && data[k].0@ == name && (forall|i: int|
            k < i < data.len() ==> (#[trigger] data[i]).0@ != name) {
            assert forall|i: int| k < i < rest.len() implies (#[trigger] rest[i]).0@ != name by {
                assert(rest[i] == data[i]);
            }
        }
    }
}

/// What a first run makes: an authority's certificate under its own name, signed
/// with its own key; and one for the three names of the gatekeeper, signed with
/// the authority's key and made out for the key that is kept.
pub proof fn law_chain(ca: rcgen::Certificate, leaf: rcgen::Certificate, leaf_key: Seq<u8>)
    ensures
        is_chain(ca, leaf, leaf_key) <==> cert_content(ca).0 == (
            seq!["extraction-mmo-ca"@],
            true,
        ) && cert_content(leaf).0 == (
            seq!["gatekeeper"@, "gatekeeper-quic"@, "localhost"@],
            false,
        ) && cert_content(ca).2 == cert_content(ca).1 && cert_content(leaf).2 == cert_content(ca).1
            && cert_content(leaf).1 == Some(leaf_key),
{
}

/// What a first run hands on is the text of the authority's certificate and the
/// bytes of the gatekeeper's, of two that belong together.
pub proof fn law_generated(ca_pem: Seq<char>, leaf_der: Seq<u8>, leaf_key: Seq<u8>) -> (pair: (
    rcgen::Certificate,
    rcgen::Certificate,
))
    requires
        is_generated(ca_pem, leaf_der, leaf_key),
    ensures
        is_chain(pair.0, pair.1, leaf_key),
        is_pem_of(ca_pem, cert_der(pair.0)),
        leaf_der == cert_der(pair.1),
{
    choose|ca: rcgen::Certificate, leaf: rcgen::Certificate|
        #[trigger]
        is_chain(ca, leaf, leaf_key) && is_pem_of(ca_pem, cert_der(ca)) && leaf_der == cert_der(
            leaf,
        )
}

/// The secret of a first run holds the certificates of that run, under the given
/// name and namespace.
pub proof fn law_first_run(
    secret: SecretManifest,
    name: Seq<char>,
    ns: Seq<char>,
    certs: GatekeeperCerts,
) -> (ca_pem: Seq<char>)
    requires
        is_first_run(secret, name, ns, certs),
    ensures
        is_generated(ca_pem, certs.cert_der@, certs.key_der@),
        is_cert_secret(secret, name, ns, encode_utf8(ca_pem), certs),
{
    choose|ca_pem: Seq<char>|
        #[trigger]
        is_generated(ca_pem, certs.cert_der@, certs.key_der@) && is_cert_secret(
            secret,
            name,
            ns,
            encode_utf8(ca_pem),
            certs,
        )
}

/// A created secret has the given name and namespace, and exactly three entries.
pub proof fn law_cert_secret(
    secret: SecretManifest,
    name: Seq<char>,
    ns: Seq<char>,
    ca_pem: Seq<u8>,
    certs: GatekeeperCerts,
)
    requires
        is_cert_secret(secret, name, ns, ca_pem, certs),
    ensures
        secret.name@ == name,
        secret.namespace@ == ns,
        secret_entries(secret.data@) == map![
            "ca.crt"@ => ca_pem,
            "tls.crt"@ => certs.cert_der@,
            "tls.key"@ => certs.key_der@,
        ],
{
    assert(secret_entries(secret.data@) =~= map![
        "ca.crt"@ => ca_pem,
        "tls.crt"@ => certs.cert_der@,
        "tls.key"@ => certs.key_der@,
    ]);
}

/// What the first run stores, every later run loads: the created secret is
/// accepted, and gives back the certificate and the key it was made with.
pub proof fn law_created_secret_loads(
    secret: SecretManifest,
    name: Seq<char>,
    ns: Seq<char>,
    ca_pem: Seq<u8>,
    certs: GatekeeperCerts,
)
    requires
        is_cert_secret(secret, name, ns, ca_pem, certs),
    ensures
        load_error(Some(secret.data), name) is None,
        secret_entries(secret.data@)["tls.crt"@] == certs.cert_der@,
        secret_entries(secret.data@)["tls.key"@] == certs.key_der@,
{
    reveal_strlit("tls.crt");
    reveal_strlit("tls.key");
    assert("tls.crt"@[4] == 'c');
    assert("tls.key"@[4] == 'k');
}

} // verus!
