//! How the workflow service is reached: its address, and whether and how the
//! connection is encrypted.
use vstd::prelude::*;
#[allow(unused_imports)]
use vstd::utf8::encode_utf8;

use crate::text::{same_text, starts_with};
use crate::worker::setting;

verus! {

/// What reading a text as a URL gives: the URL as it is written out, or what is
/// wrong with it.
pub uninterp spec fn parsed_url(text: Seq<char>) -> Result<Seq<char>, Seq<char>>;

/// `Url::parse`: the URL written out, or the words of the error, a function of
/// the text.
#[verifier::external_body]
fn parse_url(text: &str) -> (r: Result<String, String>)
    ensures
        parsed_url(text@) == match r {
            Ok(url) => Ok::<Seq<char>, Seq<char>>(url@),
            Err(error) => Err::<Seq<char>, Seq<char>>(error@),
        },
{
    match url::Url::parse(text) {
        Ok(url) => Ok(String::from(url)),
        Err(error) => Err(error.to_string()),
    }
}

/// An address with a scheme: its own where it is one of the web's, else the
/// one that the connection calls for.
pub open spec fn with_scheme(address: Seq<char>, tls_default: bool) -> Seq<char> {
    if "http://"@.is_prefix_of(address) || "https://"@.is_prefix_of(address) {
        address
    } else if tls_default {
        "https://"@ + address
    } else {
        "http://"@ + address
    }
}

/// An address with a scheme.
pub fn target_text(address: &str, tls_default: bool) -> (target: String)
    ensures
        target@ == with_scheme(address@, tls_default),
{
    if starts_with(address, "http://") || starts_with(address, "https://") {
        return address.to_string();
    }
    let mut target = (if tls_default {
        "https://"
    } else {
        "http://"
    }).to_string();
    target.append(address);
    target
}

/// The URL of the workflow service.
pub fn temporal_target_url(address: &str, tls_default: bool) -> (r: Result<String, String>)
    ensures
        parsed_url(with_scheme(address@, tls_default)) == match r {
            Ok(url) => Ok::<Seq<char>, Seq<char>>(url@),
            Err(error) => Err::<Seq<char>, Seq<char>>(error@),
        },
{
    let target = target_text(address, tls_default);
    parse_url(target.as_str())
}

/// The certificate and the key that a client shows.
#[derive(Debug, PartialEq, Eq)]
pub struct ClientIdentity {
    pub client_cert: Vec<u8>,
    pub client_private_key: Vec<u8>,
}

/// How a connection is encrypted.
#[derive(Debug, PartialEq, Eq)]
pub struct TlsSettings {
    pub server_root_ca_cert: Option<Vec<u8>>,
    pub domain: Option<String>,
    pub client: Option<ClientIdentity>,
}

/// The bytes of a setting that is given and not empty.
pub open spec fn given_bytes(value: Option<String>) -> Option<Seq<u8>> {
    match value {
        Some(text) if text@.len() > 0 => Some(encode_utf8(text@)),
        _ => None,
    }
}

/// The text of a setting that is given and not empty.
pub open spec fn given_text(value: Option<String>) -> Option<Seq<char>> {
    match value {
        Some(text) if text@.len() > 0 => Some(text@),
        _ => None,
    }
}

/// The bytes that a vector holds, where there is one.
pub open spec fn opt_bytes(value: Option<Vec<u8>>) -> Option<Seq<u8>> {
    match value {
        Some(bytes) => Some(bytes@),
        None => None,
    }
}

/// The bytes of a setting that is given and not empty.
pub fn env_bytes(value: Option<String>) -> (bytes: Option<Vec<u8>>)
    ensures
        opt_bytes(bytes) == given_bytes(value),
{
    match value {
        Some(text) => if text.as_str().is_empty() {
            None
        } else {
            let source = text.as_str().as_bytes();
            let mut bytes: Vec<u8> = Vec::new();
            let mut i: usize = 0;
            while i < source.len()
                invariant
                    i <= source@.len(),
                    bytes@ == source@.take(i as int),
                decreases source@.len() - i,
            {
                bytes.push(source[i]);
                i += 1;
                assert(bytes@ =~= source@.take(i as int));
            }
            assert(source@.take(i as int) =~= source@);
            Some(bytes)
        },
        None => None,
    }
}

/// The text of a setting that is given and not empty.
pub fn given(value: Option<String>) -> (text: Option<String>)
    ensures
        crate::streams::opt_text(text) == given_text(value),
{
    match value {
        Some(text) => if text.as_str().is_empty() {
            None
        } else {
            Some(text)
        },
        None => None,
    }
}

/// How a connection is encrypted by the settings that are given and not empty;
/// not at all where none is. A certificate without its key, or a key without
/// its certificate, is ignored.
pub fn tls_settings(
    ca_cert: Option<String>,
    cert: Option<String>,
    key: Option<String>,
    domain: Option<String>,
) -> (r: Option<TlsSettings>)
    ensures
        match r {
            None => given_bytes(ca_cert) is None && given_bytes(cert) is None && given_bytes(
                key,
            ) is None && given_text(domain) is None,
            Some(tls) => {
                &&& !(given_bytes(ca_cert) is None && given_bytes(cert) is None && given_bytes(
                    key,
                ) is None && given_text(domain) is None)
                &&& opt_bytes(tls.server_root_ca_cert) == given_bytes(ca_cert)
                &&& crate::streams::opt_text(tls.domain) == given_text(domain)
                &&& match tls.client {
                    Some(client) => given_bytes(cert) == Some(client.client_cert@) && given_bytes(
                        key,
                    ) == Some(client.client_private_key@),
                    None => given_bytes(cert) is None || given_bytes(key) is None,
                }
            },
        },
{
    let server_root_ca_cert = env_bytes(ca_cert);
    let client_cert = env_bytes(cert);
    let client_private_key = env_bytes(key);
    let domain = given(domain);
    if server_root_ca_cert.is_none() && client_cert.is_none() && client_private_key.is_none()
        && domain.is_none() {
        return None;
    }
    let client = match (client_cert, client_private_key) {
        (Some(client_cert), Some(client_private_key)) => Some(
            ClientIdentity { client_cert, client_private_key },
        ),
        _ => None,
    };
    Some(TlsSettings { server_root_ca_cert, domain, client })
}

/// What a connection is encrypted with.
#[derive(Debug, PartialEq, Eq)]
pub enum TlsChoice {
    /// As the settings say.
    Given(TlsSettings),
    /// As is usual, for an API key.
    Default,
    /// Not at all.
    Off,
}

/// How the workflow service is reached.
#[derive(Debug, PartialEq, Eq)]
pub struct TemporalConfig {
    pub address: String,
    pub namespace: String,
    pub task_queue: String,
    pub api_key: Option<String>,
    pub tls: Option<TlsSettings>,
}

/// Whether a text says that workflows are to be used.
pub fn is_enabled(value: Option<String>) -> (r: bool)
    ensures
        r == match value {
            Some(text) => text@ == "true"@ || text@ == "1"@,
            None => false,
        },
{
    match value {
        Some(text) => same_text(text.as_str(), "true") || same_text(text.as_str(), "1"),
        None => false,
    }
}

impl TemporalConfig {
    /// The configuration by the settings that are given, with the usual values
    /// for those that are not.
    pub fn from_settings(
        address: Option<String>,
        namespace: Option<String>,
        task_queue: Option<String>,
        api_key: Option<String>,
        tls: Option<TlsSettings>,
    ) -> (config: Self)
        ensures
            config.address@ == match address {
                Some(text) => text@,
                None => "127.0.0.1:7233"@,
            },
            config.namespace@ == match namespace {
                Some(text) => text@,
                None => "default"@,
            },
            config.task_queue@ == match task_queue {
                Some(text) => text@,
                None => "inference-gpu"@,
            },
            crate::streams::opt_text(config.api_key) == given_text(api_key),
            config.tls == tls,
    {
        TemporalConfig {
            address: setting(address, None, "127.0.0.1:7233"),
            namespace: setting(namespace, None, "default"),
            task_queue: setting(task_queue, None, "inference-gpu"),
            api_key: given(api_key),
            tls,
        }
    }

    /// Whether the connection is encrypted.
    pub open spec fn encrypted(self) -> bool {
        self.api_key is Some || self.tls is Some
    }

    /// The URL of the workflow service.
    pub fn target(&self) -> (r: Result<String, String>)
        ensures
            parsed_url(with_scheme(self.address@, self.encrypted())) == match r {
                Ok(url) => Ok::<Seq<char>, Seq<char>>(url@),
                Err(error) => Err::<Seq<char>, Seq<char>>(error@),
            },
    {
        temporal_target_url(
            self.address.as_str(),
            self.api_key.is_some() || self.tls.is_some(),
        )
    }

    /// What the connection is encrypted with: the settings where there are any,
    /// else the usual for an API key.
    pub open spec fn tls_chosen(self) -> TlsChoice {
        match (self.tls, self.api_key) {
            (Some(tls), _) => TlsChoice::Given(tls),
            (None, Some(_)) => TlsChoice::Default,
            (None, None) => TlsChoice::Off,
        }
    }

    /// What the connection is encrypted with.
    pub fn tls_choice(self) -> (choice: TlsChoice)
        ensures
            choice == self.tls_chosen(),
    {
        match (self.tls, self.api_key) {
            (Some(tls), _) => TlsChoice::Given(tls),
            (None, Some(_)) => TlsChoice::Default,
            (None, None) => TlsChoice::Off,
        }
    }
}

/// The text that is read as the service's URL always has a scheme of the web's,
/// and an address that has one keeps it.
pub proof fn law_targets_have_a_scheme(address: Seq<char>, tls_default: bool)
    ensures
        "http://"@.is_prefix_of(with_scheme(address, tls_default)) || "https://"@.is_prefix_of(
            with_scheme(address, tls_default),
        ),
        with_scheme(with_scheme(address, tls_default), tls_default) == with_scheme(
            address,
            tls_default,
        ),
{
    assert(("http://"@ + address).subrange(0, "http://"@.len() as int) =~= "http://"@);
    assert(("https://"@ + address).subrange(0, "https://"@.len() as int) =~= "https://"@);
}

/// The URL gets the scheme of an encrypted connection exactly where something
/// is chosen to encrypt it with; an API key is never sent without.
pub proof fn law_keys_are_sent_encrypted(config: TemporalConfig)
    ensures
        config.encrypted() <==> !(config.tls_chosen() is Off),
        config.api_key is Some ==> !(config.tls_chosen() is Off),
{
}

/// An address with a scheme of the web's is taken as it is; any other gets the
/// scheme of an encrypted connection in front of it, or that of a plain one,
/// and nothing else of it changes.
pub proof fn law_addresses_get_the_scheme_they_need(address: Seq<char>, tls_default: bool)
    ensures
        "http://"@.is_prefix_of(address) ==> with_scheme(address, tls_default) == address,
        "https://"@.is_prefix_of(address) ==> with_scheme(address, tls_default) == address,
        !"http://"@.is_prefix_of(address) && !"https://"@.is_prefix_of(address) ==> with_scheme(
            address,
            true,
        ) == "https://"@ + address && with_scheme(address, false) == "http://"@ + address,
{
}

/// A setting that is given and not empty is taken as it is, byte by byte; an
/// empty one counts as none.
pub proof fn law_empty_settings_count_as_none(value: String)
    ensures
        value@.len() > 0 ==> given_text(Some(value)) == Some(value@) && given_bytes(Some(value))
            == Some(encode_utf8(value@)),
        value@.len() == 0 ==> given_text(Some(value)) is None && given_bytes(Some(value)) is None,
        given_text(None) is None,
        given_bytes(None) is None,
{
}

/// A connection is encrypted as the settings say where there are any, as is
/// usual for an API key where there is only that, and else not at all.
pub proof fn law_settings_come_before_the_usual(config: TemporalConfig)
    ensures
        config.tls matches Some(tls) ==> config.tls_chosen() == TlsChoice::Given(tls),
        config.tls is None && config.api_key is Some ==> config.tls_chosen() is Default,
        config.tls is None && config.api_key is None ==> config.tls_chosen() is Off,
        config.encrypted() <==> config.tls is Some || config.api_key is Some,
{
}

} // verus!
