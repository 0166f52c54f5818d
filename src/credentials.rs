//! Choosing the pull-secret credential for a registry, and decoding it.

use vstd::prelude::*;
use vstd::utf8::{decode_utf8, valid_utf8};
use crate::text::{first_index, lemma_first_index, scan_char};

verus! {

#[verifier::external_type_specification]
#[verifier::external_body]
pub struct ExDecodeError(base64::DecodeError);

/// What base64 decoding makes of a string: the bytes, or `None` when the
/// string is not valid base64.
pub uninterp spec fn base64_decoded(s: Seq<char>) -> Option<Seq<u8>>;

/// Relies on base64::decode (standard alphabet): the bytes that the string
/// encodes, or an error exactly when it encodes none.
#[verifier::external_body]
fn decode_base64(s: &str) -> (r: Result<Vec<u8>, base64::DecodeError>)
    ensures
        match r {
            Ok(b) => base64_decoded(s@) == Some(b@),
            Err(_) => base64_decoded(s@) is None,
        },
{
    base64::decode(s)
}

/// Relies on String::from_utf8: the text the bytes encode, or nothing when
/// they are not valid UTF-8.
#[verifier::external_body]
fn utf8_to_string(b: Vec<u8>) -> (r: Option<String>)
    ensures
        r is Some <==> valid_utf8(b@),
        r matches Some(s) ==> s@ == decode_utf8(b@),
{
    String::from_utf8(b).ok()
}

/// The `auth` value of one registry in a docker config.
pub struct DockerConfigJsonAuth {
    pub auth: String,
}

/// The `auths` mapping of a `.dockerconfigjson` document: registry host and
/// its entry.
pub struct DockerConfigJson {
    pub auths: Vec<(String, DockerConfigJsonAuth)>,
}

impl View for DockerConfigJson {
    type V = Seq<(Seq<char>, Seq<char>)>;

    open spec fn view(&self) -> Seq<(Seq<char>, Seq<char>)> {
        self.auths@.map_values(|e: (String, DockerConfigJsonAuth)| (e.0@, e.1.auth@))
    }
}

/// Username and password for a registry.
pub struct Credentials {
    pub username: String,
    pub password: String,
}

#[derive(Clone, Copy, Debug, PartialEq, Eq, Structural)]
pub enum CredentialError {
    /// The `auth` value is not base64.
    InvalidBase64,
    /// The decoded `auth` value is not UTF-8 text.
    InvalidUtf8,
    /// The decoded `auth` value holds no ":" between username and password.
    MissingSeparator,
}

/// The `auth` value of the entry keyed by exactly `host`.
pub open spec fn auth_for_spec(auths: Seq<(Seq<char>, Seq<char>)>, host: Seq<char>) -> Option<Seq<char>>
    decreases auths.len(),
{
    if auths.len() == 0 {
        None
    } else if auths[0].0 == host {
        Some(auths[0].1)
    } else {
        auth_for_spec(auths.skip(1), host)
    }
}

/// The `auth` value of the entry for `host` in the config of one pull secret;
/// `None` where the secret gave no usable config.
pub open spec fn secret_auth(lookup: Option<Seq<(Seq<char>, Seq<char>)>>, host: Seq<char>) -> Option<Seq<char>> {
    match lookup {
        Some(auths) => auth_for_spec(auths, host),
        None => None,
    }
}

/// The credential that a pod's pull secrets, taken in order, give for `host`:
/// that of the first secret whose config has an entry for `host`.
pub open spec fn first_match(lookups: Seq<Option<Seq<(Seq<char>, Seq<char>)>>>, host: Seq<char>) -> Option<Seq<char>>
    decreases lookups.len(),
{
    if lookups.len() == 0 {
        None
    } else {
        match secret_auth(lookups[0], host) {
            Some(a) => Some(a),
            None => first_match(lookups.skip(1), host),
        }
    }
}

/// The `auth` value for exactly `host` in a docker config, if it has one.
pub fn auth_for_host(config: &DockerConfigJson, host: &str) -> (r: Option<String>)
    ensures
        match r {
            Some(a) => auth_for_spec(config@, host@) == Some(a@),
            None => auth_for_spec(config@, host@) is None,
        },
{
    let host_owned = String::from_str(host);
    let n = config.auths.len();
    let mut i: usize = 0;
    assert(config@.skip(0) =~= config@);
    while i < n
        invariant
            n == config.auths@.len(),
            i <= n,
            auth_for_spec(config@, host@) == auth_for_spec(config@.skip(i as int), host@),
            host_owned@ == host@,
        decreases n - i,
    {
        let entry = &config.auths[i];
        assert(config@.skip(i as int).skip(1) =~= config@.skip(i + 1));
        if entry.0 == host_owned {
            return Some(entry.1.auth.clone());
        }
        i = i + 1;
    }
    None
}

/// What the search through a pod's pull secrets does next.
pub enum CredentialAction {
    /// Fetch the pull secret at this position and hand its config back.
    FetchSecret(usize),
    /// Stop: this `auth` value was found for the registry.
    Use(String),
    /// Stop: no pull secret has an entry for the registry; pull anonymously.
    Anonymous,
}

/// First step of the search through `total` pull secrets.
pub fn begin_credential_search(total: usize) -> (r: CredentialAction)
    ensures
        total == 0 ==> r is Anonymous,
        total > 0 ==> r == CredentialAction::FetchSecret(0),
{
    if total == 0 {
        CredentialAction::Anonymous
    } else {
        CredentialAction::FetchSecret(0)
    }
}

/// Next step of the search, given what the pull secret at position `index`
/// held (`None` where it could not be fetched or parsed). The first secret
/// with an entry for `host` ends the search; later ones are not fetched.
pub fn credential_step(index: usize, total: usize, lookup: &Option<DockerConfigJson>, host: &str) -> (r: CredentialAction)
    requires
        index < total,
    ensures
        ({
            let found = match lookup {
                Some(c) => auth_for_spec(c@, host@),
                None => None,
            };
            match found {
                Some(a) => r matches CredentialAction::Use(u) && u@ == a,
                None => if index + 1 < total {
                    r == CredentialAction::FetchSecret((index + 1) as usize)
                } else {
                    r is Anonymous
                },
            }
        }),
{
    let found = match lookup {
        Some(c) => auth_for_host(c, host),
        None => None,
    };
    match found {
        Some(a) => CredentialAction::Use(a),
        None => if index + 1 < total {
            CredentialAction::FetchSecret(index + 1)
        } else {
            CredentialAction::Anonymous
        },
    }
}

/// Username and password that an `auth` value encodes: base64 of
/// "username:password", split at the first ":".
pub open spec fn decode_credential_spec(auth: Seq<char>) -> Result<(Seq<char>, Seq<char>), CredentialError> {
    match base64_decoded(auth) {
        None => Err(CredentialError::InvalidBase64),
        Some(bytes) => if !valid_utf8(bytes) {
            Err(CredentialError::InvalidUtf8)
        } else {
            let text = decode_utf8(bytes);
            let k = first_index(text, ':');
            if k < 0 {
                Err(CredentialError::MissingSeparator)
            } else {
                Ok((text.take(k), text.skip(k + 1)))
            }
        },
    }
}

/// Splits decoded credential text at its first ":" into username and
/// password.
pub fn split_credential(text: &str) -> (r: Result<Credentials, CredentialError>)
    ensures
        ({
            let k = first_index(text@, ':');
            match r {
                Ok(c) => k >= 0 && c.username@ == text@.take(k) && c.password@ == text@.skip(k + 1),
                Err(e) => k < 0 && e == CredentialError::MissingSeparator,
            }
        }),
{
    let (_, colon, _) = scan_char(text, ':');
    proof {
        lemma_first_index(text@, ':');
    }
    let k = match colon {
        Some(k) => k,
        None => return Err(CredentialError::MissingSeparator),
    };
    let n = text.unicode_len();
    let user = text.substring_char(0, k);
    let pass = text.substring_char(k + 1, n);
    assert(user@ =~= text@.take(k as int));
    assert(pass@ =~= text@.skip(k + 1));
    Ok(Credentials { username: String::from_str(user), password: String::from_str(pass) })
}

/// Decodes the `auth` value of a docker config entry into username and
/// password. Each way in which it can be unusable is an error of its own.
pub fn decode_credential(auth: &str) -> (r: Result<Credentials, CredentialError>)
    ensures
        match r {
            Ok(c) => decode_credential_spec(auth@) == Ok::<(Seq<char>, Seq<char>), CredentialError>((c.username@, c.password@)),
            Err(e) => decode_credential_spec(auth@) == Err::<(Seq<char>, Seq<char>), CredentialError>(e),
        },
{
    let bytes = match decode_base64(auth) {
        Ok(b) => b,
        Err(_) => return Err(CredentialError::InvalidBase64),
    };
    let text = match utf8_to_string(bytes) {
        Some(t) => t,
        None => return Err(CredentialError::InvalidUtf8),
    };
    split_credential(text.as_str())
}

/// The credential comes from the first pull secret whose config has an entry
/// for exactly `host`: what later secrets hold plays no part.
pub proof fn lemma_first_matching_secret_wins(
    lookups: Seq<Option<Seq<(Seq<char>, Seq<char>)>>>,
    other: Seq<Option<Seq<(Seq<char>, Seq<char>)>>>,
    host: Seq<char>,
    k: int,
)
    requires
        0 <= k < lookups.len(),
        secret_auth(lookups[k], host) is Some,
        forall|j: int| 0 <= j < k ==> secret_auth(lookups[j], host) is None,
        k < other.len(),
        other.take(k + 1) == lookups.take(k + 1),
    ensures
        first_match(lookups, host) == secret_auth(lookups[k], host),
        first_match(other, host) == first_match(lookups, host),
    decreases k,
{
    assert(other[k] == other.take(k + 1)[k]);
    assert(lookups[k] == lookups.take(k + 1)[k]);
    if k > 0 {
        assert(other[0] == other.take(k + 1)[0]);
        assert(lookups[0] == lookups.take(k + 1)[0]);
        assert(lookups.skip(1).take(k) =~= lookups.take(k + 1).skip(1));
        assert(other.skip(1).take(k) =~= other.take(k + 1).skip(1));
        assert forall|j: int| 0 <= j < k - 1 implies secret_auth(lookups.skip(1)[j], host) is None by {
            assert(lookups.skip(1)[j] == lookups[j + 1]);
        }
        lemma_first_matching_secret_wins(lookups.skip(1), other.skip(1), host, k - 1);
    }
}

/// Driving `credential_step` from the first secret follows `first_match`:
/// while no earlier secret matched, what remains to be found is what the
/// secrets from `index` on give.
pub proof fn lemma_search_follows_first_match(
    lookups: Seq<Option<Seq<(Seq<char>, Seq<char>)>>>,
    host: Seq<char>,
    index: int,
)
    requires
        0 <= index <= lookups.len(),
        forall|j: int| 0 <= j < index ==> secret_auth(lookups[j], host) is None,
    ensures
        first_match(lookups, host) == first_match(lookups.skip(index), host),
    decreases index,
{
    if index > 0 {
        assert forall|j: int| 0 <= j < index - 1 implies secret_auth(lookups.skip(1)[j], host) is None by {
            assert(lookups.skip(1)[j] == lookups[j + 1]);
        }
        lemma_search_follows_first_match(lookups.skip(1), host, index - 1);
        assert(lookups.skip(1).skip(index - 1) =~= lookups.skip(index));
    } else {
        assert(lookups.skip(0) =~= lookups);
    }
}

} // verus!
