//! Configuration record for the Kinesis `PutRecord` request builder, and the
//! endpoint strings derived from it.

use vstd::prelude::*;
use vstd::string::StringExecFns;

verus! {

/// The one recoverable error: a required configuration key is absent. It
/// carries the name of the missing key.
#[derive(Debug)]
pub enum ConfigError {
    MissingConfig(String),
}

/// The value a key resolves to in a key/value mapping where a later entry
/// overrides an earlier one with the same key.
pub open spec fn dict_get(d: Seq<(Seq<char>, Seq<char>)>, k: Seq<char>) -> Option<Seq<char>>
    decreases d.len(),
{
    if d.len() == 0 {
        None
    } else if d.last().0 == k {
        Some(d.last().1)
    } else {
        dict_get(d.drop_last(), k)
    }
}

/// `r` is the `MissingConfig` error naming `key`.
pub open spec fn is_missing_key(r: Result<Settings, ConfigError>, key: Seq<char>) -> bool {
    r matches Err(ConfigError::MissingConfig(k)) && k@ == key
}

/// Immutable configuration resolved from the caller's key/value mapping.
pub struct Settings {
    pub access_key: String,
    pub secret_key: String,
    /// May be empty; empty means "no session token".
    pub session_token: String,
    pub region: String,
    pub kinesis_stream: String,
    /// Never empty: either caller-provided or a generated UUID.
    pub kinesis_partition: String,
}

/// The Kinesis endpoint host for a region.
pub open spec fn host_view(region: Seq<char>) -> Seq<char> {
    "kinesis."@ + region + ".amazonaws.com"@
}

/// The Kinesis endpoint URL for a region; the trailing slash is required by
/// the signer's path canonicalization.
pub open spec fn url_view(region: Seq<char>) -> Seq<char> {
    "https://"@ + host_view(region) + "/"@
}

/// A lowercase hexadecimal digit.
pub open spec fn lower_hex_digit(c: char) -> bool {
    48 <= c as int <= 57 || 97 <= c as int <= 102
}

/// The canonical 8-4-4-4-12 hyphenated rendering of a version-4 UUID:
/// 36 characters, hyphens at positions 8, 13, 18 and 23, lowercase hex
/// digits everywhere else, and `4` as the version nibble.
pub open spec fn is_canonical_v4_uuid(s: Seq<char>) -> bool {
    &&& s.len() == 36
    &&& s[8] == '-' && s[13] == '-' && s[18] == '-' && s[23] == '-'
    &&& s[14] == '4'
    &&& forall|i: int|
        0 <= i < 36 && i != 8 && i != 13 && i != 18 && i != 23 ==> lower_hex_digit(#[trigger] s[i])
}

/// Relies on uuid's `Uuid::new_v4` (version nibble forced to 4) and its
/// hyphenated lowercase `Display`: a fresh random v4 UUID in the canonical
/// 36-character form.
#[verifier::external_body]
fn fresh_uuid_string() -> (r: String)
    ensures
        is_canonical_v4_uuid(r@),
{
    uuid::Uuid::new_v4().to_string()
}

/// Looks `key` up in the mapping, later entries overriding earlier ones.
fn dict_lookup(dict: &Vec<(String, String)>, key: &str) -> (r: Option<String>)
    ensures
        r.deep_view() == dict_get(dict.deep_view(), key@),
{
    let k = String::from_str(key);
    let ghost d = dict.deep_view();
    let mut i: usize = dict.len();
    proof {
        assert(d.take(i as int) =~= d);
    }
    while i > 0
        invariant
            i <= dict.len(),
            k@ == key@,
            d == dict.deep_view(),
            dict_get(d, key@) == dict_get(d.take(i as int), key@),
        decreases i,
    {
        proof {
            assert(d[i - 1] == dict@[i - 1].deep_view());
            assert(d[i - 1].0 == dict@[i - 1].0@ && d[i - 1].1 == dict@[i - 1].1@);
            assert(d.take(i as int).last() == d[i - 1]);
            assert(d.take(i as int).drop_last() =~= d.take(i - 1));
        }
        if dict[i - 1].0 == k {
            proof {
                assert(d[i - 1].0 == key@);
                assert(dict_get(d.take(i as int), key@) == Some(d[i - 1].1));
            }
            return Some(dict[i - 1].1.clone());
        }
        i = i - 1;
    }
    proof {
        assert(d.take(0) =~= Seq::<(Seq<char>, Seq<char>)>::empty());
    }
    None
}

impl Settings {
    /// Structural invariant established by construction: the partition key is
    /// never empty.
    pub open spec fn wf(&self) -> bool {
        self.kinesis_partition@.len() > 0
    }

    /// Resolves the key/value mapping into settings: the four required keys
    /// must be present (else the first missing one, in order, is reported);
    /// an absent session token becomes empty; an absent or empty partition
    /// key is replaced by a freshly generated UUID.
    pub fn new(settings_dict: Vec<(String, String)>) -> (r: Result<Self, ConfigError>)
        ensures
            ({
                let d = settings_dict.deep_view();
                &&& (r is Ok <==> dict_get(d, "aws_access_key"@) is Some && dict_get(
                    d,
                    "aws_secret_key"@,
                ) is Some && dict_get(d, "aws_region"@) is Some && dict_get(
                    d,
                    "kinesis_stream"@,
                ) is Some)
                &&& (r matches Ok(s) ==> ({
                    &&& Some(s.access_key@) == dict_get(d, "aws_access_key"@)
                    &&& Some(s.secret_key@) == dict_get(d, "aws_secret_key"@)
                    &&& Some(s.region@) == dict_get(d, "aws_region"@)
                    &&& Some(s.kinesis_stream@) == dict_get(d, "kinesis_stream"@)
                    &&& s.session_token@ == (match dict_get(d, "aws_session_token"@) {
                        Some(v) => v,
                        None => Seq::<char>::empty(),
                    })
                    &&& (match dict_get(d, "kinesis_partition"@) {
                        Some(v) => (v.len() > 0 ==> s.kinesis_partition@ == v) && (v.len() == 0
                            ==> is_canonical_v4_uuid(s.kinesis_partition@)),
                        None => is_canonical_v4_uuid(s.kinesis_partition@),
                    })
                    &&& s.wf()
                }))
                &&& (dict_get(d, "aws_access_key"@) is None ==> is_missing_key(
                    r,
                    "aws_access_key"@,
                ))
                &&& (dict_get(d, "aws_access_key"@) is Some && dict_get(d, "aws_secret_key"@)
                    is None ==> is_missing_key(r, "aws_secret_key"@))
                &&& (dict_get(d, "aws_access_key"@) is Some && dict_get(d, "aws_secret_key"@)
                    is Some && dict_get(d, "aws_region"@) is None ==> is_missing_key(
                    r,
                    "aws_region"@,
                ))
                &&& (dict_get(d, "aws_access_key"@) is Some && dict_get(d, "aws_secret_key"@)
                    is Some && dict_get(d, "aws_region"@) is Some && dict_get(
                    d,
                    "kinesis_stream"@,
                ) is None ==> is_missing_key(r, "kinesis_stream"@))
            }),
    {
        let access_key = match dict_lookup(&settings_dict, "aws_access_key") {
            Some(v) => v,
            None => {
                return Err(ConfigError::MissingConfig(String::from_str("aws_access_key")));
            },
        };
        let secret_key = match dict_lookup(&settings_dict, "aws_secret_key") {
            Some(v) => v,
            None => {
                return Err(ConfigError::MissingConfig(String::from_str("aws_secret_key")));
            },
        };
        let session_token = match dict_lookup(&settings_dict, "aws_session_token") {
            Some(v) => v,
            None => String::new(),
        };
        let region = match dict_lookup(&settings_dict, "aws_region") {
            Some(v) => v,
            None => {
                return Err(ConfigError::MissingConfig(String::from_str("aws_region")));
            },
        };
        let kinesis_stream = match dict_lookup(&settings_dict, "kinesis_stream") {
            Some(v) => v,
            None => {
                return Err(ConfigError::MissingConfig(String::from_str("kinesis_stream")));
            },
        };
        let kinesis_partition = match dict_lookup(&settings_dict, "kinesis_partition") {
            Some(v) => if v.as_str().is_empty() {
                fresh_uuid_string()
            } else {
                v
            },
            None => fresh_uuid_string(),
        };
        Ok(
            Settings {
                access_key,
                secret_key,
                session_token,
                region,
                kinesis_stream,
                kinesis_partition,
            },
        )
    }

    pub fn generate_kinesis_host(&self) -> (r: String)
        ensures
            r@ == host_view(self.region@),
    {
        let mut s = String::from_str("kinesis.");
        s.append(self.region.as_str());
        s.append(".amazonaws.com");
        s
    }

    pub fn generate_kinesis_url(&self) -> (r: String)
        ensures
            r@ == url_view(self.region@),
    {
        let mut s = String::from_str("https://");
        let host = self.generate_kinesis_host();
        s.append(host.as_str());
        s.append("/");
        s
    }
}

} // verus!
