//! SigV4 header generation: the trusted signer boundary and the verified
//! assembly of the final header list.

use vstd::prelude::*;
use vstd::string::StringExecFns;
use vstd::utf8::encode_utf8;

use aws_credential_types::Credentials;
use aws_sigv4::http_request::{sign, SignableBody, SignableRequest, SigningParams, SigningSettings};
use aws_sigv4::sign::v4;
use aws_smithy_runtime_api::client::identity::Identity;
use http::Uri;
use std::time::{Duration, UNIX_EPOCH};

use crate::settings::Settings;

verus! {

/// First instant of year 10000, in milliseconds since the Unix epoch.
/// Signing instants must lie strictly below it: the signer's date
/// formatting cannot represent later years and would abort.
pub const MAX_SIGNING_TIME_MILLIS: u64 = 253_402_300_800_000;

/// `sub` occurs somewhere inside `s`.
pub open spec fn contains_sub(s: Seq<char>, sub: Seq<char>) -> bool {
    exists|k: int|
        0 <= k && k + sub.len() <= s.len() && #[trigger] s.subrange(k, k + sub.len()) == sub
}

/// Whether the SigV4 signer accepts these exact inputs: the URL parses
/// with a host and the signer raises no other objection. Acceptance is a
/// pure function of these arguments: the signer reads nothing else.
pub uninterp spec fn sigv4_accepts(
    access_key: Seq<char>,
    secret_key: Seq<char>,
    session_token: Option<Seq<char>>,
    region: Seq<char>,
    time_millis: u64,
    url: Seq<char>,
    body: Seq<u8>,
) -> bool;

/// The signer's `x-amz-date` rendering of an instant (basic ISO 8601).
pub uninterp spec fn sigv4_datetime(time_millis: u64) -> Seq<char>;

/// The signer's credential-scope date rendering of an instant (`yyyymmdd`).
pub uninterp spec fn sigv4_date(time_millis: u64) -> Seq<char>;

/// The `SignedHeaders` list text the signer emits for these inputs.
pub uninterp spec fn sigv4_signed_names(
    access_key: Seq<char>,
    secret_key: Seq<char>,
    session_token: Option<Seq<char>>,
    region: Seq<char>,
    time_millis: u64,
    url: Seq<char>,
    body: Seq<u8>,
) -> Seq<char>;

/// The hex signature the signer computes over these inputs.
pub uninterp spec fn sigv4_signature(
    access_key: Seq<char>,
    secret_key: Seq<char>,
    session_token: Option<Seq<char>>,
    region: Seq<char>,
    time_millis: u64,
    url: Seq<char>,
    body: Seq<u8>,
) -> Seq<char>;

/// The `authorization` value the signer builds: the algorithm, the
/// credential scope `<key>/<date>/<region>/kinesis/aws4_request`, the
/// signed header names, and the signature.
pub open spec fn sigv4_authorization(
    access_key: Seq<char>,
    secret_key: Seq<char>,
    session_token: Option<Seq<char>>,
    region: Seq<char>,
    time_millis: u64,
    url: Seq<char>,
    body: Seq<u8>,
) -> Seq<char> {
    "AWS4-HMAC-SHA256 Credential="@ + access_key + "/"@ + sigv4_date(time_millis) + "/"@ + region
        + "/kinesis/aws4_request, SignedHeaders="@ + sigv4_signed_names(
        access_key,
        secret_key,
        session_token,
        region,
        time_millis,
        url,
        body,
    ) + ", Signature="@ + sigv4_signature(
        access_key,
        secret_key,
        session_token,
        region,
        time_millis,
        url,
        body,
    )
}

/// The headers the signer emits on acceptance, in emission order: the
/// timestamp, the authorization, and — exactly when a session token is
/// bound — the token. All names are lowercase.
pub open spec fn sigv4_headers(
    access_key: Seq<char>,
    secret_key: Seq<char>,
    session_token: Option<Seq<char>>,
    region: Seq<char>,
    time_millis: u64,
    url: Seq<char>,
    body: Seq<u8>,
) -> Seq<(Seq<char>, Seq<char>)> {
    seq![
        ("x-amz-date"@, sigv4_datetime(time_millis)),
        (
            "authorization"@,
            sigv4_authorization(
                access_key,
                secret_key,
                session_token,
                region,
                time_millis,
                url,
                body,
            ),
        ),
    ] + (match session_token {
        Some(tok) => seq![("x-amz-security-token"@, tok)],
        None => Seq::<(Seq<char>, Seq<char>)>::empty(),
    })
}

/// Relies on aws_sigv4's `http_request::sign` over a `POST` of the given
/// body to the given URL, with default signing settings and an identity made
/// of these static credentials via aws_credential_types' `Credentials::new`.
/// The signer is deterministic in these inputs: it accepts or rejects them
/// (`sigv4_accepts`; every rejection comes back as `None`), and on
/// acceptance emits exactly the headers of `sigv4_headers` — `x-amz-date`,
/// `authorization` in the format of `sigv4_authorization`, and the session
/// token header exactly when a token is bound, its name then among the
/// signed header names. The time bound keeps the instant inside the years
/// the signer's date formatting can represent; a URL whose parse (http's
/// `Uri`) carries no host is rejected up front, since the signer would not
/// return on one.
#[verifier::external_body]
fn sigv4_sign(
    access_key: &str,
    secret_key: &str,
    session_token: Option<&String>,
    region: &str,
    time_millis: u64,
    url: &str,
    body: &[u8],
) -> (r: Option<Vec<(String, String)>>)
    requires
        time_millis < MAX_SIGNING_TIME_MILLIS,
    ensures
        r is Some <==> sigv4_accepts(
            access_key@,
            secret_key@,
            session_token.deep_view(),
            region@,
            time_millis,
            url@,
            body@,
        ),
        r matches Some(hs) ==> ({
            &&& hs.deep_view() == sigv4_headers(
                access_key@,
                secret_key@,
                session_token.deep_view(),
                region@,
                time_millis,
                url@,
                body@,
            )
            &&& hs.deep_view()[0].1 == sigv4_datetime(time_millis)
            &&& contains_sub(hs.deep_view()[1].1, sigv4_date(time_millis))
            &&& contains_sub(
                hs.deep_view()[1].1,
                sigv4_signature(
                    access_key@,
                    secret_key@,
                    session_token.deep_view(),
                    region@,
                    time_millis,
                    url@,
                    body@,
                ),
            )
            &&& (session_token matches Some(tok) ==> contains_sub(
                sigv4_signed_names(
                    access_key@,
                    secret_key@,
                    session_token.deep_view(),
                    region@,
                    time_millis,
                    url@,
                    body@,
                ),
                "x-amz-security-token"@,
            ))
        }),
{
    url.parse::<Uri>().ok()?.host()?;
    let identity: Identity =
        Credentials::new(access_key, secret_key, session_token.cloned(), None, "static-credentials")
        .into();
    let params: SigningParams = v4::SigningParams::builder().identity(&identity).region(region)
        .name("kinesis").time(UNIX_EPOCH + Duration::from_millis(time_millis))
        .settings(SigningSettings::default()).build().ok()?.into();
    let req = SignableRequest::new("POST", url, std::iter::empty(), SignableBody::Bytes(body)).ok()?;
    let (instructions, _signature) = sign(req, &params).ok()?.into_parts();
    Some(instructions.headers().map(|(k, v)| (k.to_string(), v.to_string())).collect())
}

/// Relies on std's `SystemTime::now`: milliseconds since the Unix epoch,
/// zero if the clock reads earlier than the epoch.
#[verifier::external_body]
fn now_millis() -> (r: u64) {
    match std::time::SystemTime::now().duration_since(std::time::UNIX_EPOCH) {
        Ok(d) => d.as_millis() as u64,
        Err(_) => 0,
    }
}

/// The two protocol headers appended after the signer's: the service target
/// and the content type.
pub open spec fn static_headers() -> Seq<(Seq<char>, Seq<char>)> {
    seq![
        ("x-amz-target"@, "Kinesis_20131202.PutRecord"@),
        ("content-type"@, "application/x-amz-json-1.1"@),
    ]
}

/// The session token as the signer sees it: an empty token means none.
pub open spec fn session_token_view(s: &Settings) -> Option<Seq<char>> {
    if s.session_token@.len() == 0 {
        None
    } else {
        Some(s.session_token@)
    }
}

/// Whether the signer accepts this request under these settings.
pub open spec fn signing_accepted(
    s: &Settings,
    url: Seq<char>,
    body: Seq<char>,
    time_millis: u64,
) -> bool {
    sigv4_accepts(
        s.access_key@,
        s.secret_key@,
        session_token_view(s),
        s.region@,
        time_millis,
        url,
        encode_utf8(body),
    )
}

/// The full header list of a successful signing: the signer's headers in
/// emission order, then the two static ones.
pub open spec fn signed_header_set(
    s: &Settings,
    url: Seq<char>,
    body: Seq<char>,
    time_millis: u64,
) -> Seq<(Seq<char>, Seq<char>)> {
    sigv4_headers(
        s.access_key@,
        s.secret_key@,
        session_token_view(s),
        s.region@,
        time_millis,
        url,
        encode_utf8(body),
    ) + static_headers()
}

/// What header generation returns: the signed set when the signer accepts
/// the inputs, the two static headers alone when it rejects them.
pub open spec fn headers_post(
    s: &Settings,
    url: Seq<char>,
    body: Seq<char>,
    time_millis: u64,
    r: Seq<(Seq<char>, Seq<char>)>,
) -> bool {
    r == if signing_accepted(s, url, body, time_millis) {
        signed_header_set(s, url, body, time_millis)
    } else {
        static_headers()
    }
}

/// The authorization value contains the credential-scope text naming the
/// region and the `kinesis` service.
proof fn lemma_auth_contains_scope(
    access_key: Seq<char>,
    secret_key: Seq<char>,
    session_token: Option<Seq<char>>,
    region: Seq<char>,
    time_millis: u64,
    url: Seq<char>,
    body: Seq<u8>,
)
    ensures
        contains_sub(
            sigv4_authorization(
                access_key,
                secret_key,
                session_token,
                region,
                time_millis,
                url,
                body,
            ),
            "/"@ + region + "/kinesis/aws4_request"@,
        ),
{
    reveal_strlit("AWS4-HMAC-SHA256 Credential=");
    reveal_strlit("/");
    reveal_strlit("/kinesis/aws4_request, SignedHeaders=");
    reveal_strlit("/kinesis/aws4_request");
    let auth = sigv4_authorization(
        access_key,
        secret_key,
        session_token,
        region,
        time_millis,
        url,
        body,
    );
    let sub = "/"@ + region + "/kinesis/aws4_request"@;
    let k: int = "AWS4-HMAC-SHA256 Credential="@.len() as int + access_key.len() + 1
        + sigv4_date(time_millis).len();
    assert(auth.subrange(k, k + sub.len()) =~= sub);
    assert(contains_sub(auth, sub));
}

impl Settings {
    /// Builds the header set for a `POST` of `body` to `url`, signed at the
    /// given instant: the signer's headers followed by the two protocol
    /// headers when the signer accepts the inputs, the two protocol headers
    /// alone when it rejects them. A rejection cannot arise from settings
    /// built by [`Settings::new`] with a well-formed region; it is surfaced
    /// as this visibly unsigned result — detectable as a list of exactly two
    /// entries — rather than as an abort, which a verified function cannot
    /// make.
    pub fn generate_headers_at(&self, url: &str, body: &str, time_millis: u64) -> (r: Vec<
        (String, String),
    >)
        requires
            time_millis < MAX_SIGNING_TIME_MILLIS,
        ensures
            headers_post(self, url@, body@, time_millis, r.deep_view()),
            r.deep_view().len() >= 2,
            r.deep_view()[r.deep_view().len() - 2] == ("x-amz-target"@, "Kinesis_20131202.PutRecord"@),
            r.deep_view()[r.deep_view().len() - 1] == ("content-type"@, "application/x-amz-json-1.1"@),
            signing_accepted(self, url@, body@, time_millis) ==> exists|i: int|
                0 <= i < r.deep_view().len() && (#[trigger] r.deep_view()[i]).0 == "authorization"@
                    && contains_sub(
                    r.deep_view()[i].1,
                    "/"@ + self.region@ + "/kinesis/aws4_request"@,
                ),
            signing_accepted(self, url@, body@, time_millis) && self.session_token@.len() > 0
                ==> (exists|i: int|
                0 <= i < r.deep_view().len() && #[trigger] r.deep_view()[i] == (
                    "x-amz-security-token"@,
                    self.session_token@,
                )) && contains_sub(
                sigv4_signed_names(
                    self.access_key@,
                    self.secret_key@,
                    session_token_view(self),
                    self.region@,
                    time_millis,
                    url@,
                    encode_utf8(body@),
                ),
                "x-amz-security-token"@,
            ),
            self.session_token@.len() == 0 ==> forall|i: int|
                0 <= i < r.deep_view().len() ==> (#[trigger] r.deep_view()[i]).0
                    != "x-amz-security-token"@,
    {
        proof {
            reveal_strlit("x-amz-date");
            reveal_strlit("authorization");
            reveal_strlit("x-amz-security-token");
            reveal_strlit("x-amz-target");
            reveal_strlit("content-type");
        }
        let session_token: Option<&String> = if self.session_token.as_str().is_empty() {
            None
        } else {
            Some(&self.session_token)
        };
        proof {
            assert(session_token.deep_view() == session_token_view(self));
        }
        let signed = sigv4_sign(
            self.access_key.as_str(),
            self.secret_key.as_str(),
            session_token,
            self.region.as_str(),
            time_millis,
            url,
            body.as_bytes(),
        );
        let ghost named = sigv4_headers(
            self.access_key@,
            self.secret_key@,
            session_token_view(self),
            self.region@,
            time_millis,
            url@,
            encode_utf8(body@),
        );
        let mut headers: Vec<(String, String)> = match signed {
            Some(hs) => hs,
            None => Vec::new(),
        };
        let ghost base = headers.deep_view();
        headers.push((String::from_str("x-amz-target"), String::from_str("Kinesis_20131202.PutRecord")));
        headers.push((String::from_str("content-type"), String::from_str("application/x-amz-json-1.1")));
        proof {
            let dv = headers.deep_view();
            assert(dv =~= base + static_headers());
            if signed is Some {
                assert(base == named);
                assert(dv == signed_header_set(self, url@, body@, time_millis));
                lemma_auth_contains_scope(
                    self.access_key@,
                    self.secret_key@,
                    session_token_view(self),
                    self.region@,
                    time_millis,
                    url@,
                    encode_utf8(body@),
                );
                assert(dv[1] == named[1]);
                if self.session_token@.len() > 0 {
                    assert(named[2] == ("x-amz-security-token"@, self.session_token@));
                    assert(dv[2] == named[2]);
                } else {
                    assert(named =~= seq![named[0], named[1]]);
                    assert forall|i: int| 0 <= i < dv.len() implies (#[trigger] dv[i]).0
                        != "x-amz-security-token"@ by {
                        assert(dv[i].0.len() != "x-amz-security-token"@.len());
                    }
                }
            } else {
                assert(base =~= Seq::<(Seq<char>, Seq<char>)>::empty());
                assert(dv =~= static_headers());
                assert forall|i: int| 0 <= i < dv.len() implies (#[trigger] dv[i]).0
                    != "x-amz-security-token"@ by {
                    assert(dv[i].0.len() != "x-amz-security-token"@.len());
                }
            }
        }
        headers
    }

    /// Builds the header set for a `POST` of `body` to `url`, signed at the
    /// wall-clock time of the call. The clock is clamped below the last
    /// representable signing instant so the signer's date formatting cannot
    /// be driven out of range.
    pub fn generate_headers(&self, url: String, body: String) -> (r: Vec<(String, String)>)
        ensures
            exists|t: u64|
                t < MAX_SIGNING_TIME_MILLIS && headers_post(self, url@, body@, t, r.deep_view()),
            r.deep_view().len() >= 2,
            r.deep_view()[r.deep_view().len() - 2] == ("x-amz-target"@, "Kinesis_20131202.PutRecord"@),
            r.deep_view()[r.deep_view().len() - 1] == ("content-type"@, "application/x-amz-json-1.1"@),
            r.deep_view().len() > 2 ==> exists|i: int|
                0 <= i < r.deep_view().len() && (#[trigger] r.deep_view()[i]).0 == "authorization"@
                    && contains_sub(
                    r.deep_view()[i].1,
                    "/"@ + self.region@ + "/kinesis/aws4_request"@,
                ),
            r.deep_view().len() > 2 && self.session_token@.len() > 0 ==> exists|i: int|
                0 <= i < r.deep_view().len() && #[trigger] r.deep_view()[i] == (
                    "x-amz-security-token"@,
                    self.session_token@,
                ),
            self.session_token@.len() == 0 ==> forall|i: int|
                0 <= i < r.deep_view().len() ==> (#[trigger] r.deep_view()[i]).0
                    != "x-amz-security-token"@,
    {
        let t0 = now_millis();
        let t = if t0 < MAX_SIGNING_TIME_MILLIS {
            t0
        } else {
            MAX_SIGNING_TIME_MILLIS - 1
        };
        let r = self.generate_headers_at(url.as_str(), body.as_str(), t);
        proof {
            assert(headers_post(self, url@, body@, t, r.deep_view()));
            if r.deep_view().len() > 2 {
                assert(signing_accepted(self, url@, body@, t));
            }
        }
        r
    }
}

/// With the clock fixed, header generation is deterministic: two header
/// lists produced for the same settings, URL, body and instant are
/// identical, down to the signature bytes.
pub proof fn lemma_headers_deterministic(
    s: &Settings,
    url: Seq<char>,
    body: Seq<char>,
    time_millis: u64,
    r1: Seq<(Seq<char>, Seq<char>)>,
    r2: Seq<(Seq<char>, Seq<char>)>,
)
    requires
        headers_post(s, url, body, time_millis, r1),
        headers_post(s, url, body, time_millis, r2),
    ensures
        r1 == r2,
{
}

/// The header set depends only on the credentials, session token, region,
/// instant, URL and body: two settings differing in stream identity or
/// partition key sign identically.
pub proof fn lemma_headers_ignore_stream(
    s1: &Settings,
    s2: &Settings,
    url: Seq<char>,
    body: Seq<char>,
    time_millis: u64,
    r1: Seq<(Seq<char>, Seq<char>)>,
    r2: Seq<(Seq<char>, Seq<char>)>,
)
    requires
        s1.access_key@ == s2.access_key@,
        s1.secret_key@ == s2.secret_key@,
        s1.session_token@ == s2.session_token@,
        s1.region@ == s2.region@,
        headers_post(s1, url, body, time_millis, r1),
        headers_post(s2, url, body, time_millis, r2),
    ensures
        r1 == r2,
{
    assert(session_token_view(s1) == session_token_view(s2));
}

} // verus!
