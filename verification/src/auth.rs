//! OAuth/OIDC helpers: PKCE codes, authorization URLs, token request
//! bodies and bearer token parts.

use base64::Engine;
use rand::Rng;
use sha2::Digest;
use vstd::prelude::*;

use crate::api::endpoints::{
    append_query_pair, clear_query_pairs, replace_last_segment, url_last_segment_replaced,
    url_query_appended, url_query_pairs_cleared,
};
use crate::text::{
    chars_of, eq_lit, is_prefix, replace_all, replaced, split_chars, split_on, starts_with, string_of,
};

verus! {

/// OIDC scopes requested by this client, space separated.
pub open spec fn oidc_scopes() -> Seq<char> {
    "openid offline_access"@
}

/// OIDC Client id used to identify this client to the oidc server
pub const OIDC_CLIENT_ID: &'static str = "phylum_cli";

/// Locksmith tokens are their own access tokens and carry this prefix.
pub fn is_locksmith_token(token: &str) -> (b: bool)
    ensures
        b == is_prefix("ph0_"@, token@),
{
    let t = chars_of(token);
    let p = chars_of("ph0_");
    starts_with(&t, &p)
}

/// What the authorization flow is for.
#[derive(Debug, PartialEq, Eq, Structural, Clone, Copy)]
pub enum AuthAction {
    Login,
    Reauth,
    Register,
}

/// Typed wrapper for PKCE challenge code string
#[derive(Debug)]
pub struct ChallengeCode(pub String);

/// Typed wrapper for PKCE code verifier string
#[derive(Debug)]
pub struct CodeVerifier(pub String);

/// An OAuth authorization code.
#[derive(Debug)]
pub struct AuthorizationCode(pub String);

/// An OAuth refresh token.
#[derive(Debug)]
pub struct RefreshToken(pub String);

/// An OAuth access token.
#[derive(Debug)]
pub struct AccessToken(pub String);

/// Represents the userdata stored for an authentication token.
#[derive(Debug)]
pub struct UserInfo {
    pub email: String,
    pub sub: Option<String>,
    pub name: Option<String>,
    pub given_name: Option<String>,
    pub family_name: Option<String>,
    pub preferred_username: Option<String>,
    pub email_verified: Option<bool>,
}

/// Whether `c` is an ASCII letter or digit.
pub open spec fn is_alphanumeric(c: char) -> bool {
    ('a' <= c <= 'z') || ('A' <= c <= 'Z') || ('0' <= c <= '9')
}

/// Draws `length` characters uniformly from `[A-Za-z0-9]` with
/// `rand::thread_rng` and the `Alphanumeric` distribution. Trusted: the
/// string has `length` characters, each an ASCII letter or digit (what
/// `Alphanumeric` samples); the characters themselves are random.
#[verifier::external_body]
fn random_alphanumeric(length: usize) -> (s: String)
    ensures
        s@.len() == length,
        forall|i: int| 0 <= i < length ==> is_alphanumeric(#[trigger] s@[i]),
{
    rand::thread_rng().sample_iter(&rand::distributions::Alphanumeric).take(length).map(
        char::from,
    ).collect()
}

/// The SHA-256 digest of `data`.
pub uninterp spec fn sha256_of(data: Seq<u8>) -> Seq<u8>;

/// Computes SHA-256 with `sha2::Sha256`. Trusted: the digest is the one
/// `sha256_of` names, and it is 32 bytes long.
#[verifier::external_body]
fn sha256_digest(data: &[u8]) -> (d: Vec<u8>)
    ensures
        d@ == sha256_of(data@),
        d@.len() == 32,
{
    let mut hasher = sha2::Sha256::new();
    hasher.update(data);
    hasher.finalize().to_vec()
}

/// The character for a six-bit value in the URL-safe base64 alphabet.
pub open spec fn b64url_char(v: nat) -> char {
    if v < 26 {
        (('A' as nat) + v) as char
    } else if v < 52 {
        (('a' as nat) + v - 26) as char
    } else if v < 62 {
        (('0' as nat) + v - 52) as char
    } else if v == 62 {
        '-'
    } else {
        '_'
    }
}

/// URL-safe base64 of `b` without padding (RFC 4648, section 5): each three
/// bytes give four characters, a trailing one or two bytes give two or three.
pub open spec fn b64url_nopad(b: Seq<u8>) -> Seq<char>
    decreases b.len(),
{
    if b.len() == 0 {
        Seq::<char>::empty()
    } else if b.len() == 1 {
        seq![b64url_char(b[0] as nat / 4), b64url_char((b[0] as nat % 4) * 16)]
    } else if b.len() == 2 {
        seq![
            b64url_char(b[0] as nat / 4),
            b64url_char((b[0] as nat % 4) * 16 + b[1] as nat / 16),
            b64url_char((b[1] as nat % 16) * 4),
        ]
    } else {
        seq![
            b64url_char(b[0] as nat / 4),
            b64url_char((b[0] as nat % 4) * 16 + b[1] as nat / 16),
            b64url_char((b[1] as nat % 16) * 4 + b[2] as nat / 64),
            b64url_char(b[2] as nat % 64),
        ] + b64url_nopad(b.skip(3))
    }
}

/// Encodes with `base64::engine::general_purpose::URL_SAFE_NO_PAD`. Trusted:
/// the encoding is RFC 4648 URL-safe base64 without padding.
#[verifier::external_body]
fn encode_b64url_nopad(data: &[u8]) -> (s: String)
    ensures
        s@ == b64url_nopad(data@),
{
    base64::engine::general_purpose::URL_SAFE_NO_PAD.encode(data)
}

/// Why a PKCE code pair could not be made.
#[derive(Debug, PartialEq, Eq, Structural, Clone, Copy)]
pub enum PkceError {
    /// The verifier length must be between 43 and 128 inclusive.
    InvalidLength,
}

/// Whether `v` and `c` are a PKCE verifier of `length` letters and digits and
/// its S256 challenge.
pub open spec fn pkce_pair(length: u8, v: Seq<char>, c: Seq<char>) -> bool {
    &&& v.len() == length
    &&& forall|i: int| 0 <= i < v.len() ==> is_alphanumeric(#[trigger] v[i])
    &&& sha256_of(vstd::utf8::encode_utf8(v)).len() == 32
    &&& c == b64url_nopad(sha256_of(vstd::utf8::encode_utf8(v)))
}

/// Whether a character is of the URL-safe base64 alphabet.
pub open spec fn is_url_safe(ch: char) -> bool {
    is_alphanumeric(ch) || ch == '-' || ch == '_'
}

/// Unpadded URL-safe base64 takes four characters per three bytes, rounded
/// up, all of the URL-safe alphabet.
proof fn lemma_b64url_nopad(b: Seq<u8>)
    ensures
        b64url_nopad(b).len() == (4 * b.len() + 2) / 3,
        forall|i: int| 0 <= i < b64url_nopad(b).len() ==> is_url_safe(#[trigger] b64url_nopad(b)[i]),
    decreases b.len(),
{
    if b.len() >= 3 {
        lemma_b64url_nopad(b.skip(3));
        let head = seq![
            b64url_char(b[0] as nat / 4),
            b64url_char((b[0] as nat % 4) * 16 + b[1] as nat / 16),
            b64url_char((b[1] as nat % 16) * 4 + b[2] as nat / 64),
            b64url_char(b[2] as nat % 64),
        ];
        let all = b64url_nopad(b);
        assert(all == head + b64url_nopad(b.skip(3)));
        assert forall|i: int| 0 <= i < all.len() implies is_url_safe(#[trigger] all[i]) by {
            if i >= 4 {
                assert(all[i] == b64url_nopad(b.skip(3))[i - 4]);
            }
        }
    }
}

/// A PKCE challenge (S256, RFC 7636) is 43 characters of the URL-safe
/// alphabet, whatever the verifier.
pub proof fn law_pkce_challenge_shape(length: u8, v: Seq<char>, c: Seq<char>)
    requires
        pkce_pair(length, v, c),
    ensures
        c.len() == 43,
        forall|i: int| 0 <= i < c.len() ==> is_url_safe(#[trigger] c[i]),
{
    lemma_b64url_nopad(sha256_of(vstd::utf8::encode_utf8(v)));
}

impl CodeVerifier {
    /// Generate a OIDC PKCE challenge code and verifier
    pub fn generate(length: u8) -> (r: Result<(CodeVerifier, ChallengeCode), PkceError>)
        ensures
            r is Err <==> !(43 <= length <= 128),
            r matches Ok((v, c)) ==> pkce_pair(length, v.0@, c.0@),
    {
        if length < 43 || length > 128 {
            return Err(PkceError::InvalidLength);
        }
        let code_verifier = random_alphanumeric(length as usize);
        let hash = sha256_digest(code_verifier.as_str().as_bytes());
        let base_64_url_safe = encode_b64url_nopad(hash.as_slice());
        Ok((CodeVerifier(code_verifier), ChallengeCode(base_64_url_safe)))
    }
}

/// A form body: keys and values in the order they are sent.
pub type FormBody = Vec<(String, String)>;

/// The views of the pairs of a form body.
pub open spec fn form_view(body: Seq<(String, String)>) -> Seq<(Seq<char>, Seq<char>)> {
    body.map_values(|p: (String, String)| (p.0@, p.1@))
}

/// The body of the authorization-code token request.
pub fn build_grant_type_auth_code_post_body(
    redirect_url: &str,
    authorization_code: &AuthorizationCode,
    code_verfier: &CodeVerifier,
) -> (body: FormBody)
    ensures
        form_view(body@) == seq![
            ("client_id"@, OIDC_CLIENT_ID@),
            ("code"@, authorization_code.0@),
            ("code_verifier"@, code_verfier.0@),
            ("grant_type"@, "authorization_code"@),
            ("redirect_uri"@, redirect_url@),
        ],
{
    let body = vec![
        (String::from_str("client_id"), String::from_str(OIDC_CLIENT_ID)),
        (String::from_str("code"), authorization_code.0.clone()),
        (String::from_str("code_verifier"), code_verfier.0.clone()),
        (String::from_str("grant_type"), String::from_str("authorization_code")),
        (String::from_str("redirect_uri"), String::from_str(redirect_url)),
    ];
    assert(form_view(body@) =~= seq![
        ("client_id"@, OIDC_CLIENT_ID@),
        ("code"@, authorization_code.0@),
        ("code_verifier"@, code_verfier.0@),
        ("grant_type"@, "authorization_code"@),
        ("redirect_uri"@, redirect_url@),
    ]);
    body
}

/// The body of the refresh-token request.
pub fn build_grant_type_refresh_token_post_body(refresh_token: &RefreshToken) -> (body: FormBody)
    ensures
        form_view(body@) == seq![
            ("client_id"@, OIDC_CLIENT_ID@),
            ("grant_type"@, "refresh_token"@),
            ("refresh_token"@, refresh_token.0@),
        ],
{
    let body = vec![
        (String::from_str("client_id"), String::from_str(OIDC_CLIENT_ID)),
        (String::from_str("grant_type"), String::from_str("refresh_token")),
        (String::from_str("refresh_token"), refresh_token.0.clone()),
    ];
    assert(form_view(body@) =~= seq![
        ("client_id"@, OIDC_CLIENT_ID@),
        ("grant_type"@, "refresh_token"@),
        ("refresh_token"@, refresh_token.0@),
    ]);
    body
}

/// Locksmith tokens are their own access tokens; other refresh tokens must be
/// exchanged with the OIDC server (`None`).
pub fn locksmith_access_token(refresh_token: &RefreshToken) -> (r: Option<AccessToken>)
    ensures
        r is Some <==> is_prefix("ph0_"@, refresh_token.0@),
        r matches Some(t) ==> t.0@ == refresh_token.0@,
{
    if is_locksmith_token(refresh_token.0.as_str()) {
        Some(AccessToken(refresh_token.0.clone()))
    } else {
        None
    }
}

/// The query pairs of an authorization URL, in order.
pub open spec fn auth_query_pairs(action: AuthAction, callback_url: Seq<char>, challenge: Seq<
    char,
>, state: Seq<char>) -> Seq<(Seq<char>, Seq<char>)> {
    let pairs = seq![
        ("client_id"@, OIDC_CLIENT_ID@),
        ("code_challenge"@, challenge),
        ("code_challenge_method"@, "S256"@),
        ("redirect_uri"@, callback_url),
        ("response_type"@, "code"@),
        ("response_mode"@, "query"@),
        ("scope"@, oidc_scopes()),
        ("state"@, state),
    ];
    if action == AuthAction::Reauth {
        pairs.push(("prompt"@, "login"@))
    } else {
        pairs
    }
}

/// The URL after appending `pairs` one after another.
pub open spec fn with_query_pairs(url: Option<Seq<char>>, pairs: Seq<(Seq<char>, Seq<char>)>) -> Option<
    Seq<char>,
>
    decreases pairs.len(),
{
    if pairs.len() == 0 {
        url
    } else {
        match with_query_pairs(url, pairs.drop_last()) {
            None => None,
            Some(u) => url_query_appended(u, pairs.last().0, pairs.last().1),
        }
    }
}

/// The authorization page URL: the authorization endpoint (its last path
/// segment replaced by `registrations` when registering), its query replaced
/// by the PKCE authorization request.
pub open spec fn auth_url(
    action: AuthAction,
    endpoint: Seq<char>,
    callback_url: Seq<char>,
    challenge: Seq<char>,
    state: Seq<char>,
) -> Option<Seq<char>> {
    let base = if action == AuthAction::Register {
        url_last_segment_replaced(endpoint, "registrations"@)
    } else {
        Some(endpoint)
    };
    match base {
        None => None,
        Some(b) => with_query_pairs(
            url_query_pairs_cleared(b),
            auth_query_pairs(action, callback_url, challenge, state),
        ),
    }
}

/// The authorization endpoint cannot carry a path.
#[derive(Debug, PartialEq, Eq, Structural, Clone, Copy)]
pub struct CannotBeBaseError;

/// Using config information, build the url for the keycloak login page.
///
/// URLs are passed and returned in their serialized form.
pub fn build_auth_url(
    action: AuthAction,
    authorization_endpoint: &str,
    callback_url: &str,
    code_challenge: &ChallengeCode,
    state: &str,
) -> (r: Result<String, CannotBeBaseError>)
    ensures
        r is Ok <==> auth_url(
            action,
            authorization_endpoint@,
            callback_url@,
            code_challenge.0@,
            state@,
        ) is Some,
        r matches Ok(u) ==> auth_url(
            action,
            authorization_endpoint@,
            callback_url@,
            code_challenge.0@,
            state@,
        ) == Some(u@),
{
    let base = match action {
        AuthAction::Login | AuthAction::Reauth => String::from_str(authorization_endpoint),
        AuthAction::Register => match replace_last_segment(authorization_endpoint, "registrations") {
            Some(u) => u,
            None => return Err(CannotBeBaseError),
        },
    };
    let mut url = match clear_query_pairs(base.as_str()) {
        Some(u) => u,
        None => {
            proof {
                lemma_with_query_pairs_from_none(
                    auth_query_pairs(action, callback_url@, code_challenge.0@, state@),
                );
            }
            return Err(CannotBeBaseError);
        },
    };
    let mut pairs: Vec<(String, String)> = vec![
        (String::from_str("client_id"), String::from_str(OIDC_CLIENT_ID)),
        (String::from_str("code_challenge"), code_challenge.0.clone()),
        (String::from_str("code_challenge_method"), String::from_str("S256")),
        (String::from_str("redirect_uri"), String::from_str(callback_url)),
        (String::from_str("response_type"), String::from_str("code")),
        (String::from_str("response_mode"), String::from_str("query")),
        (String::from_str("scope"), String::from_str("openid offline_access")),
        (String::from_str("state"), String::from_str(state)),
    ];
    if action == AuthAction::Reauth {
        pairs.push((String::from_str("prompt"), String::from_str("login")));
    }
    let ghost wanted = auth_query_pairs(action, callback_url@, code_challenge.0@, state@);
    let ghost start = url_query_pairs_cleared(base@);
    assert(form_view(pairs@) =~= wanted);
    let ghost target = auth_url(
        action,
        authorization_endpoint@,
        callback_url@,
        code_challenge.0@,
        state@,
    );
    assert(target == with_query_pairs(start, wanted));
    assert(wanted.take(0) =~= Seq::<(Seq<char>, Seq<char>)>::empty());
    let mut i: usize = 0;
    while i < pairs.len()
        invariant
            target == with_query_pairs(start, wanted),
            target == auth_url(
                action,
                authorization_endpoint@,
                callback_url@,
                code_challenge.0@,
                state@,
            ),
            i <= pairs@.len(),
            form_view(pairs@) == wanted,
            with_query_pairs(start, wanted.take(i as int)) == Some(url@),
        decreases pairs@.len() - i,
    {
        proof {
            assert(wanted.take(i + 1).drop_last() =~= wanted.take(i as int));
            assert(wanted[i as int] == (pairs@[i as int].0@, pairs@[i as int].1@));
        }
        let next = append_query_pair(url.as_str(), pairs[i].0.as_str(), pairs[i].1.as_str());
        url = match next {
            Some(u) => u,
            None => {
                proof {
                    assert(with_query_pairs(start, wanted.take(i + 1)) is None);
                    lemma_with_query_pairs_none(start, wanted, i + 1);
                    assert(wanted.take(wanted.len() as int) =~= wanted);
                    assert(with_query_pairs(start, wanted) is None);
                    assert(target is None);
                }
                return Err(CannotBeBaseError);
            },
        };
        i = i + 1;
    }
    proof {
        assert(wanted.take(wanted.len() as int) =~= wanted);
    }
    Ok(url)
}

/// Appending to no URL gives no URL.
proof fn lemma_with_query_pairs_from_none(pairs: Seq<(Seq<char>, Seq<char>)>)
    ensures
        with_query_pairs(None, pairs) is None,
    decreases pairs.len(),
{
    if pairs.len() > 0 {
        lemma_with_query_pairs_from_none(pairs.drop_last());
    }
}

/// Once appending fails, appending more pairs fails too.
pub(crate) proof fn lemma_with_query_pairs_none(
    start: Option<Seq<char>>,
    pairs: Seq<(Seq<char>, Seq<char>)>,
    k: int,
)
    requires
        0 <= k <= pairs.len(),
        with_query_pairs(start, pairs.take(k)) is None,
    ensures
        with_query_pairs(start, pairs) is None,
    decreases pairs.len() - k,
{
    if k < pairs.len() {
        assert(pairs.take(k + 1).drop_last() =~= pairs.take(k));
        lemma_with_query_pairs_none(start, pairs, k + 1);
    } else {
        assert(pairs.take(k) =~= pairs);
    }
}

/// The error `base64` reports for undecodable input.
#[verifier::external_type_specification]
#[verifier::external_body]
pub struct ExDecodeError(base64::DecodeError);

/// The error `String::from_utf8` reports for invalid UTF-8.
#[verifier::external_type_specification]
#[verifier::external_body]
pub struct ExFromUtf8Error(std::string::FromUtf8Error);

/// The error `serde_json` reports for unparsable JSON.
#[verifier::external_type_specification]
#[verifier::external_body]
pub struct ExJsonError(serde_json::Error);

/// JWT parsing error.
#[derive(Debug)]
pub enum JwtError {
    MissingPayload,
    MissingSignature,
    UnexpectedComponent,
    InvalidBase64(base64::DecodeError),
    InvalidUtf8(std::string::FromUtf8Error),
    InvalidJson(serde_json::Error),
}

/// Split a bearer token into header/payload/signature.
pub fn parts(bearer: &str) -> (r: Result<(String, String, String), JwtError>)
    ensures
        split_on(bearer@, '.').len() == 1 <==> r matches Err(JwtError::MissingPayload),
        split_on(bearer@, '.').len() == 2 <==> r matches Err(JwtError::MissingSignature),
        split_on(bearer@, '.').len() > 3 <==> r matches Err(JwtError::UnexpectedComponent),
        r matches Ok((h, p, s)) ==> split_on(bearer@, '.') == seq![h@, p@, s@],
        r is Ok || r matches Err(JwtError::MissingPayload) || r matches Err(
            JwtError::MissingSignature,
        ) || r matches Err(JwtError::UnexpectedComponent),
{
    let chars = chars_of(bearer);
    let pieces = split_chars(&chars, '.');
    let ghost views = pieces@.map_values(|p: Vec<char>| p@);
    assert(views.len() == pieces@.len());
    if pieces.len() == 1 {
        Err(JwtError::MissingPayload)
    } else if pieces.len() == 2 {
        Err(JwtError::MissingSignature)
    } else if pieces.len() > 3 {
        Err(JwtError::UnexpectedComponent)
    } else {
        let h = string_of(&pieces[0]);
        let p = string_of(&pieces[1]);
        let s = string_of(&pieces[2]);
        assert(views =~= seq![h@, p@, s@]);
        Ok((h, p, s))
    }
}

/// Bytes `base64::engine::general_purpose::STANDARD` decodes from `input`,
/// or `None` where it rejects it.
pub uninterp spec fn b64_standard_decoded(input: Seq<char>) -> Option<Seq<u8>>;

/// Decodes with the standard padded base64 engine. Trusted: the outcome is
/// the one `b64_standard_decoded` names; the error kind is not described.
#[verifier::external_body]
fn decode_b64_standard(input: &str) -> (r: Result<Vec<u8>, base64::DecodeError>)
    ensures
        r is Ok <==> b64_standard_decoded(input@) is Some,
        r matches Ok(b) ==> b64_standard_decoded(input@) == Some(b@),
{
    base64::engine::general_purpose::STANDARD.decode(input)
}

/// Converts bytes with `String::from_utf8`, which accepts exactly valid UTF-8
/// and decodes it.
#[verifier::external_body]
fn utf8_string(bytes: Vec<u8>) -> (r: Result<String, std::string::FromUtf8Error>)
    ensures
        r is Ok <==> vstd::utf8::valid_utf8(bytes@),
        r matches Ok(s) ==> s@ == vstd::utf8::decode_utf8(bytes@),
{
    String::from_utf8(bytes)
}

/// The text of a bearer token's payload: the middle of exactly three
/// dot-separated parts, base64 decoded and read as UTF-8.
pub open spec fn jwt_payload(bearer: Seq<char>) -> Option<Seq<char>> {
    let ps = split_on(bearer, '.');
    if ps.len() != 3 {
        None
    } else {
        match b64_standard_decoded(ps[1]) {
            None => None,
            Some(b) => if vstd::utf8::valid_utf8(b) {
                Some(vstd::utf8::decode_utf8(b))
            } else {
                None
            },
        }
    }
}

/// The decoded JSON text of a bearer token's payload part, not validated.
pub fn payload_text(bearer: &str) -> (r: Result<String, JwtError>)
    ensures
        r is Ok <==> jwt_payload(bearer@) is Some,
        r matches Ok(t) ==> jwt_payload(bearer@) == Some(t@),
        !(r matches Err(JwtError::InvalidJson(_))),
{
    let (_, payload_base64, _) = parts(bearer)?;
    let payload_bytes = match decode_b64_standard(payload_base64.as_str()) {
        Ok(b) => b,
        Err(e) => return Err(JwtError::InvalidBase64(e)),
    };
    match utf8_string(payload_bytes) {
        Ok(t) => Ok(t),
        Err(e) => Err(JwtError::InvalidUtf8(e)),
    }
}

/// Available Phylum JWT realm roles.
#[derive(Copy, Clone, PartialEq, Eq, Structural, Hash, Debug)]
pub enum RealmRole {
    Pro,
    Vulnreach,
    Unknown,
}

impl RealmRole {
    /// The role a realm role name stands for; unknown names map to `Unknown`.
    pub fn from_name(name: &str) -> (r: RealmRole)
        ensures
            r == (if name@ == "pro-account"@ {
                RealmRole::Pro
            } else if name@ == "vulnreach"@ {
                RealmRole::Vulnreach
            } else {
                RealmRole::Unknown
            }),
    {
        let n = chars_of(name);
        if crate::text::eq_lit(&n, "pro-account") {
            RealmRole::Pro
        } else if crate::text::eq_lit(&n, "vulnreach") {
            RealmRole::Vulnreach
        } else {
            RealmRole::Unknown
        }
    }
}

/// The reply of the local server to the authorization server's redirect.
#[derive(Debug)]
pub struct CallbackReply {
    /// The HTTP status.
    pub status: u16,
    /// The reply body: an error message, or the page made from the template.
    pub body: String,
    /// The authorization code received, if any.
    pub code: Option<String>,
    /// Whether the local server shuts down after replying.
    pub shutdown: bool,
    /// The headers the handler sets on its reply (an error reply is plain
    /// text and gets none of its own).
    pub headers: Vec<(String, String)>,
    /// The authorization code the server holds after the reply: a code
    /// received replaces the one held; otherwise the one held stays.
    pub auth_code: Option<String>,
}

/// The headers of the page shown after a redirect with the right state.
pub open spec fn page_headers() -> Seq<(Seq<char>, Seq<char>)> {
    seq![("Content-Type"@, "text/html"@), ("Cache-Control"@, "no-cache"@)]
}

/// The page shown after the redirect: the template with its placeholder
/// replaced by a message.
pub open spec fn callback_page(template: Seq<char>, message: Seq<char>) -> Seq<char> {
    replaced(template, "{{}}"@, message)
}

/// Handles the redirect of the authorization server; `stored` is the
/// authorization code the server holds so far.
///
/// The returned state must match the one sent (XSRF prevention), else the
/// reply is a server error, the server keeps running and the code held stays.
/// With a matching state, a code received is stored, and an HTML page that
/// is not to be cached reports success or failure; the server then shuts
/// down.
pub fn keycloak_callback_handler(
    expected_state: &str,
    state: Option<String>,
    code: Option<String>,
    stored: Option<String>,
    template: &str,
) -> (r: CallbackReply)
    ensures
        match state {
            None => r.status == 500 && r.body@ == "Oauth server did return XSRF prevention state nonce"@
                && r.code is None && !r.shutdown && r.headers@.len() == 0 && r.auth_code == stored,
            Some(n) => if n@ != expected_state@ {
                r.status == 500 && r.body@ == "OAuth server returned wrong XSRF prevention state nonce"@
                    && r.code is None && !r.shutdown && r.headers@.len() == 0 && r.auth_code == stored
            } else {
                &&& r.status == 200
                &&& r.shutdown
                &&& r.code == code
                &&& r.body@ == callback_page(
                    template@,
                    match code {
                        Some(_) => "Login / Registration succeeded"@,
                        None => "Login / Registration failed, did not get authorization code"@,
                    },
                )
                &&& form_view(r.headers@) == page_headers()
                &&& r.auth_code == match code {
                    Some(c) => Some(c),
                    None => stored,
                }
            },
        },
{
    match &state {
        None => {
            return CallbackReply {
                status: 500,
                body: String::from_str("Oauth server did return XSRF prevention state nonce"),
                code: None,
                shutdown: false,
                headers: Vec::new(),
                auth_code: stored,
            };
        },
        Some(nonce) => {
            if !eq_lit(&chars_of(nonce.as_str()), expected_state) {
                return CallbackReply {
                    status: 500,
                    body: String::from_str("OAuth server returned wrong XSRF prevention state nonce"),
                    code: None,
                    shutdown: false,
                    headers: Vec::new(),
                    auth_code: stored,
                };
            }
        },
    }
    let placeholder = chars_of("{{}}");
    proof {
        reveal_strlit("{{}}");
    }
    let message = match &code {
        Some(_) => chars_of("Login / Registration succeeded"),
        None => chars_of("Login / Registration failed, did not get authorization code"),
    };
    let page = replace_all(&chars_of(template), &placeholder, &message);
    let headers = vec![
        (String::from_str("Content-Type"), String::from_str("text/html")),
        (String::from_str("Cache-Control"), String::from_str("no-cache")),
    ];
    assert(form_view(headers@) =~= page_headers());
    let auth_code = match &code {
        Some(c) => Some(c.clone()),
        None => stored,
    };
    CallbackReply { status: 200, body: string_of(&page), code, shutdown: true, headers, auth_code }
}

} // verus!
