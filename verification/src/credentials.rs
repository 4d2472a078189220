//! Service-account credential state and the JSON Web Token assembled from
//! it: claim construction, JSON framing with exact escaping, Base64 URL
//! encoding, and the token-cache freshness decision.
//!
//! Reading the credentials file, RSA signing and the token exchange over
//! HTTP are external collaborators; they hand plain values in and out.

use vstd::prelude::*;
use vstd::string::*;

verus! {

/// The fields of a service-account key file.
pub struct ServiceAccountKey {
    pub key_type: String,
    pub project_id: String,
    pub private_key_id: String,
    pub private_key: String,
    pub client_email: String,
    pub client_id: String,
    pub auth_uri: String,
    pub token_uri: String,
    pub auth_provider_x509_cert_url: String,
    pub client_x509_cert_url: String,
}

/// Mathematical view of a service-account key.
#[verifier::ext_equal]
pub struct ServiceAccountKeyV {
    pub key_type: Seq<char>,
    pub project_id: Seq<char>,
    pub private_key_id: Seq<char>,
    pub private_key: Seq<char>,
    pub client_email: Seq<char>,
    pub client_id: Seq<char>,
    pub auth_uri: Seq<char>,
    pub token_uri: Seq<char>,
    pub auth_provider_x509_cert_url: Seq<char>,
    pub client_x509_cert_url: Seq<char>,
}

impl View for ServiceAccountKey {
    type V = ServiceAccountKeyV;

    open spec fn view(&self) -> ServiceAccountKeyV {
        ServiceAccountKeyV {
            key_type: self.key_type@,
            project_id: self.project_id@,
            private_key_id: self.private_key_id@,
            private_key: self.private_key@,
            client_email: self.client_email@,
            client_id: self.client_id@,
            auth_uri: self.auth_uri@,
            token_uri: self.token_uri@,
            auth_provider_x509_cert_url: self.auth_provider_x509_cert_url@,
            client_x509_cert_url: self.client_x509_cert_url@,
        }
    }
}

/// A cached access token and the second at which it stops being usable.
pub struct ServiceToken {
    pub access_token: String,
    pub expires_at: u64,
}

/// Mathematical view of a cached token.
#[verifier::ext_equal]
pub struct ServiceTokenV {
    pub access_token: Seq<char>,
    pub expires_at: u64,
}

impl View for ServiceToken {
    type V = ServiceTokenV;

    open spec fn view(&self) -> ServiceTokenV {
        ServiceTokenV { access_token: self.access_token@, expires_at: self.expires_at }
    }
}

/// The set of claims a token request asserts.
pub struct Claims {
    pub iss: String,
    pub aud: String,
    pub exp: u64,
    pub iat: u64,
    pub sub: Option<String>,
    pub scope: String,
}

/// Mathematical view of a claim set.
#[verifier::ext_equal]
pub struct ClaimsV {
    pub iss: Seq<char>,
    pub aud: Seq<char>,
    pub exp: u64,
    pub iat: u64,
    pub sub: Option<Seq<char>>,
    pub scope: Seq<char>,
}

impl View for Claims {
    type V = ClaimsV;

    open spec fn view(&self) -> ClaimsV {
        ClaimsV {
            iss: self.iss@,
            aud: self.aud@,
            exp: self.exp,
            iat: self.iat,
            sub: self.sub.deep_view(),
            scope: self.scope@,
        }
    }
}

/// Credential state for one run: the requested scope, the loaded key, and
/// the token cache.
pub struct ServiceCredentials {
    pub scope: String,
    pub credentials: ServiceAccountKey,
    pub token: Option<ServiceToken>,
}

/// Mathematical view of the credential state.
#[verifier::ext_equal]
pub struct ServiceCredentialsV {
    pub scope: Seq<char>,
    pub credentials: ServiceAccountKeyV,
    pub token: Option<ServiceTokenV>,
}

impl View for ServiceCredentials {
    type V = ServiceCredentialsV;

    open spec fn view(&self) -> ServiceCredentialsV {
        ServiceCredentialsV {
            scope: self.scope@,
            credentials: self.credentials@,
            token: match self.token {
                Some(t) => Some(t@),
                None => None,
            },
        }
    }
}

/// The hexadecimal digit characters, also used for decimal digits.
pub open spec fn hex_digit(v: int) -> char {
    if v == 0 {
        '0'
    } else if v == 1 {
        '1'
    } else if v == 2 {
        '2'
    } else if v == 3 {
        '3'
    } else if v == 4 {
        '4'
    } else if v == 5 {
        '5'
    } else if v == 6 {
        '6'
    } else if v == 7 {
        '7'
    } else if v == 8 {
        '8'
    } else if v == 9 {
        '9'
    } else if v == 10 {
        'a'
    } else if v == 11 {
        'b'
    } else if v == 12 {
        'c'
    } else if v == 13 {
        'd'
    } else if v == 14 {
        'e'
    } else {
        'f'
    }
}

/// One digit as a string slice.
pub fn hex_char_str(v: u32) -> (r: &'static str)
    requires
        v < 16,
    ensures
        r@ == seq![hex_digit(v as int)],
{
    let r = match v {
        0 => "0",
        1 => "1",
        2 => "2",
        3 => "3",
        4 => "4",
        5 => "5",
        6 => "6",
        7 => "7",
        8 => "8",
        9 => "9",
        10 => "a",
        11 => "b",
        12 => "c",
        13 => "d",
        14 => "e",
        _ => "f",
    };
    proof {
        reveal_strlit("0");
        reveal_strlit("1");
        reveal_strlit("2");
        reveal_strlit("3");
        reveal_strlit("4");
        reveal_strlit("5");
        reveal_strlit("6");
        reveal_strlit("7");
        reveal_strlit("8");
        reveal_strlit("9");
        reveal_strlit("a");
        reveal_strlit("b");
        reveal_strlit("c");
        reveal_strlit("d");
        reveal_strlit("e");
        reveal_strlit("f");
        assert(r@ =~= seq![hex_digit(v as int)]);
    }
    r
}

/// The decimal digits of `n`, most significant first.
pub open spec fn dec_digits(n: nat) -> Seq<char>
    decreases n,
{
    if n < 10 {
        seq![hex_digit(n as int)]
    } else {
        dec_digits(n / 10) + seq![hex_digit((n % 10) as int)]
    }
}

/// Writes `n` in decimal.
pub fn u64_dec(n: u64) -> (r: String)
    ensures
        r@ == dec_digits(n as nat),
    decreases n,
{
    if n < 10 {
        String::from_str(hex_char_str(n as u32))
    } else {
        let mut s = u64_dec(n / 10);
        s.append(hex_char_str((n % 10) as u32));
        s
    }
}

/// The JSON escape of one character, exactly as the claims serializer
/// emits it: quote and backslash escaped, control characters as short
/// escapes or `\u00..`.
pub open spec fn escape_char(c: char) -> Seq<char> {
    if c == '"' {
        seq!['\\', '"']
    } else if c == '\\' {
        seq!['\\', '\\']
    } else if c == '\n' {
        seq!['\\', 'n']
    } else if c == '\r' {
        seq!['\\', 'r']
    } else if c == '\t' {
        seq!['\\', 't']
    } else if c == '\u{8}' {
        seq!['\\', 'b']
    } else if c == '\u{c}' {
        seq!['\\', 'f']
    } else if (c as u32) < 0x20 {
        seq!['\\', 'u', '0', '0', hex_digit((c as u32) as int / 16), hex_digit(
            (c as u32) as int % 16,
        )]
    } else {
        seq![c]
    }
}

/// The JSON escape of a whole string body.
pub open spec fn json_escaped(s: Seq<char>) -> Seq<char>
    decreases s.len(),
{
    if s.len() == 0 {
        Seq::empty()
    } else {
        escape_char(s[0]) + json_escaped(s.skip(1))
    }
}

/// A JSON string literal: the escaped body in double quotes.
pub open spec fn json_string(s: Seq<char>) -> Seq<char> {
    seq!['"'] + json_escaped(s) + seq!['"']
}

/// Escapes a string body for embedding in JSON.
pub fn json_escape(s: &str) -> (r: String)
    ensures
        r@ == json_escaped(s@),
{
    let n = s.unicode_len();
    let mut out = String::new();
    let mut i: usize = 0;
    proof {
        reveal_strlit("\\\"");
        reveal_strlit("\\\\");
        reveal_strlit("\\n");
        reveal_strlit("\\r");
        reveal_strlit("\\t");
        reveal_strlit("\\b");
        reveal_strlit("\\f");
        reveal_strlit("\\u00");
        assert(s@.skip(0) =~= s@);
    }
    while i < n
        invariant
            i <= n,
            n == s@.len(),
            json_escaped(s@) == out@ + json_escaped(s@.skip(i as int)),
        decreases n - i,
    {
        let ghost prev = out@;
        let c = s.get_char(i);
        if c == '"' {
            out.append("\\\"");
        } else if c == '\\' {
            out.append("\\\\");
        } else if c == '\n' {
            out.append("\\n");
        } else if c == '\r' {
            out.append("\\r");
        } else if c == '\t' {
            out.append("\\t");
        } else if c == '\u{8}' {
            out.append("\\b");
        } else if c == '\u{c}' {
            out.append("\\f");
        } else if (c as u32) < 0x20 {
            out.append("\\u00");
            out.append(hex_char_str((c as u32) / 16));
            out.append(hex_char_str((c as u32) % 16));
        } else {
            out.append(s.substring_char(i, i + 1));
        }
        proof {
            reveal_strlit("\\\"");
            reveal_strlit("\\\\");
            reveal_strlit("\\n");
            reveal_strlit("\\r");
            reveal_strlit("\\t");
            reveal_strlit("\\b");
            reveal_strlit("\\f");
            reveal_strlit("\\u00");
            assert(s@.subrange(i as int, i + 1) =~= seq![s@[i as int]]);
            assert(out@ =~= prev + escape_char(s@[i as int]));
            assert(s@.skip(i as int)[0] == s@[i as int]);
            assert(s@.skip(i as int).skip(1) =~= s@.skip(i + 1));
            assert(prev + json_escaped(s@.skip(i as int)) =~= out@ + json_escaped(
                s@.skip(i + 1),
            ));
        }
        i += 1;
    }
    proof {
        assert(s@.skip(n as int).len() == 0);
    }
    out
}

/// Quotes and escapes a string as a JSON literal.
pub fn json_quoted(s: &str) -> (r: String)
    ensures
        r@ == json_string(s@),
{
    proof {
        reveal_strlit("\"");
    }
    let mut out = String::from_str("\"");
    let body = json_escape(s);
    out.append(body.as_str());
    out.append("\"");
    proof {
        assert(out@ =~= json_string(s@));
    }
    out
}

/// The JSON object the claims serialize to, members in declaration order,
/// an absent subject as `null`.
pub open spec fn spec_claims_json(c: ClaimsV) -> Seq<char> {
    "{\"iss\":"@ + json_string(c.iss) + ",\"aud\":"@ + json_string(c.aud) + ",\"exp\":"@
        + dec_digits(c.exp as nat) + ",\"iat\":"@ + dec_digits(c.iat as nat) + ",\"sub\":"@ + (
    match c.sub {
        Some(s) => json_string(s),
        None => "null"@,
    }) + ",\"scope\":"@ + json_string(c.scope) + "}"@
}

/// Serializes a claim set to its JSON object form.
pub fn claims_json(c: &Claims) -> (r: String)
    ensures
        r@ == spec_claims_json(c@),
{
    let mut out = String::from_str("{\"iss\":");
    let iss = json_quoted(c.iss.as_str());
    out.append(iss.as_str());
    out.append(",\"aud\":");
    let aud = json_quoted(c.aud.as_str());
    out.append(aud.as_str());
    out.append(",\"exp\":");
    let exp = u64_dec(c.exp);
    out.append(exp.as_str());
    out.append(",\"iat\":");
    let iat = u64_dec(c.iat);
    out.append(iat.as_str());
    out.append(",\"sub\":");
    match &c.sub {
        Some(s) => {
            let sub = json_quoted(s.as_str());
            out.append(sub.as_str());
        },
        None => {
            out.append("null");
        },
    }
    out.append(",\"scope\":");
    let scope = json_quoted(c.scope.as_str());
    out.append(scope.as_str());
    out.append("}");
    proof {
        assert(out@ =~= spec_claims_json(c@));
    }
    out
}

/// What `base64::encode_config` returns with the URL-safe alphabet: the
/// Base64 form of the input's UTF-8 bytes, a function of the input
/// characters alone.
pub uninterp spec fn base64_url_of(s: Seq<char>) -> Seq<char>;

/// Relies on base64::encode_config with base64::URL_SAFE for the Base64
/// encoding of the input's UTF-8 bytes.
#[verifier::external_body]
fn encode_base64(s: &str) -> (r: String)
    ensures
        r@ == base64_url_of(s@),
{
    base64::encode_config(s.as_bytes(), base64::URL_SAFE)
}

/// The fixed RS256 token header.
pub open spec fn rs256_head() -> Seq<char> {
    "{\"alg\":\"RS256\",\"typ\":\"JWT\"}"@
}

/// A JSON Web Token ready for signing.
pub struct JWT {
    /// The header; `rs256_head` unless overridden.
    pub header: String,
    /// The set of desired permissions and timestamps.
    pub claims: Claims,
}

/// Mathematical view of a token under construction.
#[verifier::ext_equal]
pub struct JWTV {
    pub header: Seq<char>,
    pub claims: ClaimsV,
}

impl View for JWT {
    type V = JWTV;

    open spec fn view(&self) -> JWTV {
        JWTV { header: self.header@, claims: self.claims@ }
    }
}

impl JWT {
    /// Creates a token from claims, under the standard RS256 header.
    pub fn new(claims: Claims) -> (r: JWT)
        ensures
            r@.header == rs256_head(),
            r@.claims == claims@,
    {
        JWT { header: String::from_str("{\"alg\":\"RS256\",\"typ\":\"JWT\"}"), claims }
    }

    /// Overrides the token header.
    pub fn set_header(&mut self, head: String)
        ensures
            final(self)@.header == head@,
            final(self)@.claims == old(self)@.claims,
    {
        self.header = head;
    }

    /// Encodes header and claims to Base64 and joins them with a dot: the
    /// exact byte string an RS256 signature is computed over.
    pub fn encode_claims(&self) -> (r: String)
        ensures
            r@ == base64_url_of(self.header@) + seq!['.'] + base64_url_of(
                spec_claims_json(self.claims@),
            ),
    {
        let mut head = encode_base64(self.header.as_str());
        head.append(".");
        let cj = claims_json(&self.claims);
        let encoded = encode_base64(cj.as_str());
        head.append(encoded.as_str());
        proof {
            reveal_strlit(".");
            assert("."@ =~= seq!['.']);
            assert(head@ =~= base64_url_of(self.header@) + seq!['.'] + base64_url_of(
                spec_claims_json(self.claims@),
            ));
        }
        head
    }
}

/// Joins the encoded claims and an already Base64-encoded signature into
/// the final three-part token.
pub fn attach_signature(head: &str, signature_b64: &str) -> (r: String)
    ensures
        r@ == head@ + seq!['.'] + signature_b64@,
{
    let mut out = String::from_str(head);
    out.append(".");
    out.append(signature_b64);
    proof {
        reveal_strlit(".");
        assert("."@ =~= seq!['.']);
        assert(out@ =~= head@ + seq!['.'] + signature_b64@);
    }
    out
}

/// The audience a token request is addressed to.
pub open spec fn token_audience() -> Seq<char> {
    "https://www.googleapis.com/oauth2/v4/token"@
}

/// How long an issued token stays usable, in seconds.
pub open spec fn token_lifetime() -> u64 {
    3600
}

impl ServiceCredentials {
    /// Fresh credential state for a loaded key and a requested scope; no
    /// token is cached yet.
    pub fn new(credentials: ServiceAccountKey, scope: String) -> (r: ServiceCredentials)
        ensures
            r@.credentials == credentials@,
            r@.scope == scope@,
            r@.token is None,
    {
        ServiceCredentials { scope, credentials, token: None }
    }

    /// The project id named in the key file.
    pub fn get_project_id(&self) -> (r: String)
        ensures
            r@ == self@.credentials.project_id,
    {
        self.credentials.project_id.clone()
    }

    /// True when the cached token is still usable at second `now`: a token
    /// that has reached its expiry second is stale.
    pub fn token_is_fresh(&self, now: u64) -> (r: bool)
        ensures
            r == match self@.token {
                Some(t) => t.expires_at > now,
                None => false,
            },
    {
        match &self.token {
            Some(t) => t.expires_at > now,
            None => false,
        }
    }

    /// The claims for a token request issued at second `now`.
    pub fn auth_claims(&self, now: u64) -> (r: Claims)
        requires
            now + token_lifetime() <= u64::MAX,
        ensures
            r@ == (ClaimsV {
                iss: self@.credentials.client_email,
                aud: token_audience(),
                exp: (now + token_lifetime()) as u64,
                iat: now,
                sub: None,
                scope: self@.scope,
            }),
    {
        Claims {
            iss: self.credentials.client_email.clone(),
            aud: String::from_str("https://www.googleapis.com/oauth2/v4/token"),
            exp: now + 3600,
            iat: now,
            sub: None,
            scope: self.scope.clone(),
        }
    }

    /// Caches a token obtained at second `now`; everything else is kept.
    pub fn store_token(&mut self, access_token: String, now: u64)
        requires
            now + token_lifetime() <= u64::MAX,
        ensures
            final(self)@.token == Some(
                ServiceTokenV {
                    access_token: access_token@,
                    expires_at: (now + token_lifetime()) as u64,
                },
            ),
            final(self)@.scope == old(self)@.scope,
            final(self)@.credentials == old(self)@.credentials,
    {
        self.token = Some(ServiceToken { access_token, expires_at: now + 3600 });
    }

    /// The cached access token, if any.
    pub fn cached_token(&self) -> (r: Option<String>)
        ensures
            r.deep_view() == match self@.token {
                Some(t) => Some(t.access_token),
                None => None::<Seq<char>>,
            },
    {
        match &self.token {
            Some(t) => Some(t.access_token.clone()),
            None => None,
        }
    }
}

} // verus!
