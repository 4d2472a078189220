use fluent_translate::credentials::{
    attach_signature, claims_json, u64_dec, Claims, JWT, ServiceAccountKey, ServiceCredentials,
};

fn key() -> ServiceAccountKey {
    ServiceAccountKey {
        key_type: "service_account".to_string(),
        project_id: "fuelgauge-221218".to_string(),
        private_key_id: "key-id".to_string(),
        private_key: "not-a-real-key".to_string(),
        client_email: "me@example.com".to_string(),
        client_id: "1234".to_string(),
        auth_uri: "https://accounts.google.com/o/oauth2/auth".to_string(),
        token_uri: "https://oauth2.googleapis.com/token".to_string(),
        auth_provider_x509_cert_url: "https://www.googleapis.com/oauth2/v1/certs".to_string(),
        client_x509_cert_url: "https://example.com/cert".to_string(),
    }
}

#[test]
fn decimal_rendering_is_exact() {
    assert_eq!(u64_dec(0), "0");
    assert_eq!(u64_dec(9), "9");
    assert_eq!(u64_dec(10), "10");
    assert_eq!(u64_dec(3600), "3600");
    assert_eq!(u64_dec(18446744073709551615), "18446744073709551615");
}

#[test]
fn claims_serialize_in_declaration_order() {
    let c = Claims {
        iss: "me@example.com".to_string(),
        aud: "https://www.googleapis.com/oauth2/v4/token".to_string(),
        exp: 3700,
        iat: 100,
        sub: None,
        scope: "scope-a".to_string(),
    };
    assert_eq!(
        claims_json(&c),
        "{\"iss\":\"me@example.com\",\"aud\":\"https://www.googleapis.com/oauth2/v4/token\",\"exp\":3700,\"iat\":100,\"sub\":null,\"scope\":\"scope-a\"}"
    );
}

#[test]
fn claims_json_escapes_specials() {
    let c = Claims {
        iss: "quote \" backslash \\ newline \n tab \t".to_string(),
        aud: "a".to_string(),
        exp: 1,
        iat: 0,
        sub: Some("sub\u{1}ject".to_string()),
        scope: "s".to_string(),
    };
    assert_eq!(
        claims_json(&c),
        "{\"iss\":\"quote \\\" backslash \\\\ newline \\n tab \\t\",\"aud\":\"a\",\"exp\":1,\"iat\":0,\"sub\":\"sub\\u0001ject\",\"scope\":\"s\"}"
    );
}

#[test]
fn encode_claims_matches_known_encoding() {
    let c = Claims {
        iss: "me@example.com".to_string(),
        aud: "https://www.googleapis.com/oauth2/v4/token".to_string(),
        exp: 3700,
        iat: 100,
        sub: None,
        scope: "scope-a".to_string(),
    };
    let jwt = JWT::new(c);
    assert_eq!(
        jwt.encode_claims(),
        "eyJhbGciOiJSUzI1NiIsInR5cCI6IkpXVCJ9.eyJpc3MiOiJtZUBleGFtcGxlLmNvbSIsImF1ZCI6Imh0dHBzOi8vd3d3Lmdvb2dsZWFwaXMuY29tL29hdXRoMi92NC90b2tlbiIsImV4cCI6MzcwMCwiaWF0IjoxMDAsInN1YiI6bnVsbCwic2NvcGUiOiJzY29wZS1hIn0="
    );
}

#[test]
fn set_header_changes_only_the_header() {
    let c = Claims {
        iss: "i".to_string(),
        aud: "a".to_string(),
        exp: 2,
        iat: 1,
        sub: None,
        scope: "s".to_string(),
    };
    let mut jwt = JWT::new(c);
    assert_eq!(jwt.header, "{\"alg\":\"RS256\",\"typ\":\"JWT\"}");
    jwt.set_header("{\"alg\":\"none\"}".to_string());
    assert_eq!(jwt.header, "{\"alg\":\"none\"}");
    assert_eq!(jwt.claims.iss, "i");
}

#[test]
fn attach_signature_joins_with_a_dot() {
    assert_eq!(attach_signature("head.claims", "sig"), "head.claims.sig");
}

#[test]
fn project_id_comes_from_the_key() {
    let creds = ServiceCredentials::new(key(), "scope-a".to_string());
    assert_eq!(creds.get_project_id(), "fuelgauge-221218");
}

#[test]
fn token_cache_freshness() {
    let mut creds = ServiceCredentials::new(key(), "scope-a".to_string());
    assert!(!creds.token_is_fresh(0));
    assert_eq!(creds.cached_token(), None);
    creds.store_token("tok".to_string(), 100);
    assert_eq!(creds.cached_token(), Some("tok".to_string()));
    assert!(creds.token_is_fresh(100));
    assert!(creds.token_is_fresh(3699));
    // The expiry second itself is stale.
    assert!(!creds.token_is_fresh(3700));
}

#[test]
fn auth_claims_request_an_hour_long_token() {
    let creds = ServiceCredentials::new(key(), "scope-a".to_string());
    let c = creds.auth_claims(100);
    assert_eq!(c.iss, "me@example.com");
    assert_eq!(c.aud, "https://www.googleapis.com/oauth2/v4/token");
    assert_eq!(c.iat, 100);
    assert_eq!(c.exp, 3700);
    assert_eq!(c.sub, None);
    assert_eq!(c.scope, "scope-a");
}
