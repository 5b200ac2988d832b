//! Tests for API keys, the dual-mode client, and response validation.

use std::str::FromStr;

use extrahop::api_response::{validate_and_read, validate_status};
use extrahop::client::{Client, MaintenanceAction, Method, SaasAccessToken};
use extrahop::{ApiKey, Error, Oid};

#[test]
fn parse_header() {
    let full_header = "ExtraHop apikey=1a2b3c4d5e";
    let parsed = full_header
        .parse()
        .expect("Parsing should handle a well-formed header body");
    assert_eq!(ApiKey::new("1a2b3c4d5e"), parsed);
}

#[test]
fn parse_error() {
    let bare_key = "1a2b3c4d5e";
    let parse_err = ApiKey::from_str(bare_key).unwrap_err();
    if let Error::ApiKeyParse = parse_err {
        println!("{:?}", parse_err);
    } else {
        panic!("Error should have been an API key parse failure");
    }
}

#[test]
fn api_key_trims_and_renders_header() {
    let key = ApiKey::new("  1a2b3c4d5e ");
    assert_eq!(ApiKey::new("1a2b3c4d5e"), key);
    assert_eq!(ApiKey::new("1a2b3c4d5e"), ApiKey::new("\u{c}1a2b3c4d5e\u{a0}"));
    assert_eq!("ExtraHop apikey=1a2b3c4d5e", key.to_header().as_str());
}

#[test]
fn parse_header_strips_repeated_prefixes() {
    let doubled = "ExtraHop apikey=ExtraHop apikey=x";
    let parsed = ApiKey::parse_header(doubled).expect("the prefix is present");
    assert_eq!(ApiKey::new("x"), parsed);
}

#[test]
fn appliance_request_attaches_key_header() {
    let client = Client::new_appliance("example.com", ApiKey::new("secret-key")).unwrap();
    assert!(client.is_appliance());
    assert!(!client.is_saas());

    let req = client.get("v1/devices").unwrap();
    assert_eq!(Method::Get, req.method);
    assert_eq!("https://example.com/api/v1/devices", req.url.as_str());
    assert_eq!("ExtraHop apikey=secret-key", req.authorization.as_str());

    let posted = client.post("v1/activitymaps/query").unwrap();
    assert_eq!(Method::Post, posted.method);
    assert_eq!(
        "https://example.com/api/v1/activitymaps/query",
        posted.url.as_str()
    );
}

#[test]
fn appliance_rejects_invalid_host() {
    assert!(Client::new_appliance("not a host", ApiKey::new("k")).is_err());
}

#[test]
fn saas_token_lifecycle() {
    let exchange =
        extrahop::client::Saas::token_request("tenant.example.com", "my-id", "client-s3cr3t")
            .expect("valid tenant domain");
    assert_eq!("https://tenant.example.com/oauth2/token", exchange.url.as_str());
    assert_eq!("my-id", exchange.basic_id.as_str());
    assert_eq!("client_credentials", exchange.grant_type.as_str());

    let token = SaasAccessToken::new("tok-1".to_string(), 0);
    let mut client = Client::new_saas(
        "tenant.example.com",
        "my-id".to_string(),
        "client-s3cr3t".to_string(),
        token,
    )
    .unwrap();
    assert!(client.is_saas());

    let req = client.request(Method::Get, "v1/devices").unwrap();
    assert_eq!("https://tenant.example.com/api/v1/devices", req.url.as_str());
    assert_eq!("Bearer tok-1", req.authorization.as_str());

    // A fresh token needs no renewal yet.
    match client.maintain_access(1_000).unwrap() {
        MaintenanceAction::Ready => {}
        MaintenanceAction::Renew(_) => panic!("fresh token should not renew"),
    }

    // At 3300 seconds the token is within 300 seconds of its 3600 second
    // life; the boundary is inclusive.
    match client.maintain_access(3_300_000).unwrap() {
        MaintenanceAction::Renew(t) => {
            assert_eq!("https://tenant.example.com/oauth2/token", t.url.as_str());
            assert_eq!("my-id", t.basic_id.as_str());
        }
        MaintenanceAction::Ready => panic!("expiring token should renew"),
    }

    client.install_token(SaasAccessToken::new("tok-2".to_string(), 3_300_000));
    let renewed = client.request(Method::Get, "v1/devices").unwrap();
    assert_eq!("Bearer tok-2", renewed.authorization.as_str());
    match client.maintain_access(3_300_001).unwrap() {
        MaintenanceAction::Ready => {}
        MaintenanceAction::Renew(_) => panic!("renewed token should be fresh again"),
    }
}

#[test]
fn token_expiry_window_is_inclusive() {
    let token = SaasAccessToken::new("tok".to_string(), 0);
    assert_eq!(0, token.issued_at());
    assert!(token.expires_in_next(3_300_000, 300_000));
    assert!(!token.expires_in_next(3_299_999, 300_000));
    assert!(token.expires_in_next(3_600_000, 0));
}

#[test]
fn maintenance_tolerates_clock_skew() {
    // A clock reading before the token's issuance instant reports the
    // token fresh instead of failing.
    let token = SaasAccessToken::new("tok".to_string(), 10_000);
    let client = Client::new_saas(
        "tenant.example.com",
        "my-id".to_string(),
        "client-s3cr3t".to_string(),
        token,
    )
    .unwrap();
    match client.maintain_access(5_000).unwrap() {
        MaintenanceAction::Ready => {}
        MaintenanceAction::Renew(_) => panic!("a skewed clock must not force renewal"),
    }
}

#[test]
fn validate_status_classifies_and_decodes() {
    assert!(validate_status(200, "").is_ok());
    assert!(validate_status(204, "ignored").is_ok());
    assert!(validate_status(299, "").is_ok());

    let err = validate_status(404, r#"{"error_message": "no such thing"}"#).unwrap_err();
    assert_eq!(404, err.status());
    assert_eq!(Some("no such thing"), err.message());

    let garbled = validate_status(500, "<html>oops</html>").unwrap_err();
    assert_eq!(500, garbled.status());
    assert_eq!(None, garbled.message());

    let redirect = validate_status(301, "").unwrap_err();
    assert_eq!(301, redirect.status());
}

#[test]
fn validate_and_read_full_chain() {
    let good = r#"{"edges":[{"from":1,"to":2,"weight":3}]}"#;
    let rsp = validate_and_read(200, good).expect("successful response should decode");
    assert_eq!(1, rsp.edges.len());
    assert_eq!(Oid::new(1), rsp.edges[0].from);

    match validate_and_read(200, "not json") {
        Err(Error::Decode) => {}
        _ => panic!("a bad body behind a good status is a decode error"),
    }

    match validate_and_read(503, r#"{"error_message": "overloaded"}"#) {
        Err(Error::Rest(e)) => {
            assert_eq!(503, e.status());
            assert_eq!(Some("overloaded"), e.message());
        }
        _ => panic!("a failing status is an application error"),
    }
}

#[test]
fn rest_error_constructor_keeps_fields() {
    let err = extrahop::RestError::new(503, Some("busy".to_string()));
    assert_eq!(503, err.status());
    assert_eq!(Some("busy"), err.message());

    let bare = extrahop::RestError::new(404, None);
    assert_eq!(None, bare.message());
}
