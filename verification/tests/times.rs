//! Tests for time expressions and identifiers.

use extrahop::json::to_text;
use extrahop::{Oid, QueryTime, UserGroupId, Username};

#[test]
fn serialize_time_string() {
    assert_eq!(
        r#""-30m""#,
        to_text(&QueryTime::from("-30m").to_json()).as_str()
    );
}

#[test]
fn serialize_default() {
    assert_eq!("0", to_text(&QueryTime::default().to_json()).as_str());
}

#[test]
fn serialize_timestamp() {
    assert_eq!("123", to_text(&QueryTime::from(123u64).to_json()).as_str());
}

#[test]
fn serialize_ms_ago() {
    assert_eq!("-123", to_text(&QueryTime::from(-123i64).to_json()).as_str());
}

#[test]
fn relative_iff_at_or_below_zero() {
    assert!(QueryTime::from(-30000i64).is_relative());
    assert!(QueryTime::from(0i64).is_relative());
    assert!(!QueryTime::from(7i64).is_relative());
    assert!(QueryTime::from(7i64).is_absolute());
    assert!(QueryTime::from(0u64).is_relative());
    assert!(!QueryTime::from(123u64).is_relative());
    assert!(QueryTime::from("-30m").is_relative());
}

#[test]
fn extreme_signed_times_serialize() {
    assert_eq!(
        "-9223372036854775808",
        to_text(&QueryTime::from(i64::MIN).to_json()).as_str()
    );
    assert_eq!(
        "9223372036854775807",
        to_text(&QueryTime::from(i64::MAX).to_json()).as_str()
    );
    assert_eq!(
        "18446744073709551615",
        to_text(&QueryTime::from(u64::MAX).to_json()).as_str()
    );
}

#[test]
fn oid_url_part_is_decimal() {
    assert_eq!("17", Oid::new(17).as_url_part().as_str());
    assert_eq!("0", Oid::new(0).as_url_part().as_str());
    assert_eq!("18446744073709551615", Oid::new(u64::MAX).as_url_part().as_str());
}

#[test]
fn username_is_trimmed() {
    assert_eq!("ehd", Username::new("  ehd \t\n").as_str());
    assert_eq!(Username::new("ehd"), Username::new(" ehd "));
    assert_eq!("", Username::new("   ").as_str());
}

#[test]
fn trimming_covers_unicode_whitespace() {
    // Form feed, next line, no-break space, ideographic space: all of
    // Unicode's whitespace goes, exactly as `str::trim` removes it.
    assert_eq!("ehd", Username::new("\u{c}ehd\u{85}").as_str());
    assert_eq!("ehd", Username::new("\u{a0}\u{2003}ehd\u{3000}").as_str());
    assert_eq!("a b", Username::new(" a b ").as_str());
    assert_eq!(
        "mid\u{a0}dle",
        Username::new(" mid\u{a0}dle ").as_str(),
        "interior whitespace stays"
    );
}

#[test]
fn user_group_id_kept_verbatim() {
    assert_eq!("remote.pm-team", UserGroupId::new("remote.pm-team").as_str());
}
