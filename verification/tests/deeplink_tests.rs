use crambo_desktop::deeplink::{device_name, extract_token_from_url, first_token_value};

#[test]
fn token_is_taken_from_the_deep_link_query() {
    assert_eq!(extract_token_from_url("crambo://auth?token=abc.def"), Some("abc.def".to_string()));
    assert_eq!(extract_token_from_url("\"crambo://auth?token=a%20b&x=1\""), Some("a b".to_string()));
    assert_eq!(extract_token_from_url("crambo://auth?x=1&token=first&token=second"), Some("first".to_string()));
    assert_eq!(extract_token_from_url("crambo://auth?x=1"), None);
    assert_eq!(extract_token_from_url("not a url"), None);
    assert_eq!(extract_token_from_url(""), None);
}

#[test]
fn device_name_falls_back_to_unknown() {
    assert_eq!(device_name(Some("laptop".to_string())), "laptop");
    assert_eq!(device_name(None), "Unknown");
}

#[test]
fn first_token_pair_wins() {
    let pairs = vec![
        ("x".to_string(), "1".to_string()),
        ("token".to_string(), "a".to_string()),
        ("token".to_string(), "b".to_string()),
    ];
    assert_eq!(first_token_value(&pairs), Some("a".to_string()));
    assert_eq!(first_token_value(&vec![("Token".to_string(), "z".to_string())]), None);
}
