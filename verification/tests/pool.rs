use apollo::apikey::{ApiKey, ApiKeyFor, ApiKeyRotation};
use apollo::CoreError;

fn key(name: &str, purpose: ApiKeyFor) -> ApiKey {
    ApiKey { key: name.to_string(), purpose }
}

#[test]
fn pool_rotates_n_minus_one_times_then_exhausts() {
    let keys = vec![
        key("k1", ApiKeyFor::Leads),
        key("k2", ApiKeyFor::Leads),
        key("k3", ApiKeyFor::Both),
    ];
    let mut pool = ApiKeyRotation::new(keys);
    assert_eq!(pool.get().unwrap().key, "k1");
    let r1 = pool.rotate().unwrap();
    assert_eq!(r1.key, "k2");
    assert_eq!(pool.get().unwrap().key, "k2");
    let r2 = pool.rotate().unwrap();
    assert_eq!(r2.key, "k3");
    assert_eq!(pool.get().unwrap().key, "k3");
    assert_eq!(pool.rotate().unwrap_err(), CoreError::PoolExhausted);
    assert_eq!(pool.rotate().unwrap_err(), CoreError::PoolExhausted);
    assert_eq!(pool.get().unwrap().key, "k3");
}

#[test]
fn pool_of_one_exhausts_at_once() {
    let mut pool = ApiKeyRotation::new(vec![key("only", ApiKeyFor::Email)]);
    assert_eq!(pool.get().unwrap().key, "only");
    assert_eq!(pool.rotate().unwrap_err(), CoreError::PoolExhausted);
}

#[test]
fn empty_pool_has_no_credentials() {
    let mut pool = ApiKeyRotation::new(Vec::new());
    assert_eq!(pool.get().unwrap_err(), CoreError::NoCredentialsAvailable);
    assert_eq!(pool.rotate().unwrap_err(), CoreError::PoolExhausted);
}

#[test]
fn pool_filters_by_purpose() {
    let keys = vec![
        key("a", ApiKeyFor::Email),
        key("b", ApiKeyFor::Leads),
        key("c", ApiKeyFor::Both),
        key("d", ApiKeyFor::Email),
    ];
    let for_leads = ApiKeyRotation::for_purpose(&keys, &ApiKeyFor::Leads);
    let names: Vec<&str> = for_leads.iter().map(|k| k.key.as_str()).collect();
    assert_eq!(names, vec!["b", "c"]);
    let for_email = ApiKeyRotation::for_purpose(&keys, &ApiKeyFor::Email);
    let names: Vec<&str> = for_email.iter().map(|k| k.key.as_str()).collect();
    assert_eq!(names, vec!["a", "c", "d"]);
}

#[test]
fn scope_tags_encode_and_decode() {
    assert_eq!(ApiKeyFor::Email.to_str(), "email");
    assert_eq!(ApiKeyFor::Leads.to_str(), "leads");
    assert_eq!(ApiKeyFor::Both.to_str(), "both");
    assert!(matches!(ApiKeyFor::from_str("email"), Some(ApiKeyFor::Email)));
    assert!(matches!(ApiKeyFor::from_str("leads"), Some(ApiKeyFor::Leads)));
    assert!(matches!(ApiKeyFor::from_str("both"), Some(ApiKeyFor::Both)));
    assert!(ApiKeyFor::from_str("everything").is_none());
    assert!(ApiKeyFor::from_str("").is_none());
}
