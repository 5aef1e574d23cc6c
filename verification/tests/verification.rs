use apollo::apikey::{ApiKey, ApiKeyFor, ApiKeyRotation};
use apollo::db::LeadStore;
use apollo::emails::{
    apply_record_outcome, bare_domain, candidate_addresses, confirms, emails_entry, emails_window,
    increment_list_emails_count, max_fetchable, start_record, EmailsEntry, RecordOutcome,
    RecordStart, VerifyEvent, VerifyStep,
};
use apollo::leads::Lead;
use apollo::list::{EmployeeSize, List};
use apollo::CoreError;

fn lead(id: &str, first: &str, last: &str, website: Option<&str>) -> Lead {
    Lead {
        id: id.to_string(),
        first_name: first.to_string(),
        last_name: last.to_string(),
        name: format!("{} {}", first, last),
        title: String::new(),
        linkedin_url: String::new(),
        state: None,
        city: None,
        country: String::new(),
        org_name: String::new(),
        org_website: website.map(|w| w.to_string()),
        org_fb_url: None,
        org_linkedin_url: None,
        email: None,
        list_id: 0,
    }
}

fn email_pool(names: &[&str]) -> ApiKeyRotation {
    ApiKeyRotation::new(
        names
            .iter()
            .map(|n| ApiKey { key: n.to_string(), purpose: ApiKeyFor::Email })
            .collect(),
    )
}

fn sample_list() -> List {
    List::new(
        "l".to_string(),
        "ceo".to_string(),
        "Texas".to_string(),
        "construction".to_string(),
        None,
        EmployeeSize::Unspecified,
    )
}

#[test]
fn candidate_order_is_fixed() {
    let c = candidate_addresses("jane", "doe", "example.com");
    let views: Vec<&str> = c.iter().map(|s| s.as_str()).collect();
    assert_eq!(views, vec!["doe@example.com", "jane@example.com", "jdoe@example.com"]);
}

#[test]
fn record_start_normalizes_names_and_domain() {
    let l = lead("r1", "Jane", "DOE", Some("https://www.Example.com"));
    let engine = match start_record(&l) {
        RecordStart::Verify(e) => e,
        RecordStart::Skip => panic!("record has a website"),
    };
    let views: Vec<&str> = engine.candidates.iter().map(|s| s.as_str()).collect();
    assert_eq!(views, vec!["doe@Example.com", "jane@Example.com", "jdoe@Example.com"]);
}

#[test]
fn record_without_website_is_skipped() {
    let l = lead("r1", "Jane", "Doe", None);
    assert!(matches!(start_record(&l), RecordStart::Skip));
}

#[test]
fn bare_domain_strips_scheme_and_www_behind_it() {
    assert_eq!(bare_domain("https://www.example.com"), "example.com");
    assert_eq!(bare_domain("http://example.com"), "example.com");
    assert_eq!(bare_domain("https://example.com/about"), "example.com/about");
    assert_eq!(bare_domain("example.com"), "example.com");
    assert_eq!(bare_domain("www.example.com"), "www.example.com");
    assert_eq!(bare_domain(""), "");
}

#[test]
fn second_candidate_match_stops_the_walk_and_counts_once() {
    let l = lead("r1", "Jane", "Doe", Some("http://example.com"));
    let mut engine = match start_record(&l) {
        RecordStart::Verify(e) => e,
        RecordStart::Skip => panic!("record has a website"),
    };
    let mut pool = email_pool(&["k1"]);
    assert_eq!(engine.current_candidate(), "doe@example.com");
    let step = engine.on_event(&mut pool, VerifyEvent::Status("invalid".to_string()));
    let next = match step {
        VerifyStep::Query(c) => c,
        _ => panic!("expected the next candidate"),
    };
    assert_eq!(next, "jane@example.com");
    let step = engine.on_event(&mut pool, VerifyEvent::Status("valid".to_string()));
    let confirmed = match step {
        VerifyStep::Confirmed(c) => c,
        _ => panic!("expected a confirmation"),
    };
    assert_eq!(confirmed, "jane@example.com");

    let mut list = sample_list();
    list.leads_fetched = 3;
    list.emails_fetched = 1;
    let mut store = LeadStore::new();
    store
        .insert_batch(list.id, vec![lead("r1", "Jane", "Doe", Some("http://example.com"))])
        .unwrap();
    let commit = apply_record_outcome(
        &mut list,
        &mut store,
        &"r1".to_string(),
        &RecordOutcome::Confirmed(confirmed),
    );
    assert_eq!(list.emails_fetched, 2);
    assert_eq!(commit.emails_fetched, Some(2));
    assert!(commit.leads_fetched.is_none());
    assert_eq!(store.leads[0].email.as_deref(), Some("jane@example.com"));
}

#[test]
fn rate_limited_candidate_is_retried_then_aborts_when_pool_runs_dry() {
    let l = lead("r1", "jane", "doe", Some("example.com"));
    let mut engine = match start_record(&l) {
        RecordStart::Verify(e) => e,
        RecordStart::Skip => panic!("record has a website"),
    };
    let mut pool = email_pool(&["k1", "k2"]);
    let step = engine.on_event(&mut pool, VerifyEvent::RateLimited);
    let retried = match step {
        VerifyStep::Query(c) => c,
        _ => panic!("expected a retry of the same candidate"),
    };
    assert_eq!(retried, "doe@example.com");
    assert_eq!(pool.get().unwrap().key, "k2");
    let step = engine.on_event(&mut pool, VerifyEvent::RateLimited);
    assert!(matches!(step, VerifyStep::Failed(CoreError::AuthExhausted)));
}

#[test]
fn all_candidates_exhausted_is_no_match_not_an_error() {
    let l = lead("r1", "jane", "doe", Some("example.com"));
    let mut engine = match start_record(&l) {
        RecordStart::Verify(e) => e,
        RecordStart::Skip => panic!("record has a website"),
    };
    let mut pool = email_pool(&["k1"]);
    for expected in ["jane@example.com", "jdoe@example.com"] {
        match engine.on_event(&mut pool, VerifyEvent::Status("unknown".to_string())) {
            VerifyStep::Query(c) => assert_eq!(c, expected),
            _ => panic!("expected the walk to continue"),
        }
    }
    let step = engine.on_event(&mut pool, VerifyEvent::Status("invalid".to_string()));
    assert!(matches!(step, VerifyStep::NoMatch));
}

#[test]
fn verification_failures_propagate() {
    let l = lead("r1", "jane", "doe", Some("example.com"));
    let mut pool = email_pool(&["k1"]);
    let mut engine = match start_record(&l) {
        RecordStart::Verify(e) => e,
        RecordStart::Skip => panic!("record has a website"),
    };
    let step = engine.on_event(&mut pool, VerifyEvent::TransportError);
    assert!(matches!(step, VerifyStep::Failed(CoreError::UpstreamFailure)));

    let mut engine2 = match start_record(&l) {
        RecordStart::Verify(e) => e,
        RecordStart::Skip => panic!("record has a website"),
    };
    let step = engine2.on_event(&mut pool, VerifyEvent::DecodeError);
    assert!(matches!(step, VerifyStep::Failed(CoreError::DecodeFailure)));
}

#[test]
fn only_valid_and_accept_all_confirm() {
    assert!(confirms("valid"));
    assert!(confirms("accept_all"));
    assert!(!confirms("invalid"));
    assert!(!confirms("unknown"));
    assert!(!confirms(""));
    assert!(!confirms("VALID"));
}

#[test]
fn skipped_record_still_advances_the_counter() {
    let mut list = sample_list();
    list.leads_fetched = 2;
    let mut store = LeadStore::new();
    let commit = apply_record_outcome(
        &mut list,
        &mut store,
        &"absent".to_string(),
        &RecordOutcome::SkippedNoWebsite,
    );
    assert_eq!(list.emails_fetched, 1);
    assert_eq!(commit.emails_fetched, Some(1));
    let commit = increment_list_emails_count(&mut list);
    assert_eq!(list.emails_fetched, 2);
    assert_eq!(commit.emails_fetched, Some(2));
}

#[test]
fn entry_guard_and_window_anchor() {
    let mut list = sample_list();
    assert_eq!(emails_entry(&list), EmailsEntry::NoLeads);
    list.leads_fetched = 4;
    list.emails_fetched = 4;
    assert_eq!(emails_entry(&list), EmailsEntry::AllDone);
    list.emails_fetched = 1;
    assert_eq!(emails_entry(&list), EmailsEntry::Ready);
    assert_eq!(max_fetchable(&list), 3);
    let w = emails_window(&list, 2);
    assert_eq!(w.rows, 2);
    assert_eq!(w.offset, 1);
}
