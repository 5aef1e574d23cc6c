use apollo::apikey::{ApiKey, ApiKeyFor, ApiKeyRotation};
use apollo::db::LeadStore;
use apollo::leads::{FetchEngine, FetchResponse, FetchStep, Lead};
use apollo::list::{CursorUpdate, EmployeeSize, List, SizeOptions};
use apollo::CoreError;

fn lead(id: &str, first: &str, last: &str, website: Option<&str>) -> Lead {
    Lead {
        id: id.to_string(),
        first_name: first.to_string(),
        last_name: last.to_string(),
        name: format!("{} {}", first, last),
        title: "ceo".to_string(),
        linkedin_url: String::new(),
        state: None,
        city: None,
        country: "US".to_string(),
        org_name: "Acme".to_string(),
        org_website: website.map(|w| w.to_string()),
        org_fb_url: None,
        org_linkedin_url: None,
        email: None,
        list_id: 0,
    }
}

fn sample_list() -> List {
    List::new(
        "roofers".to_string(),
        "ceo".to_string(),
        "Texas".to_string(),
        "construction".to_string(),
        Some("roofing".to_string()),
        EmployeeSize::Unspecified,
    )
}

fn pool_of(names: &[&str]) -> ApiKeyRotation {
    ApiKeyRotation::new(
        names
            .iter()
            .map(|n| ApiKey { key: n.to_string(), purpose: ApiKeyFor::Leads })
            .collect(),
    )
}

#[test]
fn rate_limited_request_is_reissued_with_same_cursor() {
    let mut engine = FetchEngine::new(sample_list(), LeadStore::new(), pool_of(&["k1", "k2"]), 2);
    let first = match engine.start() {
        FetchStep::Request(q) => q,
        _ => panic!("expected a request"),
    };
    assert_eq!(first.api_key, "k1");
    assert!(first.next.is_none());
    let (step, progress) = engine.on_response(FetchResponse::RateLimited);
    assert!(progress.is_none());
    let second = match step {
        FetchStep::Request(q) => q,
        _ => panic!("expected the request to be reissued"),
    };
    assert_eq!(second.api_key, "k2");
    assert_eq!(second.next, first.next);
    assert_eq!(second.person_title, first.person_title);
    assert_eq!(second.location, first.location);
    assert_eq!(second.industry, first.industry);
    assert_eq!(second.num_employees, first.num_employees);
    assert_eq!(second.q_keywords, first.q_keywords);

    let page = FetchResponse::Page {
        next: Some("cur-2".to_string()),
        items: vec![lead("x1", "Jane", "Doe", None), lead("x2", "Jon", "Roe", None)],
    };
    let (step, progress) = engine.on_response(page);
    assert!(matches!(step, FetchStep::Done));
    let progress = progress.expect("one page of progress");
    assert_eq!(progress.records.len(), 2);
    assert_eq!(progress.commit.leads_fetched, Some(2));
    assert!(matches!(
        &progress.commit.next_pointer,
        CursorUpdate::Replace(Some(t)) if t == "cur-2"
    ));
    assert_eq!(engine.store.leads.len(), 2);
    assert_eq!(engine.list.leads_fetched, 2);
    assert_eq!(engine.list.next_pointer.as_deref(), Some("cur-2"));
}

#[test]
fn restart_requests_page_after_persisted_cursor() {
    let mut list = sample_list();
    list.leads_fetched = 2;
    list.next_pointer = Some("cur-2".to_string());
    let mut engine = FetchEngine::new(list, LeadStore::new(), pool_of(&["k1"]), 2);
    match engine.start() {
        FetchStep::Request(q) => assert_eq!(q.next.as_deref(), Some("cur-2")),
        _ => panic!("expected a request"),
    }
}

#[test]
fn exhausted_cursor_reports_no_more_data_without_any_request() {
    let mut list = sample_list();
    list.leads_fetched = 5;
    list.next_pointer = None;
    let mut engine = FetchEngine::new(list, LeadStore::new(), pool_of(&["k1"]), 3);
    assert!(matches!(engine.start(), FetchStep::NoMoreData));
}

#[test]
fn fresh_collection_with_no_cursor_still_fetches() {
    let mut engine = FetchEngine::new(sample_list(), LeadStore::new(), pool_of(&["k1"]), 1);
    assert!(matches!(engine.start(), FetchStep::Request(_)));
}

#[test]
fn rate_limit_on_last_credential_aborts_with_auth_exhausted() {
    let mut engine = FetchEngine::new(sample_list(), LeadStore::new(), pool_of(&["k1"]), 1);
    assert!(matches!(engine.start(), FetchStep::Request(_)));
    let (step, _) = engine.on_response(FetchResponse::RateLimited);
    assert!(matches!(step, FetchStep::Failed(CoreError::AuthExhausted)));
    assert!(engine.list.next_pointer.is_none());
    assert_eq!(engine.list.leads_fetched, 0);
}

#[test]
fn transport_and_decode_failures_commit_nothing() {
    let mut engine = FetchEngine::new(sample_list(), LeadStore::new(), pool_of(&["k1"]), 1);
    assert!(matches!(engine.start(), FetchStep::Request(_)));
    let (step, progress) = engine.on_response(FetchResponse::TransportError);
    assert!(matches!(step, FetchStep::Failed(CoreError::UpstreamFailure)));
    assert!(progress.is_none());
    assert_eq!(engine.list.leads_fetched, 0);

    let mut engine = FetchEngine::new(sample_list(), LeadStore::new(), pool_of(&["k1"]), 1);
    assert!(matches!(engine.start(), FetchStep::Request(_)));
    let (step, _) = engine.on_response(FetchResponse::DecodeError);
    assert!(matches!(step, FetchStep::Failed(CoreError::DecodeFailure)));

    let mut engine = FetchEngine::new(sample_list(), LeadStore::new(), pool_of(&["k1"]), 1);
    assert!(matches!(engine.start(), FetchStep::Request(_)));
    let (step, _) = engine.on_response(FetchResponse::HttpError);
    assert!(matches!(step, FetchStep::Failed(CoreError::UpstreamFailure)));
}

#[test]
fn loop_continues_until_requested_count_reached() {
    let mut engine = FetchEngine::new(sample_list(), LeadStore::new(), pool_of(&["k1"]), 3);
    assert!(matches!(engine.start(), FetchStep::Request(_)));
    let page1 = FetchResponse::Page {
        next: Some("cur-2".to_string()),
        items: vec![lead("a", "A", "A", None), lead("b", "B", "B", None)],
    };
    let (step, _) = engine.on_response(page1);
    let q = match step {
        FetchStep::Request(q) => q,
        _ => panic!("expected the loop to continue"),
    };
    assert_eq!(q.next.as_deref(), Some("cur-2"));
    let page2 = FetchResponse::Page {
        next: Some("cur-3".to_string()),
        items: vec![lead("c", "C", "C", None)],
    };
    let (step, _) = engine.on_response(page2);
    assert!(matches!(step, FetchStep::Done));
    assert_eq!(engine.list.leads_fetched, 3);
    assert_eq!(engine.store.leads.len(), 3);
    assert_eq!(engine.list.next_pointer.as_deref(), Some("cur-3"));
}

#[test]
fn duplicate_batch_fails_whole_insert_and_commits_nothing() {
    let mut list = sample_list();
    list.leads_fetched = 1;
    list.next_pointer = Some("cur-1".to_string());
    let mut store = LeadStore::new();
    store
        .insert_batch(list.id, vec![lead("dup", "A", "A", None)])
        .unwrap();
    let mut engine = FetchEngine::new(list, store, pool_of(&["k1"]), 2);
    assert!(matches!(engine.start(), FetchStep::Request(_)));
    let page = FetchResponse::Page {
        next: Some("cur-2".to_string()),
        items: vec![lead("fresh", "B", "B", None), lead("dup", "C", "C", None)],
    };
    let (step, progress) = engine.on_response(page);
    assert!(matches!(step, FetchStep::Failed(CoreError::PersistenceFailure)));
    assert!(progress.is_none());
    assert_eq!(engine.store.leads.len(), 1);
    assert_eq!(engine.list.next_pointer.as_deref(), Some("cur-1"));
    assert_eq!(engine.list.leads_fetched, 1);
}

#[test]
fn request_carries_filter_encoding() {
    let list = List::new(
        "l".to_string(),
        "cto".to_string(),
        "Ohio".to_string(),
        "software".to_string(),
        None,
        EmployeeSize::Specified(vec![SizeOptions::Under10, SizeOptions::Under50]),
    );
    let mut engine = FetchEngine::new(list, LeadStore::new(), pool_of(&["k9"]), 1);
    let q = match engine.start() {
        FetchStep::Request(q) => q,
        _ => panic!("expected a request"),
    };
    assert_eq!(q.person_title, "cto");
    assert_eq!(q.location, "Ohio");
    assert_eq!(q.industry, "software");
    assert_eq!(q.num_employees.as_deref(), Some("1,10;21,50"));
    assert!(q.q_keywords.is_none());
    assert_eq!(q.api_key, "k9");
}

#[test]
fn entering_the_loop_with_no_credentials_fails_before_any_request() {
    let mut engine = FetchEngine::new(sample_list(), LeadStore::new(), pool_of(&[]), 1);
    assert!(matches!(
        engine.start(),
        FetchStep::Failed(CoreError::NoCredentialsAvailable)
    ));
}
