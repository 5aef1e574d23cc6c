use apollo::db::Tablular;
use apollo::leads::Lead;
use apollo::list::{CursorUpdate, EmployeeSize, List};
use apollo::CoreError;

fn sample_list() -> List {
    List::new(
        "roofers".to_string(),
        "ceo".to_string(),
        "Texas".to_string(),
        "construction".to_string(),
        Some("roofing".to_string()),
        EmployeeSize::Unspecified,
    )
}

#[test]
fn new_collection_starts_at_zero() {
    let l = sample_list();
    assert_eq!(l.leads_fetched, 0);
    assert_eq!(l.emails_fetched, 0);
    assert!(l.next_pointer.is_none());
    assert_eq!(l.filter.name, "roofers-filter");
    assert_eq!(l.filter.keywords.as_deref(), Some("roofing"));
}

#[test]
fn update_meta_changes_exactly_the_supplied_fields() {
    let mut l = sample_list();
    let commit = l
        .update_meta(CursorUpdate::Replace(Some("tok".to_string())), Some(4), None)
        .unwrap();
    assert_eq!(l.next_pointer.as_deref(), Some("tok"));
    assert_eq!(l.leads_fetched, 4);
    assert_eq!(l.emails_fetched, 0);
    assert_eq!(commit.list_id, l.id);
    assert_eq!(commit.leads_fetched, Some(4));
    assert!(commit.emails_fetched.is_none());
    assert!(matches!(commit.next_pointer, CursorUpdate::Replace(Some(t)) if t == "tok"));

    let commit = l.update_meta(CursorUpdate::Keep, None, Some(2)).unwrap();
    assert_eq!(l.next_pointer.as_deref(), Some("tok"));
    assert_eq!(l.emails_fetched, 2);
    assert!(matches!(commit.next_pointer, CursorUpdate::Keep));

    l.update_meta(CursorUpdate::Replace(None), None, None).unwrap();
    assert!(l.next_pointer.is_none());
}

#[test]
fn update_meta_with_nothing_to_do_is_refused() {
    let mut l = sample_list();
    let err = l.update_meta(CursorUpdate::Keep, None, None).unwrap_err();
    assert_eq!(err, CoreError::NoChanges);
    assert!(l.next_pointer.is_none());
    assert_eq!(l.leads_fetched, 0);
}

#[test]
fn lead_update_email_touches_only_the_email() {
    let mut l = Lead {
        id: "x".to_string(),
        first_name: "Jane".to_string(),
        last_name: "Doe".to_string(),
        name: "Jane Doe".to_string(),
        title: "ceo".to_string(),
        linkedin_url: String::new(),
        state: None,
        city: None,
        country: "US".to_string(),
        org_name: "Acme".to_string(),
        org_website: None,
        org_fb_url: None,
        org_linkedin_url: None,
        email: None,
        list_id: 3,
    };
    l.update_email("jane@acme.com".to_string());
    assert_eq!(l.email.as_deref(), Some("jane@acme.com"));
    assert_eq!(l.id, "x");
    assert_eq!(l.list_id, 3);
}

#[test]
fn tabular_rows_match_their_headers() {
    let mut l = sample_list();
    l.leads_fetched = 12;
    l.emails_fetched = 7;
    let headers = List::headers();
    let row = l.row();
    assert_eq!(headers.len(), row.len());
    assert_eq!(row[0], "roofers");
    assert_eq!(row[1], "12");
    assert_eq!(row[2], "7");
    assert_eq!(row[6], "roofing");
    assert_eq!(row[7], "unspecified");

    let lead = Lead {
        id: "x".to_string(),
        first_name: "Jane".to_string(),
        last_name: "Doe".to_string(),
        name: "Jane Doe".to_string(),
        title: "chief executive".to_string(),
        linkedin_url: "ln".to_string(),
        state: None,
        city: Some("San Francisco".to_string()),
        country: "US".to_string(),
        org_name: "Acme".to_string(),
        org_website: None,
        org_fb_url: None,
        org_linkedin_url: None,
        email: None,
        list_id: 3,
    };
    let headers = Lead::headers();
    let row = lead.row();
    assert_eq!(headers.len(), row.len());
    assert_eq!(row[1], "chief e...");
    assert_eq!(row[3], "San Franci...");
    assert_eq!(row[4], "not available");
    assert_eq!(row[6], "not available");
}
