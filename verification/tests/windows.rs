use apollo::db::{LeadStore, PageConfig};
use apollo::leads::Lead;

fn lead(id: &str) -> Lead {
    Lead {
        id: id.to_string(),
        first_name: "First".to_string(),
        last_name: "Last".to_string(),
        name: "First Last".to_string(),
        title: String::new(),
        linkedin_url: String::new(),
        state: None,
        city: None,
        country: String::new(),
        org_name: String::new(),
        org_website: None,
        org_fb_url: None,
        org_linkedin_url: None,
        email: None,
        list_id: 0,
    }
}

fn store_with(count: usize, list_id: u32) -> LeadStore {
    let mut store = LeadStore::new();
    let batch: Vec<Lead> = (0..count).map(|i| lead(&format!("id-{}", i))).collect();
    store.insert_batch(list_id, batch).unwrap();
    store
}

#[test]
fn window_past_the_tail_returns_the_remainder() {
    let store = store_with(25, 7);
    let page = store.read_window(7, &PageConfig { rows: 10, offset: 20 });
    assert_eq!(page.total_rows, 25);
    assert_eq!(page.items.len(), 5);
    assert_eq!(page.rows, 5);
    assert_eq!(page.rows_left, 0);
    assert!(page.next.is_none());
}

#[test]
fn full_window_reports_what_lies_past_it() {
    let store = store_with(25, 7);
    let page = store.read_window(7, &PageConfig { rows: 10, offset: 10 });
    assert_eq!(page.total_rows, 25);
    assert_eq!(page.items.len(), 10);
    assert_eq!(page.items[0].id, "id-10");
    assert_eq!(page.items[9].id, "id-19");
    assert_eq!(page.rows_left, 5);
    let next = page.next.unwrap();
    assert_eq!(next.rows, 5);
    assert_eq!(next.offset, 20);
}

#[test]
fn window_sees_only_the_requested_collection() {
    let mut store = store_with(3, 1);
    store
        .insert_batch(2, vec![lead("other-a"), lead("other-b")])
        .unwrap();
    let page = store.read_window(2, &PageConfig { rows: 10, offset: 0 });
    assert_eq!(page.total_rows, 2);
    assert_eq!(page.items.len(), 2);
    assert!(page.items.iter().all(|l| l.list_id == 2));
}

#[test]
fn offset_beyond_total_returns_nothing() {
    let store = store_with(4, 1);
    let page = store.read_window(1, &PageConfig { rows: 10, offset: 9 });
    assert_eq!(page.items.len(), 0);
    assert_eq!(page.rows_left, 0);
    assert!(page.next.is_none());
}

#[test]
fn same_external_id_in_different_collections_is_allowed() {
    let mut store = LeadStore::new();
    store.insert_batch(1, vec![lead("shared")]).unwrap();
    store.insert_batch(2, vec![lead("shared")]).unwrap();
    assert_eq!(store.leads.len(), 2);
}

#[test]
fn set_email_reaches_only_the_matching_record() {
    let mut store = store_with(3, 1);
    store.set_email(&"id-1".to_string(), &"x@y.z".to_string());
    assert!(store.leads[0].email.is_none());
    assert_eq!(store.leads[1].email.as_deref(), Some("x@y.z"));
    assert!(store.leads[2].email.is_none());
}
