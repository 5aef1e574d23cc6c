//! Fetched records, the request they are fetched with, and the paginated
//! fetch loop driving the upstream ingestion cycle.

use vstd::prelude::*;

use crate::apikey::{ApiKey, ApiKeyRotation};
use crate::db::LeadStore;
use crate::list::{CursorUpdate, EmployeeSize, List, ListCommit};
use crate::CoreError;

verus! {

/// One fetched record. Created once per external id during ingestion; the
/// email is the only field set later, by verification.
#[derive(Debug)]
pub struct Lead {
    pub id: String,
    pub first_name: String,
    pub last_name: String,
    pub name: String,
    pub title: String,
    pub linkedin_url: String,
    pub state: Option<String>,
    pub city: Option<String>,
    pub country: String,
    pub org_name: String,
    pub org_website: Option<String>,
    pub org_fb_url: Option<String>,
    pub org_linkedin_url: Option<String>,
    pub email: Option<String>,
    pub list_id: u32,
}

pub(crate) fn clone_opt_string(o: &Option<String>) -> (r: Option<String>)
    ensures
        r == *o,
{
    match o {
        None => None,
        Some(s) => Some(s.clone()),
    }
}

impl Clone for Lead {
    fn clone(&self) -> (r: Self)
        ensures
            r == *self,
    {
        Lead {
            id: self.id.clone(),
            first_name: self.first_name.clone(),
            last_name: self.last_name.clone(),
            name: self.name.clone(),
            title: self.title.clone(),
            linkedin_url: self.linkedin_url.clone(),
            state: clone_opt_string(&self.state),
            city: clone_opt_string(&self.city),
            country: self.country.clone(),
            org_name: self.org_name.clone(),
            org_website: clone_opt_string(&self.org_website),
            org_fb_url: clone_opt_string(&self.org_fb_url),
            org_linkedin_url: clone_opt_string(&self.org_linkedin_url),
            email: clone_opt_string(&self.email),
            list_id: self.list_id,
        }
    }
}

impl Lead {
    /// The record as it stands once attached to the collection `lid`.
    pub open spec fn spec_with_list(self, lid: u32) -> Lead {
        Lead { list_id: lid, ..self }
    }

    /// Records the verified address; every other field stays as it was.
    pub fn update_email(&mut self, email: String)
        ensures
            *final(self) == (Lead { email: Some(email), ..*old(self) }),
    {
        self.email = Some(email);
    }
}

impl crate::db::Tablular for Lead {
    fn headers() -> Vec<&'static str> {
        let mut v: Vec<&'static str> = Vec::new();
        v.push("name");
        v.push("title");
        v.push("LinkedIn URL");
        v.push("city");
        v.push("state");
        v.push("country");
        v.push("email");
        v
    }

    fn row(&self) -> Vec<String> {
        let mut v: Vec<String> = Vec::new();
        v.push(self.name.clone());
        v.push(crate::strutil::truncate(self.title.as_str(), 7));
        v.push(self.linkedin_url.clone());
        let city = crate::strutil::opt_or_str(&self.city, "not available");
        v.push(crate::strutil::truncate(city.as_str(), 10));
        v.push(crate::strutil::opt_or_str(&self.state, "not available"));
        v.push(self.country.clone());
        v.push(crate::strutil::opt_or_str(&self.email, "not available"));
        v
    }
}

/// A clone of the batch with every record stamped for collection `lid`.
pub(crate) fn stamp_clone(items: &Vec<Lead>, lid: u32) -> (r: Vec<Lead>)
    ensures
        r@ == crate::db::spec_stamped(items@, lid),
{
    let mut out: Vec<Lead> = Vec::new();
    let mut i: usize = 0;
    while i < items.len()
        invariant
            i <= items@.len(),
            out@ == crate::db::spec_stamped(items@.take(i as int), lid),
        decreases items@.len() - i,
    {
        let mut lead = items[i].clone();
        lead.list_id = lid;
        out.push(lead);
        proof {
            assert(crate::db::spec_stamped(items@.take(i + 1), lid) =~= crate::db::spec_stamped(
                items@.take(i as int),
                lid,
            ).push(items@[i as int].spec_with_list(lid)));
        }
        i += 1;
    }
    proof {
        assert(items@.take(items@.len() as int) =~= items@);
    }
    out
}

/// One upstream page request, as plain values: the stable query encoding of
/// the filter, the continuation cursor if any, and the credential key that
/// authenticates it. The surrounding application renders it into a URL and
/// the two auth headers.
#[derive(Debug)]
pub struct LeadRequest {
    pub person_title: String,
    pub location: String,
    pub industry: String,
    pub num_employees: Option<String>,
    pub q_keywords: Option<String>,
    pub next: Option<String>,
    pub api_key: String,
}

/// What it means for `r` to be the request for collection `l` under
/// credential `key`: the query carries the filter's fields, the employee
/// sizes in their wire form when specified and no parameter otherwise, the
/// keywords when present, and the collection's current cursor.
pub open spec fn spec_is_request_for(r: LeadRequest, l: List, key: ApiKey) -> bool {
    &&& r.person_title == l.filter.person_title
    &&& r.location == l.filter.location
    &&& r.industry == l.filter.industry
    &&& match (l.filter.employee_size, r.num_employees) {
        (EmployeeSize::Unspecified, n) => n is None,
        (EmployeeSize::Specified(_), n) => n matches Some(s) && s@
            == l.filter.employee_size.spec_encode(true),
    }
    &&& r.q_keywords == l.filter.keywords
    &&& r.next == l.next_pointer
    &&& r.api_key == key.key
}

/// View-level equality of everything but the credential: what "logically
/// identical request" means for a retry after rotation.
pub open spec fn spec_opt_str_eqv(a: Option<String>, b: Option<String>) -> bool {
    match (a, b) {
        (None, None) => true,
        (Some(x), Some(y)) => x@ == y@,
        _ => false,
    }
}

pub open spec fn spec_same_query(a: LeadRequest, b: LeadRequest) -> bool {
    &&& a.person_title@ == b.person_title@
    &&& a.location@ == b.location@
    &&& a.industry@ == b.industry@
    &&& spec_opt_str_eqv(a.num_employees, b.num_employees)
    &&& spec_opt_str_eqv(a.q_keywords, b.q_keywords)
    &&& spec_opt_str_eqv(a.next, b.next)
}

/// Two requests built for the same collection state carry the same query —
/// in particular the same cursor — whatever credentials authenticate them.
/// This is the retry guarantee under rate limiting: rotation changes only
/// the key, never the page being asked for.
pub proof fn lemma_reissued_request_identical(
    l: List,
    k1: ApiKey,
    k2: ApiKey,
    r1: LeadRequest,
    r2: LeadRequest,
)
    requires
        spec_is_request_for(r1, l, k1),
        spec_is_request_for(r2, l, k2),
    ensures
        spec_same_query(r1, r2),
{
}

impl LeadRequest {
    /// Builds the request for the collection's current cursor under the
    /// given credential.
    pub fn build(l: &List, key: &ApiKey) -> (r: LeadRequest)
        ensures
            spec_is_request_for(r, *l, *key),
    {
        let num_employees = match &l.filter.employee_size {
            EmployeeSize::Unspecified => None,
            s => Some(s.to_str(true)),
        };
        LeadRequest {
            person_title: l.filter.person_title.clone(),
            location: l.filter.location.clone(),
            industry: l.filter.industry.clone(),
            num_employees,
            q_keywords: clone_opt_string(&l.filter.keywords),
            next: clone_opt_string(&l.next_pointer),
            api_key: key.key.clone(),
        }
    }
}

/// What the application reports back for one issued page request: a
/// transport error, a rate-limiting status, another non-success status, a
/// response that did not decode, or a decoded page with its continuation
/// token (none meaning no further pages) and its records.
#[derive(Debug)]
pub enum FetchResponse {
    TransportError,
    RateLimited,
    HttpError,
    DecodeError,
    Page { next: Option<String>, items: Vec<Lead> },
}

/// What the engine asks of the application next: perform a request and
/// report its outcome, or stop — because the run is complete, because there
/// was nothing to fetch, or with the failure that ends it.
#[derive(Debug)]
pub enum FetchStep {
    Request(LeadRequest),
    Done,
    NoMoreData,
    Failed(CoreError),
}

/// The durable effect of one successfully processed page: the records that
/// were persisted, stamped with their collection, and the checkpoint commit
/// to write. The application mirrors both to storage before continuing.
#[derive(Debug)]
pub struct FetchProgress {
    pub records: Vec<Lead>,
    pub commit: ListCommit,
}

/// Where the engine stands: not yet started, waiting for the outcome of an
/// issued request, or stopped for good.
#[derive(Debug, Clone, Copy, PartialEq, Eq, Structural)]
pub enum EngineState {
    Entry,
    Awaiting,
    Stopped,
}

/// Entry guard of the fetch loop: a collection that has fetched before and
/// has no cursor left has no further pages to ask for.
pub open spec fn spec_no_more(l: List) -> bool {
    l.leads_fetched > 0 && l.next_pointer is None
}

/// The paginated fetch loop as an explicit state machine. The application
/// performs the requests the engine hands out and feeds every outcome back;
/// the engine makes all decisions: the entry guard, rotation under rate
/// limiting, fail-fast aborts, persistence, checkpointing and continuation.
#[derive(Debug)]
pub struct FetchEngine {
    pub list: List,
    pub store: LeadStore,
    pub pool: ApiKeyRotation,
    pub requested: u32,
    pub fetched_this_run: u32,
    pub state: EngineState,
}

/// The engine with its run ended, everything else as it stands.
pub open spec fn spec_stopped(e: FetchEngine) -> FetchEngine {
    FetchEngine { state: EngineState::Stopped, ..e }
}

impl FetchEngine {
    pub open spec fn wf(self) -> bool {
        &&& self.list.wf()
        &&& self.store.wf()
        &&& self.pool.wf()
        &&& (self.state is Awaiting ==> self.pool.keys.len() > 0)
    }

    /// A fresh engine over the collection, the local store and a credential
    /// pool already scoped to ingestion, asked to fetch `requested` records.
    pub fn new(list: List, store: LeadStore, pool: ApiKeyRotation, requested: u32) -> (r:
        FetchEngine)
        requires
            list.wf(),
            store.wf(),
            pool.wf(),
        ensures
            r.wf(),
            r == (FetchEngine {
                list,
                store,
                pool,
                requested,
                fetched_this_run: 0,
                state: EngineState::Entry,
            }),
    {
        FetchEngine { list, store, pool, requested, fetched_this_run: 0, state: EngineState::Entry }
    }

    /// Enters the loop. A collection with prior progress and no cursor left
    /// yields `NoMoreData` — the engine stops without ever handing out a
    /// request, so no network call is made. Otherwise the first request goes
    /// out under the pool's active credential, carrying the persisted cursor.
    pub fn start(&mut self) -> (r: FetchStep)
        requires
            old(self).wf(),
            old(self).state is Entry,
        ensures
            final(self).wf(),
            spec_no_more(old(self).list) ==> {
                &&& r == FetchStep::NoMoreData
                &&& *final(self) == spec_stopped(*old(self))
            },
            !spec_no_more(old(self).list) && old(self).pool.keys.len() == 0 ==> {
                &&& r == FetchStep::Failed(CoreError::NoCredentialsAvailable)
                &&& *final(self) == spec_stopped(*old(self))
            },
            !spec_no_more(old(self).list) && old(self).pool.keys.len() > 0 ==> {
                &&& *final(self) == (FetchEngine { state: EngineState::Awaiting, ..*old(self) })
                &&& r matches FetchStep::Request(q) && spec_is_request_for(
                    q,
                    old(self).list,
                    old(self).pool.keys[old(self).pool.active_index as int],
                )
            },
    {
        if self.list.leads_fetched > 0 && self.list.next_pointer.is_none() {
            self.state = EngineState::Stopped;
            return FetchStep::NoMoreData;
        }
        match self.pool.get() {
            Err(e) => {
                self.state = EngineState::Stopped;
                FetchStep::Failed(e)
            },
            Ok(key) => {
                self.state = EngineState::Awaiting;
                FetchStep::Request(LeadRequest::build(&self.list, &key))
            },
        }
    }

    /// Feeds the outcome of the pending request back into the loop.
    ///
    /// Rate limiting rotates the pool and re-issues the logically identical
    /// request — same cursor, next credential — or ends the run with
    /// `AuthExhausted` when no credential is left, committing nothing. Any
    /// other failure ends the run at once with nothing committed, so the
    /// persisted cursor and counters still describe the last completed page.
    /// A decoded page is persisted whole and checkpointed — cursor replaced,
    /// fetched count advanced — before the engine decides to continue with
    /// the new cursor or to stop.
    pub fn on_response(&mut self, resp: FetchResponse) -> (r: (FetchStep, Option<FetchProgress>))
        requires
            old(self).wf(),
            old(self).state is Awaiting,
        ensures
            final(self).wf(),
            (resp is TransportError || resp is HttpError) ==> {
                &&& r == (
                    FetchStep::Failed(CoreError::UpstreamFailure),
                    None::<FetchProgress>,
                )
                &&& *final(self) == spec_stopped(*old(self))
            },
            resp is DecodeError ==> {
                &&& r == (FetchStep::Failed(CoreError::DecodeFailure), None::<FetchProgress>)
                &&& *final(self) == spec_stopped(*old(self))
            },
            resp is RateLimited && old(self).pool.spec_can_rotate() ==> {
                &&& *final(self) == (FetchEngine { pool: old(self).pool.spec_rotated(), ..*old(
                    self,
                ) })
                &&& r.1 is None
                &&& r.0 matches FetchStep::Request(q) && spec_is_request_for(
                    q,
                    old(self).list,
                    old(self).pool.keys[old(self).pool.active_index + 1],
                )
            },
            resp is RateLimited && !old(self).pool.spec_can_rotate() ==> {
                &&& r == (FetchStep::Failed(CoreError::AuthExhausted), None::<FetchProgress>)
                &&& *final(self) == spec_stopped(*old(self))
            },
            resp matches FetchResponse::Page { next, items } ==> ({
                let fits = items@.len() + old(self).list.leads_fetched <= u32::MAX && items@.len()
                    + old(self).fetched_this_run <= u32::MAX;
                let ok = crate::db::spec_batch_ok(old(self).store.leads@, items@, old(self).list.id);
                let new_total = (old(self).list.leads_fetched + items@.len()) as u32;
                &&& !fits ==> r == (
                    FetchStep::Failed(CoreError::DecodeFailure),
                    None::<FetchProgress>,
                ) && *final(self) == spec_stopped(*old(self))
                &&& (fits && !ok) ==> r == (
                    FetchStep::Failed(CoreError::PersistenceFailure),
                    None::<FetchProgress>,
                ) && *final(self) == spec_stopped(*old(self))
                &&& (fits && ok) ==> {
                    &&& final(self).store.leads@ == old(self).store.leads@
                        + crate::db::spec_stamped(items@, old(self).list.id)
                    &&& final(self).list == (List {
                        next_pointer: next,
                        leads_fetched: new_total,
                        ..old(self).list
                    })
                    &&& final(self).pool == old(self).pool
                    &&& final(self).requested == old(self).requested
                    &&& final(self).fetched_this_run == (old(self).fetched_this_run
                        + items@.len()) as u32
                    &&& r.1 matches Some(p) && p.records@ == crate::db::spec_stamped(
                        items@,
                        old(self).list.id,
                    ) && p.commit == (ListCommit {
                        list_id: old(self).list.id,
                        next_pointer: CursorUpdate::Replace(next),
                        leads_fetched: Some(new_total),
                        emails_fetched: None,
                    })
                    &&& (final(self).fetched_this_run >= old(self).requested || next is None) ==> {
                        &&& r.0 == FetchStep::Done
                        &&& final(self).state is Stopped
                    }
                    &&& (final(self).fetched_this_run < old(self).requested
                        && next is Some) ==> {
                        &&& final(self).state is Awaiting
                        &&& r.0 matches FetchStep::Request(q) && spec_is_request_for(
                            q,
                            final(self).list,
                            old(self).pool.keys[old(self).pool.active_index as int],
                        )
                    }
                }
            }),
    {
        match resp {
            FetchResponse::TransportError => {
                self.state = EngineState::Stopped;
                (FetchStep::Failed(CoreError::UpstreamFailure), None)
            },
            FetchResponse::HttpError => {
                self.state = EngineState::Stopped;
                (FetchStep::Failed(CoreError::UpstreamFailure), None)
            },
            FetchResponse::DecodeError => {
                self.state = EngineState::Stopped;
                (FetchStep::Failed(CoreError::DecodeFailure), None)
            },
            FetchResponse::RateLimited => {
                match self.pool.rotate() {
                    Ok(key) => (FetchStep::Request(LeadRequest::build(&self.list, &key)), None),
                    Err(_) => {
                        self.state = EngineState::Stopped;
                        (FetchStep::Failed(CoreError::AuthExhausted), None)
                    },
                }
            },
            FetchResponse::Page { next, items } => {
                let n_usize = items.len();
                if n_usize > (u32::MAX - self.list.leads_fetched) as usize || n_usize > (u32::MAX
                    - self.fetched_this_run) as usize {
                    self.state = EngineState::Stopped;
                    return (FetchStep::Failed(CoreError::DecodeFailure), None);
                }
                let n = n_usize as u32;
                let records = stamp_clone(&items, self.list.id);
                match self.store.insert_batch(self.list.id, items) {
                    Err(e) => {
                        self.state = EngineState::Stopped;
                        (FetchStep::Failed(e), None)
                    },
                    Ok(()) => {
                        let has_next = next.is_some();
                        let new_total = self.list.leads_fetched + n;
                        let commit = match self.list.update_meta(
                            CursorUpdate::Replace(next),
                            Some(new_total),
                            None,
                        ) {
                            Ok(c) => c,
                            Err(_) => vstd::pervasive::unreached(),
                        };
                        self.fetched_this_run = self.fetched_this_run + n;
                        let progress = FetchProgress { records, commit };
                        if self.fetched_this_run >= self.requested || !has_next {
                            self.state = EngineState::Stopped;
                            (FetchStep::Done, Some(progress))
                        } else {
                            let key = match self.pool.get() {
                                Ok(k) => k,
                                Err(_) => vstd::pervasive::unreached(),
                            };
                            (
                                FetchStep::Request(LeadRequest::build(&self.list, &key)),
                                Some(progress),
                            )
                        }
                    },
                }
            },
        }
    }
}

/// Resumption after a restart: an engine rebuilt from a collection that has
/// already fetched asks the upstream exactly for the page after the
/// persisted cursor — and when no cursor was persisted, the entry guard
/// fires and nothing is requested. Together with the store's uniqueness
/// invariant this is why a restart neither re-fetches committed pages nor
/// duplicates a stored external id.
pub proof fn lemma_restart_resumes_at_cursor(l: List, k: ApiKey, q: LeadRequest)
    requires
        l.leads_fetched > 0,
        spec_is_request_for(q, l, k),
    ensures
        q.next == l.next_pointer,
        l.next_pointer is None ==> spec_no_more(l),
{
}

} // verus!
