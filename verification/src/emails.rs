//! The address-candidate verification loop: deriving a bare domain from a
//! record's website, generating the three candidate addresses, and the
//! per-record state machine that queries them under the rotation pool.

use vstd::prelude::*;

use crate::apikey::ApiKeyRotation;
use crate::db::{LeadStore, PageConfig};
use crate::leads::{EngineState, Lead};
use crate::list::{CursorUpdate, List, ListCommit};
use crate::strutil::{spec_starts_with, starts_with, str_eq};
use crate::CoreError;

verus! {

/// `s` without a leading "www." prefix.
pub open spec fn spec_strip_www(s: Seq<char>) -> Seq<char> {
    if spec_starts_with(s, "www."@) {
        s.skip(4)
    } else {
        s
    }
}

/// The bare domain of a website string: a leading scheme is stripped, and —
/// only behind a scheme — an optional "www." prefix with it. A string with
/// no scheme is left as it is.
pub open spec fn spec_bare_domain(s: Seq<char>) -> Seq<char> {
    if spec_starts_with(s, "http://"@) {
        spec_strip_www(s.skip(7))
    } else if spec_starts_with(s, "https://"@) {
        spec_strip_www(s.skip(8))
    } else {
        s
    }
}

/// The bare domain, as `spec_bare_domain` says.
pub fn bare_domain(s: &str) -> (r: &str)
    ensures
        r@ == spec_bare_domain(s@),
{
    proof {
        reveal_strlit("http://");
        reveal_strlit("https://");
        reveal_strlit("www.");
    }
    let len = s.unicode_len();
    let had_scheme: bool;
    let rest: &str = if starts_with(s, "http://") {
        had_scheme = true;
        let r = s.substring_char(7, len);
        proof {
            assert(s@.subrange(7, len as int) =~= s@.skip(7));
        }
        r
    } else if starts_with(s, "https://") {
        had_scheme = true;
        let r = s.substring_char(8, len);
        proof {
            assert(s@.subrange(8, len as int) =~= s@.skip(8));
        }
        r
    } else {
        had_scheme = false;
        proof {
            assert(s@.subrange(0, len as int) =~= s@);
        }
        s.substring_char(0, len)
    };
    if had_scheme && starts_with(rest, "www.") {
        let rlen = rest.unicode_len();
        let out = rest.substring_char(4, rlen);
        proof {
            assert(rest@.subrange(4, rlen as int) =~= rest@.skip(4));
        }
        out
    } else {
        rest
    }
}

/// The lowercase form of a string, named: the result of case folding depends
/// on the characters alone.
pub uninterp spec fn lower_of(s: Seq<char>) -> Seq<char>;

/// Relies on str::to_lowercase: returns the lowercase equivalent of the
/// string, a pure function of its characters.
#[verifier::external_body]
fn lowercase(s: &str) -> (r: String)
    ensures
        r@ == lower_of(s@),
{
    s.to_lowercase()
}

/// The three candidate addresses for a record, in their fixed order:
/// `last@domain`, `first@domain`, and the first name's initial glued to the
/// last name at the domain. The names are expected already normalized.
pub fn candidate_addresses(first: &str, last: &str, domain: &str) -> (r: Vec<String>)
    requires
        first@.len() >= 1,
    ensures
        r@.len() == 3,
        r@[0]@ == last@ + "@"@ + domain@,
        r@[1]@ == first@ + "@"@ + domain@,
        r@[2]@ == seq![first@[0]] + last@ + "@"@ + domain@,
{
    let mut c0 = last.to_owned();
    c0.append("@");
    c0.append(domain);
    let mut c1 = first.to_owned();
    c1.append("@");
    c1.append(domain);
    let initial = first.substring_char(0, 1);
    proof {
        assert(initial@ =~= seq![first@[0]]);
    }
    let mut c2 = initial.to_owned();
    c2.append(last);
    c2.append("@");
    c2.append(domain);
    let mut out: Vec<String> = Vec::new();
    out.push(c0);
    out.push(c1);
    out.push(c2);
    out
}

/// Whether a verification status confirms the address: only "valid" and
/// "accept_all" count.
pub open spec fn spec_confirms(s: Seq<char>) -> bool {
    s == "valid"@ || s == "accept_all"@
}

pub fn confirms(status: &str) -> (r: bool)
    ensures
        r == spec_confirms(status@),
{
    str_eq(status, "valid") || str_eq(status, "accept_all")
}

/// What the application reports back for one candidate-verification request.
#[derive(Debug)]
pub enum VerifyEvent {
    TransportError,
    RateLimited,
    HttpError,
    DecodeError,
    Status(String),
}

/// What the engine asks next for this record: query a candidate address,
/// accept the confirmed one, give up after all three (a defined non-error
/// outcome), or abort the whole verification run with a failure.
#[derive(Debug)]
pub enum VerifyStep {
    Query(String),
    Confirmed(String),
    NoMatch,
    Failed(CoreError),
}

/// The per-record candidate loop. The application issues the queries the
/// engine asks for, feeding every outcome back; the engine walks the fixed
/// candidate order, retries the same candidate after a rotation, and stops
/// at the first confirmation.
#[derive(Debug)]
pub struct EmailEngine {
    pub candidates: Vec<String>,
    pub idx: usize,
    pub state: EngineState,
}

impl EmailEngine {
    pub open spec fn wf(self) -> bool {
        &&& self.candidates@.len() == 3
        &&& (self.state is Awaiting ==> self.idx < 3)
    }

    /// The candidate the application should query now.
    pub fn current_candidate(&self) -> (r: String)
        requires
            self.wf(),
            self.state is Awaiting,
        ensures
            r == self.candidates@[self.idx as int],
    {
        self.candidates[self.idx].clone()
    }

    /// Feeds the outcome of the pending candidate query back in.
    ///
    /// Rate limiting rotates the pool and retries the same candidate, or
    /// aborts with `AuthExhausted` when no credential is left. Any other
    /// failure aborts the record's run and is propagated. A confirming
    /// status accepts the current candidate at once — later candidates are
    /// never queried; a non-confirming one moves to the next candidate, and
    /// past the last the engine reports no match.
    pub fn on_event(&mut self, pool: &mut ApiKeyRotation, ev: VerifyEvent) -> (r: VerifyStep)
        requires
            old(self).wf(),
            old(self).state is Awaiting,
            old(pool).wf(),
        ensures
            final(self).wf(),
            final(pool).wf(),
            final(pool).keys == old(pool).keys,
            final(self).candidates == old(self).candidates,
            (ev is TransportError || ev is HttpError) ==> {
                &&& r == VerifyStep::Failed(CoreError::UpstreamFailure)
                &&& *final(self) == (EmailEngine { state: EngineState::Stopped, ..*old(self) })
                &&& *final(pool) == *old(pool)
            },
            ev is DecodeError ==> {
                &&& r == VerifyStep::Failed(CoreError::DecodeFailure)
                &&& *final(self) == (EmailEngine { state: EngineState::Stopped, ..*old(self) })
                &&& *final(pool) == *old(pool)
            },
            ev is RateLimited && old(pool).spec_can_rotate() ==> {
                &&& *final(pool) == old(pool).spec_rotated()
                &&& *final(self) == *old(self)
                &&& r matches VerifyStep::Query(c) && c == old(self).candidates@[old(self).idx as int]
            },
            ev is RateLimited && !old(pool).spec_can_rotate() ==> {
                &&& r == VerifyStep::Failed(CoreError::AuthExhausted)
                &&& *final(self) == (EmailEngine { state: EngineState::Stopped, ..*old(self) })
                &&& *final(pool) == *old(pool)
            },
            ev matches VerifyEvent::Status(s) ==> {
                &&& *final(pool) == *old(pool)
                &&& spec_confirms(s@) ==> {
                    &&& r matches VerifyStep::Confirmed(c) && c == old(self).candidates@[old(
                        self,
                    ).idx as int]
                    &&& *final(self) == (EmailEngine { state: EngineState::Stopped, ..*old(self) })
                }
                &&& !spec_confirms(s@) && old(self).idx + 1 < 3 ==> {
                    &&& *final(self) == (EmailEngine {
                        idx: (old(self).idx + 1) as usize,
                        ..*old(self)
                    })
                    &&& r matches VerifyStep::Query(c) && c == old(self).candidates@[old(
                        self,
                    ).idx + 1]
                }
                &&& !spec_confirms(s@) && old(self).idx + 1 == 3 ==> {
                    &&& r == VerifyStep::NoMatch
                    &&& *final(self) == (EmailEngine { state: EngineState::Stopped, ..*old(self) })
                }
            },
    {
        match ev {
            VerifyEvent::TransportError => {
                self.state = EngineState::Stopped;
                VerifyStep::Failed(CoreError::UpstreamFailure)
            },
            VerifyEvent::HttpError => {
                self.state = EngineState::Stopped;
                VerifyStep::Failed(CoreError::UpstreamFailure)
            },
            VerifyEvent::DecodeError => {
                self.state = EngineState::Stopped;
                VerifyStep::Failed(CoreError::DecodeFailure)
            },
            VerifyEvent::RateLimited => {
                match pool.rotate() {
                    Ok(_) => VerifyStep::Query(self.candidates[self.idx].clone()),
                    Err(_) => {
                        self.state = EngineState::Stopped;
                        VerifyStep::Failed(CoreError::AuthExhausted)
                    },
                }
            },
            VerifyEvent::Status(s) => {
                if confirms(s.as_str()) {
                    self.state = EngineState::Stopped;
                    VerifyStep::Confirmed(self.candidates[self.idx].clone())
                } else if self.idx + 1 < 3 {
                    self.idx += 1;
                    VerifyStep::Query(self.candidates[self.idx].clone())
                } else {
                    self.state = EngineState::Stopped;
                    VerifyStep::NoMatch
                }
            },
        }
    }
}

/// Entry check of a verification run.
#[derive(Debug, Clone, Copy, PartialEq, Eq, Structural)]
pub enum EmailsEntry {
    NoLeads,
    AllDone,
    Ready,
}

/// Whether a verification run can begin: there must be fetched records, and
/// some of them must still be unverified.
pub fn emails_entry(list: &List) -> (r: EmailsEntry)
    requires
        list.wf(),
    ensures
        list.leads_fetched == 0 ==> r == EmailsEntry::NoLeads,
        list.leads_fetched > 0 && list.emails_fetched == list.leads_fetched ==> r
            == EmailsEntry::AllDone,
        list.emails_fetched < list.leads_fetched ==> r == EmailsEntry::Ready,
{
    if list.leads_fetched == 0 {
        EmailsEntry::NoLeads
    } else if list.emails_fetched == list.leads_fetched {
        EmailsEntry::AllDone
    } else {
        EmailsEntry::Ready
    }
}

/// How many records still await verification — the most a run may ask for.
pub fn max_fetchable(list: &List) -> (r: u32)
    requires
        list.wf(),
    ensures
        r == list.leads_fetched - list.emails_fetched,
{
    list.leads_fetched - list.emails_fetched
}

/// The read window of a verification run: `count` records, anchored at the
/// verified counter so that re-invocation never re-scans verified records.
pub fn emails_window(list: &List, count: u32) -> (r: PageConfig)
    ensures
        r == (PageConfig { rows: count, offset: list.emails_fetched }),
{
    PageConfig { rows: count, offset: list.emails_fetched }
}

/// How a record enters the candidate loop: skipped — treated as processed,
/// not verified — or verified through an engine primed with its candidates.
#[derive(Debug)]
pub enum RecordStart {
    Skip,
    Verify(EmailEngine),
}

/// Begins the verification of one record. A record with no website is
/// skipped, as is one whose first name normalizes to nothing — no candidate
/// could be formed from it. Otherwise the engine holds the three candidates
/// built from the lower-cased names and the website's bare domain, in their
/// fixed order, ready to query the first.
pub fn start_record(lead: &Lead) -> (r: RecordStart)
    ensures
        lead.org_website is None ==> r == RecordStart::Skip,
        lead.org_website matches Some(w) ==> ({
            let lf = lower_of(lead.first_name@);
            let ll = lower_of(lead.last_name@);
            let d = spec_bare_domain(w@);
            &&& lf.len() == 0 ==> r == RecordStart::Skip
            &&& lf.len() >= 1 ==> {
                &&& r matches RecordStart::Verify(e)
                &&& e.wf()
                &&& e.state is Awaiting
                &&& e.idx == 0
                &&& e.candidates@[0]@ == ll + "@"@ + d
                &&& e.candidates@[1]@ == lf + "@"@ + d
                &&& e.candidates@[2]@ == seq![lf[0]] + ll + "@"@ + d
            }
        }),
{
    match &lead.org_website {
        None => RecordStart::Skip,
        Some(w) => {
            let lf = lowercase(lead.first_name.as_str());
            let ll = lowercase(lead.last_name.as_str());
            if lf.unicode_len() == 0 {
                return RecordStart::Skip;
            }
            let d = bare_domain(w.as_str());
            let candidates = candidate_addresses(lf.as_str(), ll.as_str(), d);
            RecordStart::Verify(EmailEngine { candidates, idx: 0, state: EngineState::Awaiting })
        },
    }
}

/// How one record's processing ended: with a confirmed address, with all
/// candidates exhausted, or skipped for lack of a website.
#[derive(Debug)]
pub enum RecordOutcome {
    Confirmed(String),
    NoMatch,
    SkippedNoWebsite,
}

/// Advances the verified counter by one and hands back the checkpoint to
/// write; the counter advance is what makes a crash lose at most one record.
pub fn increment_list_emails_count(list: &mut List) -> (r: ListCommit)
    requires
        old(list).wf(),
        old(list).emails_fetched < old(list).leads_fetched,
    ensures
        final(list).wf(),
        *final(list) == (List {
            emails_fetched: (old(list).emails_fetched + 1) as u32,
            ..*old(list)
        }),
        r == (ListCommit {
            list_id: old(list).id,
            next_pointer: CursorUpdate::Keep,
            leads_fetched: None,
            emails_fetched: Some((old(list).emails_fetched + 1) as u32),
        }),
{
    let new_count = list.emails_fetched + 1;
    match list.update_meta(CursorUpdate::Keep, None, Some(new_count)) {
        Ok(c) => c,
        Err(_) => vstd::pervasive::unreached(),
    }
}

/// Applies the outcome of one fully processed record: a confirmed address is
/// recorded on the stored record, and — whatever the outcome was — the
/// verified counter advances by exactly one. This unconditional advance is
/// the forward-progress guarantee that prevents reprocessing; a failed
/// record never reaches this point, so its slot is retried on the next run.
pub fn apply_record_outcome(
    list: &mut List,
    store: &mut LeadStore,
    lead_id: &String,
    outcome: &RecordOutcome,
) -> (r: ListCommit)
    requires
        old(list).wf(),
        old(store).wf(),
        old(list).emails_fetched < old(list).leads_fetched,
    ensures
        final(list).wf(),
        final(store).wf(),
        *final(list) == (List {
            emails_fetched: (old(list).emails_fetched + 1) as u32,
            ..*old(list)
        }),
        r == (ListCommit {
            list_id: old(list).id,
            next_pointer: CursorUpdate::Keep,
            leads_fetched: None,
            emails_fetched: Some((old(list).emails_fetched + 1) as u32),
        }),
        outcome matches RecordOutcome::Confirmed(e) ==> final(store).leads@
            == crate::db::spec_with_email(old(store).leads@, lead_id@, *e),
        !(outcome is Confirmed) ==> *final(store) == *old(store),
{
    match outcome {
        RecordOutcome::Confirmed(e) => store.set_email(lead_id, e),
        RecordOutcome::NoMatch => {},
        RecordOutcome::SkippedNoWebsite => {},
    }
    increment_list_emails_count(list)
}

} // verus!
