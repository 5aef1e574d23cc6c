//! The record store model, batch persistence with its duplicate policy, and
//! windowed reads over already-stored records.

use vstd::prelude::*;

use crate::leads::Lead;
use crate::list::List;
use crate::CoreError;

verus! {

/// A shape that can be laid out as a table: fixed column headers and one row
/// of cells per value. Pure display glue — the cells are built from the
/// fields, nothing is computed here.
pub trait Tablular {
    fn headers() -> Vec<&'static str>;

    fn row(&self) -> Vec<String>;
}

/// An explicit (limit, offset) window for paging over stored records,
/// distinct from the upstream cursor mechanism.
#[derive(Debug, Clone, Copy, PartialEq, Eq, Structural)]
pub struct PageConfig {
    pub rows: u32,
    pub offset: u32,
}

/// One window of results: the items, how many came back, how many rows the
/// whole result has, how many lie past this window, and the window that
/// would follow, if any.
#[derive(Debug)]
pub struct PagedResult<T> {
    pub items: Vec<T>,
    pub rows: u32,
    pub total_rows: u32,
    pub rows_left: u32,
    pub next: Option<PageConfig>,
}

/// Outcome of asking for a collection to work on.
#[derive(Debug)]
pub enum ListSelectedResult {
    Back,
    NoLists,
    ListSelected(List),
}

/// How many rows of a result of `total` rows lie past a window at `offset`
/// that returned `returned` rows.
pub open spec fn spec_rows_left(total: int, offset: int, returned: int) -> int {
    if total > offset + returned {
        total - offset - returned
    } else {
        0
    }
}

/// The records of collection `lid`, in storage order.
pub open spec fn spec_matching(s: Seq<Lead>, lid: u32) -> Seq<Lead> {
    s.filter(|l: Lead| l.list_id == lid)
}

/// The batch stamped with the collection it is being ingested into.
pub open spec fn spec_stamped(items: Seq<Lead>, lid: u32) -> Seq<Lead> {
    items.map_values(|l: Lead| l.spec_with_list(lid))
}

/// When a batch may be inserted for collection `lid` into a store holding
/// `s`: the incoming external ids are pairwise distinct and none is already
/// present in that collection. Otherwise the whole batch is refused — no
/// partial insert, no silent skip or merge.
pub open spec fn spec_batch_ok(s: Seq<Lead>, items: Seq<Lead>, lid: u32) -> bool {
    &&& forall|i: int, j: int| 0 <= i < j < items.len() ==> items[i].id@ != items[j].id@
    &&& forall|i: int, j: int|
        0 <= i < s.len() && 0 <= j < items.len() ==> !(s[i].list_id == lid && s[i].id@
            == items[j].id@)
}

/// No two records of one collection share an external id.
pub open spec fn spec_unique_ids(s: Seq<Lead>) -> bool {
    forall|i: int, j: int|
        0 <= i < j < s.len() ==> !(s[i].list_id == s[j].list_id && s[i].id@ == s[j].id@)
}

/// An admissible batch keeps the store duplicate-free: appending it, stamped
/// for its collection, preserves the uniqueness of external ids.
pub proof fn lemma_insert_preserves_uniqueness(s: Seq<Lead>, items: Seq<Lead>, lid: u32)
    requires
        spec_unique_ids(s),
        spec_batch_ok(s, items, lid),
    ensures
        spec_unique_ids(s + spec_stamped(items, lid)),
{
    let stamped = spec_stamped(items, lid);
    let s1 = s + stamped;
    assert forall|a: int, b: int| 0 <= a < b < s1.len() implies !(s1[a].list_id == s1[b].list_id
        && s1[a].id@ == s1[b].id@) by {
        if b >= s.len() {
            assert(s1[b] == stamped[b - s.len()]);
            assert(stamped[b - s.len()].id@ == items[b - s.len()].id@);
            assert(stamped[b - s.len()].list_id == lid);
            if a >= s.len() {
                assert(s1[a] == stamped[a - s.len()]);
                assert(items[a - s.len()].id@ != items[b - s.len()].id@);
            } else {
                assert(s1[a] == s[a]);
            }
        } else {
            assert(s1[a] == s[a] && s1[b] == s[b]);
        }
    }
}

/// The store after a verified address is recorded for an external id: every
/// record with that id carries it as its email, every other record is
/// untouched.
pub open spec fn spec_with_email(s: Seq<Lead>, lead_id: Seq<char>, email: String) -> Seq<Lead> {
    s.map_values(
        |l: Lead|
            if l.id@ == lead_id {
                Lead { email: Some(email), ..l }
            } else {
                l
            },
    )
}

/// The stored records. The well-formedness invariant is the resumability
/// guarantee on the data: within one collection no external id appears twice.
#[derive(Debug)]
pub struct LeadStore {
    pub leads: Vec<Lead>,
}

impl LeadStore {
    /// No two records of one collection share an external id.
    pub open spec fn wf(self) -> bool {
        spec_unique_ids(self.leads@)
    }

    pub fn new() -> (r: LeadStore)
        ensures
            r.wf(),
            r.leads@.len() == 0,
    {
        LeadStore { leads: Vec::new() }
    }

    fn batch_dup_free(items: &Vec<Lead>) -> (r: bool)
        ensures
            r == (forall|i: int, j: int|
                0 <= i < j < items@.len() ==> items@[i].id@ != items@[j].id@),
    {
        let n = items.len();
        let mut i: usize = 0;
        while i < n
            invariant
                n == items@.len(),
                i <= n,
                forall|a: int, b: int| 0 <= a < b < items@.len() && a < i ==> items@[a].id@
                    != items@[b].id@,
            decreases n - i,
        {
            let mut j: usize = i + 1;
            while j < n
                invariant
                    n == items@.len(),
                    i < j <= n,
                    forall|b: int| i < b < j ==> items@[i as int].id@ != items@[b].id@,
                decreases n - j,
            {
                if crate::strutil::str_eq(items[i].id.as_str(), items[j].id.as_str()) {
                    return false;
                }
                j += 1;
            }
            i += 1;
        }
        true
    }

    fn store_conflicts(&self, list_id: u32, items: &Vec<Lead>) -> (r: bool)
        ensures
            r == (exists|i: int, j: int|
                0 <= i < self.leads@.len() && 0 <= j < items@.len() && self.leads@[i].list_id
                    == list_id && self.leads@[i].id@ == items@[j].id@),
    {
        let mut i: usize = 0;
        while i < self.leads.len()
            invariant
                i <= self.leads@.len(),
                forall|a: int, b: int|
                    0 <= a < i && 0 <= b < items@.len() ==> !(self.leads@[a].list_id == list_id
                        && self.leads@[a].id@ == items@[b].id@),
            decreases self.leads@.len() - i,
        {
            if self.leads[i].list_id == list_id {
                let mut j: usize = 0;
                while j < items.len()
                    invariant
                        i < self.leads@.len(),
                        j <= items@.len(),
                        self.leads@[i as int].list_id == list_id,
                        forall|b: int| 0 <= b < j ==> self.leads@[i as int].id@ != items@[b].id@,
                    decreases items@.len() - j,
                {
                    if crate::strutil::str_eq(self.leads[i].id.as_str(), items[j].id.as_str()) {
                        return true;
                    }
                    j += 1;
                }
            }
            i += 1;
        }
        false
    }

    /// Records a verified address on every stored record carrying the given
    /// external id; everything else stays untouched.
    pub fn set_email(&mut self, lead_id: &String, email: &String)
        requires
            old(self).wf(),
        ensures
            final(self).wf(),
            final(self).leads@ == spec_with_email(old(self).leads@, lead_id@, *email),
    {
        let ghost s0 = self.leads@;
        let mut out: Vec<Lead> = Vec::new();
        let mut i: usize = 0;
        while i < self.leads.len()
            invariant
                s0 == self.leads@,
                i <= s0.len(),
                out@ =~= spec_with_email(s0.take(i as int), lead_id@, *email),
            decreases s0.len() - i,
        {
            let mut l = self.leads[i].clone();
            if crate::strutil::str_eq(l.id.as_str(), lead_id.as_str()) {
                l.update_email(email.clone());
            }
            out.push(l);
            proof {
                assert(spec_with_email(s0.take(i + 1), lead_id@, *email) =~= spec_with_email(
                    s0.take(i as int),
                    lead_id@,
                    *email,
                ).push(
                    if s0[i as int].id@ == lead_id@ {
                        Lead { email: Some(*email), ..s0[i as int] }
                    } else {
                        s0[i as int]
                    },
                ));
            }
            i += 1;
        }
        proof {
            assert(s0.take(s0.len() as int) =~= s0);
        }
        self.leads = out;
        proof {
            let s1 = self.leads@;
            assert forall|a: int, b: int| 0 <= a < b < s1.len() implies !(s1[a].list_id
                == s1[b].list_id && s1[a].id@ == s1[b].id@) by {
                assert(s1[a].id@ == s0[a].id@ && s1[a].list_id == s0[a].list_id);
                assert(s1[b].id@ == s0[b].id@ && s1[b].list_id == s0[b].list_id);
            }
        }
    }

    /// Reads one window of the records of collection `list_id`, in storage
    /// order: the items from `offset` on, at most `rows` of them, together
    /// with how many records of the collection lie past the window and the
    /// window that would follow. Anchoring `offset` past already-processed
    /// records makes re-invocation skip them.
    pub fn read_window(&self, list_id: u32, cfg: &PageConfig) -> (r: PagedResult<Lead>)
        requires
            self.leads@.len() <= u32::MAX,
        ensures
            ({
                let all = spec_matching(self.leads@, list_id);
                let lo = if cfg.offset <= all.len() {
                    cfg.offset as int
                } else {
                    all.len() as int
                };
                let hi = if cfg.offset + cfg.rows <= all.len() {
                    cfg.offset + cfg.rows
                } else {
                    all.len() as int
                };
                &&& r.total_rows == all.len()
                &&& r.items@ == all.subrange(lo, hi)
                &&& r.rows == hi - lo
                &&& r.rows_left == spec_rows_left(all.len() as int, cfg.offset as int, hi - lo)
                &&& (r.rows_left == 0 ==> r.next is None)
                &&& (r.rows_left > 0 ==> r.next == Some(
                    PageConfig {
                        rows: if cfg.rows <= r.rows_left {
                            cfg.rows
                        } else {
                            r.rows_left
                        },
                        offset: (all.len() - r.rows_left) as u32,
                    },
                ))
            }),
    {
        let mut all: Vec<Lead> = Vec::new();
        let mut i: usize = 0;
        while i < self.leads.len()
            invariant
                i <= self.leads@.len(),
                all@ == spec_matching(self.leads@.take(i as int), list_id),
                all@.len() <= i,
            decreases self.leads@.len() - i,
        {
            proof {
                reveal(Seq::filter);
                assert(self.leads@.take(i + 1).drop_last() == self.leads@.take(i as int));
                assert(self.leads@.take(i + 1).last() == self.leads@[i as int]);
            }
            if self.leads[i].list_id == list_id {
                all.push(self.leads[i].clone());
            }
            i += 1;
        }
        proof {
            assert(self.leads@.take(self.leads@.len() as int) =~= self.leads@);
        }
        let total: u32 = all.len() as u32;
        let lo: usize = if (cfg.offset as usize) <= all.len() {
            cfg.offset as usize
        } else {
            all.len()
        };
        let end64: u64 = cfg.offset as u64 + cfg.rows as u64;
        let hi: usize = if end64 <= all.len() as u64 {
            end64 as usize
        } else {
            all.len()
        };
        let mut items: Vec<Lead> = Vec::new();
        let mut k: usize = lo;
        while k < hi
            invariant
                lo <= k <= hi <= all@.len(),
                items@ == all@.subrange(lo as int, k as int),
            decreases hi - k,
        {
            items.push(all[k].clone());
            proof {
                assert(items@ =~= all@.subrange(lo as int, k + 1));
            }
            k += 1;
        }
        let rows: u32 = items.len() as u32;
        let consumed64: u64 = cfg.offset as u64 + rows as u64;
        let rows_left: u32 = if (total as u64) > consumed64 {
            (total as u64 - consumed64) as u32
        } else {
            0
        };
        let next = if rows_left > 0 {
            Some(
                PageConfig {
                    rows: if cfg.rows <= rows_left {
                        cfg.rows
                    } else {
                        rows_left
                    },
                    offset: total - rows_left,
                },
            )
        } else {
            None
        };
        PagedResult { items, rows, total_rows: total, rows_left, next }
    }

    /// Inserts a batch of records for collection `list_id`, stamping each
    /// with that collection. A batch that would create a duplicate external
    /// id within the collection is refused whole: the store is unchanged and
    /// the insert reports `PersistenceFailure`.
    pub fn insert_batch(&mut self, list_id: u32, items: Vec<Lead>) -> (r: Result<(), CoreError>)
        requires
            old(self).wf(),
        ensures
            final(self).wf(),
            spec_batch_ok(old(self).leads@, items@, list_id) ==> {
                &&& r == Ok::<(), CoreError>(())
                &&& final(self).leads@ == old(self).leads@ + spec_stamped(items@, list_id)
            },
            !spec_batch_ok(old(self).leads@, items@, list_id) ==> {
                &&& r == Err::<(), CoreError>(CoreError::PersistenceFailure)
                &&& *final(self) == *old(self)
            },
    {
        if !Self::batch_dup_free(&items) {
            return Err(CoreError::PersistenceFailure);
        }
        if self.store_conflicts(list_id, &items) {
            return Err(CoreError::PersistenceFailure);
        }
        let ghost s0 = self.leads@;
        let mut i: usize = 0;
        while i < items.len()
            invariant
                i <= items@.len(),
                self.leads@ == s0 + spec_stamped(items@.take(i as int), list_id),
            decreases items@.len() - i,
        {
            let mut lead = items[i].clone();
            lead.list_id = list_id;
            self.leads.push(lead);
            proof {
                assert(spec_stamped(items@.take(i + 1), list_id) =~= spec_stamped(
                    items@.take(i as int),
                    list_id,
                ).push(items@[i as int].spec_with_list(list_id)));
                assert(self.leads@ =~= s0 + spec_stamped(items@.take(i + 1), list_id));
            }
            i += 1;
        }
        proof {
            assert(items@.take(items@.len() as int) =~= items@);
            lemma_insert_preserves_uniqueness(s0, items@, list_id);
        }
        Ok(())
    }
}

} // verus!
