//! A model of the relational store, and the transaction coordinator's
//! contract: one import is a single atomic unit of work. Either every write
//! step succeeds and the store gains exactly one new namespace with all its
//! rows plus one feed registry row, or the store is exactly as it was — the
//! namespace does not exist and no entity table of the run holds any row.

use vstd::prelude::*;

use crate::import::ImportBatch;
use crate::model::FeedInfo;
use crate::rows::{CalendarDateRow, CalendarRow, RouteRow, ShapePointRow, StopRow, StopTimeRow,
    TripRow};
use crate::text::str_eq;

verus! {

/// The number of write steps in one import: namespace creation, the feed
/// registry row, one bulk load per entity kind, index construction and
/// materialized-view construction.
pub const IMPORT_WRITE_STEPS: usize = 11;

/// One provisioned namespace with its entity tables. Tables of absent
/// optional sections are simply empty. The index and view flags stand for
/// the post-load builder's work, done only after every row is written.
pub struct Namespace {
    pub name: String,
    pub route_rows: Vec<RouteRow>,
    pub trip_rows: Vec<TripRow>,
    pub stop_rows: Vec<StopRow>,
    pub stop_time_rows: Vec<StopTimeRow>,
    pub calendar_rows: Vec<CalendarRow>,
    pub calendar_date_rows: Vec<CalendarDateRow>,
    pub shape_rows: Vec<ShapePointRow>,
    pub indices_built: bool,
    pub views_built: bool,
}

/// The shared store: the namespaces of all imports so far, and the global
/// feed registry through which the serving layer discovers them.
pub struct Store {
    pub namespaces: Vec<Namespace>,
    pub feeds: Vec<FeedInfo>,
}

/// Why an import failed: its namespace name was already taken, or a write
/// step failed in the store.
#[derive(Debug, Clone, Copy, PartialEq, Eq)]
pub enum ImportError {
    NamespaceExists,
    StepFailed(usize),
}

/// The rows of an optional section; empty when the section was absent.
pub open spec fn section_rows<T>(o: Option<Vec<T>>) -> Seq<T> {
    match o {
        Some(v) => v@,
        None => Seq::empty(),
    }
}

/// The namespace holds exactly the batch: its name, every row of every
/// entity table in order, and the post-load work done.
pub open spec fn namespace_holds_batch(ns: Namespace, batch: ImportBatch) -> bool {
    &&& ns.name@ == batch.namespace@
    &&& ns.route_rows@ == batch.route_rows@
    &&& ns.trip_rows@ == batch.trip_rows@
    &&& ns.stop_rows@ == batch.stop_rows@
    &&& ns.stop_time_rows@ == batch.stop_time_rows@
    &&& ns.calendar_rows@ == section_rows(batch.calendar_rows)
    &&& ns.calendar_date_rows@ == section_rows(batch.calendar_date_rows)
    &&& ns.shape_rows@ == section_rows(batch.shape_rows)
    &&& ns.indices_built
    &&& ns.views_built
}

/// The outcome one import must have: a taken name fails the namespace
/// creation; otherwise a fault at any of the write steps fails the run;
/// otherwise the whole unit of work commits.
pub open spec fn spec_import_outcome(conflict: bool, fault_at: Option<usize>) -> Result<
    (),
    ImportError,
> {
    if conflict {
        Err(ImportError::NamespaceExists)
    } else {
        match fault_at {
            Some(k) => if k < IMPORT_WRITE_STEPS {
                Err(ImportError::StepFailed(k))
            } else {
                Ok(())
            },
            None => Ok(()),
        }
    }
}

impl Store {
    /// An empty store: no namespaces, no registry rows.
    pub fn new() -> (s: Store)
        ensures
            s.namespaces@ == Seq::<Namespace>::empty(),
            s.feeds@ == Seq::<FeedInfo>::empty(),
    {
        Store { namespaces: Vec::new(), feeds: Vec::new() }
    }

    /// A namespace of this name exists in the store.
    pub open spec fn spec_has_namespace(&self, name: Seq<char>) -> bool {
        exists|i: int| 0 <= i < self.namespaces@.len() && self.namespaces@[i].name@ == name
    }

    /// Looks the name up among the provisioned namespaces.
    pub fn has_namespace(&self, name: &str) -> (r: bool)
        ensures
            r == self.spec_has_namespace(name@),
    {
        let n = self.namespaces.len();
        let mut i: usize = 0;
        while i < n
            invariant
                n == self.namespaces@.len(),
                i <= n,
                forall|j: int| 0 <= j < i ==> self.namespaces@[j].name@ != name@,
            decreases n - i,
        {
            if str_eq(self.namespaces[i].name.as_str(), name) {
                return true;
            }
            i += 1;
        }
        false
    }

    /// Applies one import as a single atomic unit of work. `fault_at` models
    /// a store failure (connection lost, statement refused) at the given
    /// write step; `None` means every step succeeds. Commit happens only
    /// after every step has succeeded: on any failure — at whichever step —
    /// the store is exactly as before, so the namespace does not exist and
    /// no entity table of this run holds a single row. There is no partial
    /// success and no retry.
    pub fn apply_import(&mut self, batch: ImportBatch, fault_at: Option<usize>) -> (r: Result<
        (),
        ImportError,
    >)
        ensures
            r == spec_import_outcome(
                old(self).spec_has_namespace(batch.namespace@),
                fault_at,
            ),
            r is Err ==> *final(self) == *old(self),
            r is Ok ==> final(self).namespaces@.len() == old(self).namespaces@.len() + 1,
            r is Ok ==> forall|i: int|
                0 <= i < old(self).namespaces@.len() ==> final(self).namespaces@[i] == old(
                    self,
                ).namespaces@[i],
            r is Ok ==> namespace_holds_batch(final(self).namespaces@.last(), batch),
            r is Ok ==> final(self).feeds@ == old(self).feeds@.push(batch.feed_row),
    {
        if self.has_namespace(batch.namespace.as_str()) {
            return Err(ImportError::NamespaceExists);
        }
        if let Some(k) = fault_at {
            if k < IMPORT_WRITE_STEPS {
                return Err(ImportError::StepFailed(k));
            }
        }
        let ImportBatch {
            namespace,
            feed_row,
            route_rows,
            trip_rows,
            stop_rows,
            stop_time_rows,
            calendar_rows,
            calendar_date_rows,
            shape_rows,
        } = batch;
        let ns = Namespace {
            name: namespace,
            route_rows,
            trip_rows,
            stop_rows,
            stop_time_rows,
            calendar_rows: match calendar_rows {
                Some(v) => v,
                None => Vec::new(),
            },
            calendar_date_rows: match calendar_date_rows {
                Some(v) => v,
                None => Vec::new(),
            },
            shape_rows: match shape_rows {
                Some(v) => v,
                None => Vec::new(),
            },
            indices_built: true,
            views_built: true,
        };
        proof {
            assert(namespace_holds_batch(ns, batch)) by {
                if batch.calendar_rows is None {
                    assert(ns.calendar_rows@ =~= Seq::<CalendarRow>::empty());
                }
                if batch.calendar_date_rows is None {
                    assert(ns.calendar_date_rows@ =~= Seq::<CalendarDateRow>::empty());
                }
                if batch.shape_rows is None {
                    assert(ns.shape_rows@ =~= Seq::<ShapePointRow>::empty());
                }
            }
        }
        self.namespaces.push(ns);
        self.feeds.push(feed_row);
        Ok(())
    }
}

} // verus!
