use vstd::prelude::*;

use crate::admission::{admit_spec, release_spec, AdmissionController, Verdict};
use crate::error::StoreError;
use crate::store::{lookup, put_table, MemStore, Table};

verus! {

/// The protocol-level class of a failed request.
#[derive(Debug, Clone, Copy, PartialEq, Eq, Structural)]
pub enum Code {
    /// A store request whose key is taken (and any other store failure).
    AlreadyExists,
    /// A retrieve request whose key has no record (and any other lookup failure).
    NotFound,
}

/// A failed request as the caller sees it.
#[derive(Debug)]
pub struct RpcError {
    pub code: Code,
    pub message: String,
}

/// The outcome of an insert statement: success, or the text of its failure.
/// Every failure counts as a uniqueness violation.
pub fn insert_outcome(executed: Result<(), String>) -> (r: Result<(), StoreError>)
    ensures
        match executed {
            Ok(()) => r is Ok,
            Err(m) => r is Err && r->Err_0 is KeyAlreadyExists && r->Err_0.text() == m@,
        },
{
    match executed {
        Ok(()) => Ok(()),
        Err(m) => Err(StoreError::KeyAlreadyExists(m)),
    }
}

/// The outcome of a lookup that fetches one row: its columns as text, or the
/// text of its failure. The value is the first column; a failed query or a row
/// without columns means the key was not found.
pub fn row_outcome(fetched: Result<Vec<String>, String>) -> (r: Result<String, StoreError>)
    ensures
        match fetched {
            Ok(cols) => if cols@.len() > 0 {
                r is Ok && r->Ok_0@ == cols@[0]@
            } else {
                r is Err && r->Err_0 is KeyNotFound && r->Err_0.text() == "Key not found"@
            },
            Err(m) => r is Err && r->Err_0 is KeyNotFound && r->Err_0.text() == m@,
        },
{
    match fetched {
        Ok(cols) => {
            if cols.len() > 0 {
                Ok(cols[0].clone())
            } else {
                Err(StoreError::KeyNotFound("Key not found".to_owned()))
            }
        },
        Err(m) => Err(StoreError::KeyNotFound(m)),
    }
}

/// The reply to a store request: an empty acknowledgement, or a conflict that
/// carries the store's message, whatever the store failure was.
pub fn store_reply(r: Result<(), StoreError>) -> (o: Result<(), RpcError>)
    ensures
        match r {
            Ok(()) => o is Ok,
            Err(e) => o is Err && o->Err_0.code is AlreadyExists && o->Err_0.message@ == e.text(),
        },
{
    match r {
        Ok(()) => Ok(()),
        Err(e) => Err(RpcError { code: Code::AlreadyExists, message: e.message() }),
    }
}

/// The reply to a retrieve request: the value, or not-found carrying the
/// store's message, whatever the store failure was.
pub fn retrieve_reply(r: Result<String, StoreError>) -> (o: Result<String, RpcError>)
    ensures
        match r {
            Ok(v) => o is Ok && o->Ok_0@ == v@,
            Err(e) => o is Err && o->Err_0.code is NotFound && o->Err_0.message@ == e.text(),
        },
{
    match r {
        Ok(v) => Ok(v),
        Err(e) => Err(RpcError { code: Code::NotFound, message: e.message() }),
    }
}

/// A request handled, or held back by admission control.
pub enum Handled<T> {
    /// Admitted and served.
    Done(Result<T, RpcError>),
    /// Not admitted; the verdict says how long to wait before trying again.
    Deferred(Verdict),
}

/// A service over an in-memory store: each request passes admission control,
/// then reaches the store, and its outcome is mapped to a reply.
pub struct MemService {
    admission: AdmissionController,
    store: MemStore,
}

impl MemService {
    pub closed spec fn wf(&self) -> bool {
        self.admission.wf() && self.store.wf()
    }

    pub closed spec fn table(&self) -> Table {
        self.store@
    }

    pub closed spec fn controller(&self) -> AdmissionController {
        self.admission
    }

    pub fn new(admission: AdmissionController) -> (s: MemService)
        requires
            admission.wf(),
        ensures
            s.wf(),
            s.table() == Table::empty(),
            s.controller() == admission,
    {
        MemService { admission, store: MemStore::new() }
    }

    /// The store request at time `now`.
    pub fn store(&mut self, now: u64, key: &str, value: &str) -> (h: Handled<()>)
        requires
            old(self).wf(),
        ensures
            final(self).wf(),
            match h {
                Handled::Deferred(v) => {
                    &&& !(v is Granted)
                    &&& admit_spec(old(self).controller(), final(self).controller(), now as nat, v)
                    &&& final(self).table() == old(self).table()
                },
                Handled::Done(r) => {
                    &&& exists|mid: AdmissionController|
                        admit_spec(old(self).controller(), mid, now as nat, Verdict::Granted)
                            && release_spec(mid, final(self).controller())
                    &&& final(self).table() == put_table(old(self).table(), key@, value@)
                    &&& r is Ok <==> !old(self).table().contains_key(key@)
                    &&& r is Err ==> r->Err_0.code is AlreadyExists
                },
            },
    {
        let v = self.admission.try_admit(now);
        match v {
            Verdict::Granted => {
                let ghost mid = self.admission;
                let r = self.store.put(key, value);
                self.admission.release();
                assert(admit_spec(old(self).controller(), mid, now as nat, Verdict::Granted));
                Handled::Done(store_reply(r))
            },
            _ => Handled::Deferred(v),
        }
    }

    /// The retrieve request at time `now`.
    pub fn retrieve(&mut self, now: u64, key: &str) -> (h: Handled<String>)
        requires
            old(self).wf(),
        ensures
            final(self).wf(),
            final(self).table() == old(self).table(),
            match h {
                Handled::Deferred(v) => {
                    &&& !(v is Granted)
                    &&& admit_spec(old(self).controller(), final(self).controller(), now as nat, v)
                },
                Handled::Done(r) => {
                    &&& exists|mid: AdmissionController|
                        admit_spec(old(self).controller(), mid, now as nat, Verdict::Granted)
                            && release_spec(mid, final(self).controller())
                    &&& match r {
                        Ok(v) => lookup(old(self).table(), key@) == Some(v@),
                        Err(e) => lookup(old(self).table(), key@) is None && e.code is NotFound,
                    }
                },
            },
    {
        let v = self.admission.try_admit(now);
        match v {
            Verdict::Granted => {
                let ghost mid = self.admission;
                let r = self.store.get(key);
                self.admission.release();
                assert(admit_spec(old(self).controller(), mid, now as nat, Verdict::Granted));
                Handled::Done(retrieve_reply(r))
            },
            _ => Handled::Deferred(v),
        }
    }
}

} // verus!
