use vstd::prelude::*;
use crate::record::{is_json_object, RecordError, Record};
use crate::store::Store;

verus! {

/// The key of the user record's slot.
const USER_FILE: &'static str = "user.json";

/// The key of the user record's slot, as text.
pub closed spec fn record_key() -> Seq<char> {
    USER_FILE@
}

/// What reading the user record from a store with contents `m` gives: nothing
/// for an empty slot, the slot's text where it is a JSON object, a decode
/// failure otherwise.
pub open spec fn get_outcome(m: Map<Seq<char>, Seq<char>>) -> Result<Option<Seq<char>>, ()> {
    if !m.contains_key(record_key()) {
        Ok(None)
    } else if is_json_object(m[record_key()]) {
        Ok(Some(m[record_key()]))
    } else {
        Err(())
    }
}

/// The contents of a store with contents `m` after the user record `r` is set.
pub open spec fn after_set(m: Map<Seq<char>, Seq<char>>, r: Seq<char>) -> Map<Seq<char>, Seq<char>> {
    m.insert(record_key(), r)
}

/// The contents of a store with contents `m` after the user record is deleted.
pub open spec fn after_delete(m: Map<Seq<char>, Seq<char>>) -> Map<Seq<char>, Seq<char>> {
    m.remove(record_key())
}

/// The result of `get`, with each record taken as its text.
pub open spec fn outcome_of(r: Result<Option<Record>, RecordError>) -> Result<Option<Seq<char>>, ()> {
    match r {
        Ok(Some(rec)) => Ok(Some(rec@)),
        Ok(None) => Ok(None),
        Err(_) => Err(()),
    }
}

/// Setting a valid record and then reading gives that record back.
pub proof fn lemma_set_then_get(m: Map<Seq<char>, Seq<char>>, r: Seq<char>)
    requires
        is_json_object(r),
    ensures
        get_outcome(after_set(m, r)) == Ok::<Option<Seq<char>>, ()>(Some(r)),
{
}

/// Reading a store that never held a record, or one whose record was
/// deleted, gives no record and no error.
pub proof fn lemma_get_absent(m: Map<Seq<char>, Seq<char>>)
    ensures
        get_outcome(Map::empty()) == Ok::<Option<Seq<char>>, ()>(None),
        get_outcome(after_delete(m)) == Ok::<Option<Seq<char>>, ()>(None),
{
}

/// Deleting from a store that holds no record leaves it as it was.
pub proof fn lemma_delete_absent(m: Map<Seq<char>, Seq<char>>)
    requires
        !m.contains_key(record_key()),
    ensures
        after_delete(m) == m,
{
    assert(m.remove(record_key()) =~= m);
}

/// A second set replaces the first whole: the store is as if only the second
/// record had been set, and reading gives the second record.
pub proof fn lemma_set_overwrites(m: Map<Seq<char>, Seq<char>>, r1: Seq<char>, r2: Seq<char>)
    requires
        is_json_object(r2),
    ensures
        after_set(after_set(m, r1), r2) == after_set(m, r2),
        get_outcome(after_set(after_set(m, r1), r2)) == Ok::<Option<Seq<char>>, ()>(Some(r2)),
{
    assert(m.insert(record_key(), r1).insert(record_key(), r2) =~= m.insert(record_key(), r2));
}

/// A slot that holds text other than a JSON object reads as a decode error,
/// never as an empty slot.
pub proof fn lemma_malformed_is_error(m: Map<Seq<char>, Seq<char>>)
    requires
        m.contains_key(record_key()),
        !is_json_object(m[record_key()]),
    ensures
        get_outcome(m) is Err,
        get_outcome(m) != Ok::<Option<Seq<char>>, ()>(None),
{
}

/// Reads, writes and removes the one user record kept in a store.
pub struct Storage {
    storage: Store,
}

impl View for Storage {
    type V = Map<Seq<char>, Seq<char>>;

    closed spec fn view(&self) -> Map<Seq<char>, Seq<char>> {
        self.storage@
    }
}

impl Storage {
    /// The underlying store is well formed.
    pub closed spec fn wf(&self) -> bool {
        self.storage.wf()
    }

    /// The user record accessor over `storage`.
    pub fn new(storage: Store) -> (r: Storage)
        requires
            storage.wf(),
        ensures
            r.wf(),
            r@ == storage@,
    {
        Storage { storage }
    }

    /// The underlying store.
    pub fn store(&self) -> (r: &Store)
        requires
            self.wf(),
        ensures
            r.wf(),
            r@ == self@,
    {
        &self.storage
    }

    /// Gives back the underlying store.
    pub fn into_store(self) -> (r: Store)
        requires
            self.wf(),
        ensures
            r.wf(),
            r@ == self@,
    {
        self.storage
    }

    /// The stored user record: `None` where none is stored, a decode error
    /// where the stored text is not a JSON object.
    pub fn get(&self) -> (r: Result<Option<Record>, RecordError>)
        requires
            self.wf(),
        ensures
            outcome_of(r) == get_outcome(self@),
    {
        match self.storage.read(USER_FILE) {
            None => Ok(None),
            Some(data) => match Record::from_json(data) {
                Ok(user) => Ok(Some(user)),
                Err(e) => Err(e),
            },
        }
    }

    /// Stores `user`, replacing any record stored before.
    pub fn set(&mut self, user: &Record) -> (r: Result<(), RecordError>)
        requires
            old(self).wf(),
        ensures
            r is Ok,
            final(self).wf(),
            final(self)@ == after_set(old(self)@, user@),
    {
        let data = user.to_json();
        self.storage.write(USER_FILE, data);
        Ok(())
    }

    /// Removes the stored user record; where none is stored this changes
    /// nothing and still succeeds.
    pub fn delete(&mut self) -> (r: Result<(), RecordError>)
        requires
            old(self).wf(),
        ensures
            r is Ok,
            final(self).wf(),
            final(self)@ == after_delete(old(self)@),
    {
        self.storage.delete(USER_FILE);
        Ok(())
    }
}

} // verus!
