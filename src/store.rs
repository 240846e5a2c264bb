//! Keyed storage for tables and registers, backed by hashbrown's `HashMap`.
use vstd::prelude::*;
use crate::table::Table;
use crate::vm::Register;

verus! {

/// The tables of a machine, keyed by handle number.
#[verifier::external_body]
pub struct TableStore {
    map: hashbrown::HashMap<usize, Table>,
}

/// What a table store holds.
pub uninterp spec fn stored_tables(s: TableStore) -> Map<usize, Table>;

impl TableStore {
    /// Relies on hashbrown::HashMap::new: a new map is empty.
    #[verifier::external_body]
    pub(crate) fn new() -> (r: TableStore)
        ensures
            forall|k: usize| !stored_tables(r).contains_key(k),
    {
        TableStore { map: hashbrown::HashMap::new() }
    }

    /// Relies on hashbrown::HashMap::get: the value under the key, if any.
    #[verifier::external_body]
    pub(crate) fn get(&self, k: usize) -> (r: Option<&Table>)
        ensures
            match r {
                Some(t) => stored_tables(*self).contains_key(k) && *t == stored_tables(*self)[k],
                None => !stored_tables(*self).contains_key(k),
            },
    {
        self.map.get(&k)
    }

    /// Relies on hashbrown::HashMap::insert: the key now maps to the value,
    /// every other key is unchanged.
    #[verifier::external_body]
    pub(crate) fn insert(&mut self, k: usize, t: Table)
        ensures
            stored_tables(*final(self)) == stored_tables(*old(self)).insert(k, t),
    {
        self.map.insert(k, t);
    }

    /// Relies on hashbrown::HashMap::remove: the value under the key leaves the
    /// map and is handed back.
    #[verifier::external_body]
    pub(crate) fn remove(&mut self, k: usize) -> (r: Option<Table>)
        ensures
            stored_tables(*final(self)) == stored_tables(*old(self)).remove(k),
            match r {
                Some(t) => stored_tables(*old(self)).contains_key(k) && t == stored_tables(
                    *old(self),
                )[k],
                None => !stored_tables(*old(self)).contains_key(k),
            },
    {
        self.map.remove(&k)
    }
}

/// The registers of a machine, keyed by register number.
#[verifier::external_body]
pub struct RegisterFile {
    map: hashbrown::HashMap<usize, Register>,
}

/// What a register file holds.
pub uninterp spec fn stored_registers(s: RegisterFile) -> Map<usize, Register>;

impl RegisterFile {
    /// Relies on hashbrown::HashMap::new: a new map is empty.
    #[verifier::external_body]
    pub(crate) fn new() -> (r: RegisterFile)
        ensures
            forall|k: usize| !stored_registers(r).contains_key(k),
    {
        RegisterFile { map: hashbrown::HashMap::new() }
    }

    /// Relies on hashbrown::HashMap::get: the value under the key, if any.
    #[verifier::external_body]
    pub(crate) fn get(&self, k: usize) -> (r: Option<&Register>)
        ensures
            match r {
                Some(v) => stored_registers(*self).contains_key(k) && *v == stored_registers(
                    *self,
                )[k],
                None => !stored_registers(*self).contains_key(k),
            },
    {
        self.map.get(&k)
    }

    /// Relies on hashbrown::HashMap::insert: the key now maps to the value,
    /// every other key is unchanged.
    #[verifier::external_body]
    pub(crate) fn insert(&mut self, k: usize, v: Register)
        ensures
            stored_registers(*final(self)) == stored_registers(*old(self)).insert(k, v),
    {
        self.map.insert(k, v);
    }

    /// Relies on hashbrown::HashMap::remove: the value under the key leaves the
    /// map and is handed back.
    #[verifier::external_body]
    pub(crate) fn remove(&mut self, k: usize) -> (r: Option<Register>)
        ensures
            stored_registers(*final(self)) == stored_registers(*old(self)).remove(k),
            match r {
                Some(v) => stored_registers(*old(self)).contains_key(k) && v == stored_registers(
                    *old(self),
                )[k],
                None => !stored_registers(*old(self)).contains_key(k),
            },
    {
        self.map.remove(&k)
    }
}

} // verus!
