//! Schemas and databases: the named catalog over table handles.
use vstd::prelude::*;
use crate::vm::TableIndex;

verus! {

/// A named set of table handles.
#[derive(Debug, Clone)]
pub struct Schema {
    pub name: String,
    pub tables: Vec<TableIndex>,
}

impl Schema {
    pub fn new(name: String) -> (s: Schema)
        ensures
            s.name@ == name@,
            s.tables@.len() == 0,
    {
        Schema { name, tables: Vec::new() }
    }

    pub fn tables(&self) -> (r: &Vec<TableIndex>)
        ensures
            r@ == self.tables@,
    {
        &self.tables
    }

    pub fn add_table(&mut self, t: TableIndex)
        ensures
            final(self).tables@ == old(self).tables@.push(t),
            final(self).name == old(self).name,
    {
        self.tables.push(t);
    }
}

/// A named collection of schemas; the first one is the default schema.
#[derive(Debug, Clone)]
pub struct Database {
    pub name: String,
    pub schemas: Vec<Schema>,
}

impl Database {
    /// There is a default schema, and schema names are unique.
    pub open spec fn wf(&self) -> bool {
        &&& self.schemas@.len() > 0
        &&& forall|i: int, j: int|
            0 <= i < self.schemas@.len() && 0 <= j < self.schemas@.len() && i != j
                ==> #[trigger] self.schemas@[i].name@ != #[trigger] self.schemas@[j].name@
    }

    pub open spec fn has_schema(&self, name: Seq<char>) -> bool {
        exists|i: int| 0 <= i < self.schemas@.len() && #[trigger] self.schemas@[i].name@ == name
    }

    /// A database whose default schema carries the database's name.
    pub fn new(name: String) -> (db: Database)
        ensures
            db.wf(),
            db.name@ == name@,
            db.schemas@.len() == 1,
            db.schemas@[0].name@ == name@,
            db.schemas@[0].tables@.len() == 0,
    {
        let default = Schema::new(name.clone());
        let mut schemas: Vec<Schema> = Vec::new();
        schemas.push(default);
        Database { name, schemas }
    }

    pub fn default_schema(&self) -> (s: &Schema)
        requires
            self.wf(),
        ensures
            *s == self.schemas@[0],
    {
        &self.schemas[0]
    }

    /// Position of the schema named `name`, compared exactly.
    pub fn schema_position(&self, name: &String) -> (r: Option<usize>)
        ensures
            match r {
                Some(i) => i < self.schemas@.len() && self.schemas@[i as int].name@ == name@,
                None => !self.has_schema(name@),
            },
    {
        let mut i: usize = 0;
        while i < self.schemas.len()
            invariant
                i <= self.schemas@.len(),
                forall|k: int| 0 <= k < i ==> #[trigger] self.schemas@[k].name@ != name@,
            decreases self.schemas@.len() - i,
        {
            if self.schemas[i].name == *name {
                return Some(i);
            }
            i = i + 1;
        }
        None
    }

    pub fn schema_by_name(&self, name: &String) -> (r: Option<&Schema>)
        ensures
            match r {
                Some(s) => self.has_schema(name@) && s.name@ == name@ && exists|i: int|
                    0 <= i < self.schemas@.len() && self.schemas@[i] == *s,
                None => !self.has_schema(name@),
            },
    {
        match self.schema_position(name) {
            Some(i) => Some(&self.schemas[i]),
            None => None,
        }
    }

    /// Adds a schema unless one of that name exists; says whether it was added.
    pub fn add_schema(&mut self, schema: Schema) -> (added: bool)
        requires
            old(self).wf(),
        ensures
            final(self).wf(),
            final(self).name == old(self).name,
            added == !old(self).has_schema(schema.name@),
            added ==> final(self).schemas@ == old(self).schemas@.push(schema),
            !added ==> final(self).schemas@ == old(self).schemas@,
    {
        if self.schema_position(&schema.name).is_some() {
            return false;
        }
        self.schemas.push(schema);
        true
    }

    /// Adds a table handle to the schema at `pos`.
    pub fn add_table_to(&mut self, pos: usize, t: TableIndex)
        requires
            old(self).wf(),
            pos < old(self).schemas@.len(),
        ensures
            final(self).wf(),
            final(self).name == old(self).name,
            final(self).schemas@.len() == old(self).schemas@.len(),
            final(self).schemas@[pos as int].tables@ == old(self).schemas@[pos as int].tables@.push(t),
            final(self).schemas@[pos as int].name == old(self).schemas@[pos as int].name,
            forall|i: int|
                0 <= i < old(self).schemas@.len() && i != pos ==> #[trigger] final(self).schemas@[i]
                    == old(self).schemas@[i],
    {
        let mut s = self.schemas.remove(pos);
        s.add_table(t);
        self.schemas.insert(pos, s);
        assert(forall|i: int| 0 <= i < self.schemas@.len() ==> #[trigger] self.schemas@[i].name == old(self).schemas@[i].name);
    }
}

/// A well-formed database always has its default schema.
pub proof fn lemma_default_schema_present(db: Database)
    requires
        db.wf(),
    ensures
        db.schemas@.len() > 0,
        db.has_schema(db.schemas@[0].name@),
{
}

/// Once a schema has been added, the database has a schema of that name, so
/// adding one of the same name again is refused.
pub proof fn lemma_schema_added_once(db: Database, s: Schema, after: Database)
    requires
        after.schemas@ == db.schemas@.push(s),
    ensures
        after.has_schema(s.name@),
{
    assert(after.schemas@[db.schemas@.len() as int].name@ == s.name@);
}

} // verus!
