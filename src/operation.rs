//! Requests against the store, each applied as one step.
use vstd::prelude::*;
use vstd::string::StringExecFns;
use crate::database::{Database, MemoryDatabase};

verus! {

broadcast use vstd::string::to_string_from_display_ensures_for_str;

/// A request against the store.
pub enum DbOperation {
    Insert { key: String, value: String },
    Retrieve { key: String },
    Delete { key: String },
    Update { key: String, value: String },
}

/// The report of a write of `value` under `key`, led by `verb`.
pub open spec fn pair_message(verb: Seq<char>, key: Seq<char>, value: Seq<char>) -> Seq<char> {
    verb + key + " = "@ + value
}

/// The report of a request on a key that is not stored.
pub open spec fn not_found_message(key: Seq<char>) -> Seq<char> {
    "Key not found: "@ + key
}

/// The view of an operation's outcome.
pub open spec fn outcome_view(r: Result<String, String>) -> Result<Seq<char>, Seq<char>> {
    match r {
        Ok(m) => Ok(m@),
        Err(e) => Err(e@),
    }
}

/// The key that an operation is about.
pub open spec fn op_key(op: DbOperation) -> Seq<char> {
    match op {
        DbOperation::Insert { key, .. } => key@,
        DbOperation::Retrieve { key } => key@,
        DbOperation::Delete { key } => key@,
        DbOperation::Update { key, .. } => key@,
    }
}

/// The contents after applying `op` to contents `m`, and the report or error.
/// Insert always writes; the other three need the key present, and leave the
/// contents unchanged when it is absent.
pub open spec fn apply_spec(op: DbOperation, m: Map<Seq<char>, Seq<char>>) -> (
    Map<Seq<char>, Seq<char>>,
    Result<Seq<char>, Seq<char>>,
) {
    match op {
        DbOperation::Insert { key, value } => (
            m.insert(key@, value@),
            Ok(pair_message("Inserted: "@, key@, value@)),
        ),
        DbOperation::Retrieve { key } => if m.contains_key(key@) {
            (m, Ok(pair_message("Retrieved: "@, key@, m[key@])))
        } else {
            (m, Err(not_found_message(key@)))
        },
        DbOperation::Delete { key } => if m.contains_key(key@) {
            (m.remove(key@), Ok("Deleted: "@ + key@))
        } else {
            (m, Err(not_found_message(key@)))
        },
        DbOperation::Update { key, value } => if m.contains_key(key@) {
            (m.insert(key@, value@), Ok(pair_message("Updated: "@, key@, value@)))
        } else {
            (m, Err(not_found_message(key@)))
        },
    }
}

fn join_pair(verb: &str, key: &String, value: &String) -> (r: String)
    ensures
        r@ == pair_message(verb@, key@, value@),
{
    let mut s = verb.to_string();
    s.append(key.as_str());
    s.append(" = ");
    s.append(value.as_str());
    s
}

fn not_found(key: &String) -> (r: String)
    ensures
        r@ == not_found_message(key@),
{
    let mut s = "Key not found: ".to_string();
    s.append(key.as_str());
    s
}

impl DbOperation {
    /// The key that the operation is about.
    pub fn key(&self) -> (r: &String)
        ensures
            r@ == op_key(*self),
    {
        match self {
            DbOperation::Insert { key, .. } => key,
            DbOperation::Retrieve { key } => key,
            DbOperation::Delete { key } => key,
            DbOperation::Update { key, .. } => key,
        }
    }

    /// Applies the operation to the store and reports what it did.
    pub fn execute(&self, db: &mut MemoryDatabase) -> (r: Result<String, String>)
        requires
            old(db).wf(),
        ensures
            final(db).wf(),
            (final(db)@, outcome_view(r)) == apply_spec(*self, old(db)@),
    {
        match self {
            DbOperation::Insert { key, value } => {
                db.insert(key.clone(), value.clone());
                Ok(join_pair("Inserted: ", key, value))
            },
            DbOperation::Retrieve { key } => match db.get(key) {
                Some(value) => Ok(join_pair("Retrieved: ", key, value)),
                None => Err(not_found(key)),
            },
            DbOperation::Delete { key } => match db.delete(key) {
                Ok(()) => {
                    let mut s = "Deleted: ".to_string();
                    s.append(key.as_str());
                    Ok(s)
                },
                Err(_) => Err(not_found(key)),
            },
            DbOperation::Update { key, value } => match db.update(key.clone(), value.clone()) {
                Ok(()) => Ok(join_pair("Updated: ", key, value)),
                Err(_) => Err(not_found(key)),
            },
        }
    }
}

} // verus!
