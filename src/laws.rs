//! Laws relating several operations of the store and the dispatcher.
use vstd::prelude::*;
use crate::config::{Config, Handler, Status};
use crate::database::{pair_views, MemoryDatabase};
use crate::dispatch::run_spec;
use crate::operation::{apply_spec, op_key, DbOperation};
use crate::table::{keys_unique, pairs_to_map};

verus! {

/// After `insert(k, v)` on any contents, `retrieve(k)` finds `v`.
pub proof fn law_insert_then_retrieve(m: Map<Seq<char>, Seq<char>>, k: Seq<char>, v: Seq<char>)
    ensures
        m.insert(k, v).contains_key(k),
        m.insert(k, v)[k] == v,
{
}

/// Updating a present key succeeds and leaves the new value to be retrieved;
/// updating an absent key fails and creates no entry.
pub proof fn law_update_then_retrieve(m: Map<Seq<char>, Seq<char>>, key: String, value: String)
    ensures
        ({
            let (m2, out) = apply_spec(DbOperation::Update { key, value }, m);
            &&& m.contains_key(key@) ==> out is Ok && m2.contains_key(key@) && m2[key@] == value@
            &&& !m.contains_key(key@) ==> out is Err && m2 == m && !m2.contains_key(key@)
        }),
{
}

/// Inserting the same pair twice leaves the contents that inserting it once does.
pub proof fn law_insert_idempotent(m: Map<Seq<char>, Seq<char>>, key: String, value: String)
    ensures
        ({
            let once = apply_spec(DbOperation::Insert { key, value }, m).0;
            apply_spec(DbOperation::Insert { key, value }, once).0 == once
        }),
{
    let once = m.insert(key@, value@);
    assert(once.insert(key@, value@) =~= once);
}

/// Loading a snapshot of a store gives a store with the same contents: every
/// key retrieves what it retrieved in the store that was snapshotted.
pub proof fn law_snapshot_load_round_trip(db: MemoryDatabase, snap: Seq<(String, String)>)
    requires
        db.wf(),
        keys_unique(pair_views(snap)),
        pairs_to_map(pair_views(snap)) == db@,
    ensures
        forall|k: Seq<char>|
            #[trigger] pairs_to_map(pair_views(snap)).contains_key(k) == db@.contains_key(k),
        forall|k: Seq<char>|
            db@.contains_key(k) ==> #[trigger] pairs_to_map(pair_views(snap))[k] == db@[k],
{
}

/// A handler that accepts nothing leaves the store as it was, and records
/// every submitted key, and only those, as inactive.
pub proof fn law_rejecting_handler_changes_nothing<T: Handler>(
    handler: T,
    m: Map<Seq<char>, Seq<char>>,
    ops: Seq<(Config, DbOperation)>,
)
    requires
        forall|c: Config| !#[trigger] handler.accepts(&c),
    ensures
        run_spec(handler, m, ops).0 == m,
        forall|k: Seq<char>|
            #[trigger] pairs_to_map(run_spec(handler, m, ops).1).contains_key(k) <==> exists|i: int|
                0 <= i < ops.len() && op_key(ops[i].1) == k,
        forall|k: Seq<char>|
            #[trigger] pairs_to_map(run_spec(handler, m, ops).1).contains_key(k) ==> pairs_to_map(
                run_spec(handler, m, ops).1,
            )[k] == Status::Inactive,
    decreases ops.len(),
{
    if ops.len() > 0 {
        let init = ops.drop_last();
        law_rejecting_handler_changes_nothing(handler, m, init);
        let log = run_spec(handler, m, ops).1;
        let prev = run_spec(handler, m, init).1;
        let last_key = op_key(ops.last().1);
        assert(!handler.accepts(&ops.last().0));
        assert(log == prev.push((last_key, Status::Inactive)));
        assert(log.drop_last() =~= prev);
        assert(pairs_to_map(log) == pairs_to_map(prev).insert(last_key, Status::Inactive));
        assert forall|k: Seq<char>| #[trigger] pairs_to_map(log).contains_key(k) <==> exists|i: int|
            0 <= i < ops.len() && op_key(ops[i].1) == k by {
            if pairs_to_map(log).contains_key(k) && k != last_key {
                assert(pairs_to_map(prev).contains_key(k));
                let i = choose|i: int| 0 <= i < init.len() && op_key(init[i].1) == k;
                assert(op_key(ops[i].1) == k);
            }
            if pairs_to_map(log).contains_key(k) && k == op_key(ops.last().1) {
                assert(op_key(ops[ops.len() - 1].1) == k);
            }
            if exists|i: int| 0 <= i < ops.len() && op_key(ops[i].1) == k {
                let i = choose|i: int| 0 <= i < ops.len() && op_key(ops[i].1) == k;
                if i < ops.len() - 1 {
                    assert(op_key(init[i].1) == k);
                    assert(pairs_to_map(prev).contains_key(k));
                }
            }
        }
    }
}

} // verus!
