//! Running operations against a store, each gated by a handler.
use vstd::prelude::*;
use crate::config::{verdict, Config, Handler, Status};
use crate::database::MemoryDatabase;
use crate::operation::{apply_spec, op_key, DbOperation};
use crate::table::{entry_views, keys_unique, pairs_to_map, upsert};

verus! {

/// The contents and the (key, status) records after running `ops` in order
/// from contents `m`: an operation runs only when the handler accepts its
/// descriptor, and its key is recorded active only when it also succeeds.
pub open spec fn run_spec<T: Handler>(
    handler: T,
    m: Map<Seq<char>, Seq<char>>,
    ops: Seq<(Config, DbOperation)>,
) -> (Map<Seq<char>, Seq<char>>, Seq<(Seq<char>, Status)>)
    decreases ops.len(),
{
    if ops.len() == 0 {
        (m, Seq::empty())
    } else {
        let prev = run_spec(handler, m, ops.drop_last());
        let (config, op) = ops.last();
        if handler.accepts(&config) {
            let (m2, out) = apply_spec(op, prev.0);
            (m2, prev.1.push((op_key(op), verdict(out is Ok))))
        } else {
            (prev.0, prev.1.push((op_key(op), Status::Inactive)))
        }
    }
}

/// Applies each operation in order, after its descriptor passes the handler,
/// and records for each key the status of the last operation on it.
pub fn run_with_store<T: Handler>(
    db: &mut MemoryDatabase,
    handler: &T,
    operations: Vec<(Config, DbOperation)>,
) -> (r: Vec<(String, Status)>)
    requires
        old(db).wf(),
    ensures
        final(db).wf(),
        final(db)@ == run_spec(*handler, old(db)@, operations@).0,
        keys_unique(entry_views(r@)),
        pairs_to_map(entry_views(r@)) == pairs_to_map(
            run_spec(*handler, old(db)@, operations@).1,
        ),
{
    let ghost m0 = db@;
    let mut results: Vec<(String, Status)> = Vec::new();
    let mut i: usize = 0;
    assert(entry_views(results@) =~= Seq::empty());
    assert(operations@.subrange(0, 0) =~= Seq::empty());
    while i < operations.len()
        invariant
            i <= operations@.len(),
            db.wf(),
            keys_unique(entry_views(results@)),
            db@ == run_spec(*handler, m0, operations@.subrange(0, i as int)).0,
            pairs_to_map(entry_views(results@)) == pairs_to_map(
                run_spec(*handler, m0, operations@.subrange(0, i as int)).1,
            ),
        decreases operations@.len() - i,
    {
        let (config, op) = &operations[i];
        let ghost before = db@;
        let status = if handler.handle(config).is_ok() {
            let outcome = op.execute(db);
            assert(outcome is Ok <==> apply_spec(*op, before).1 is Ok);
            if outcome.is_ok() {
                Status::Active
            } else {
                Status::Inactive
            }
        } else {
            Status::Inactive
        };
        upsert(&mut results, op.key().clone(), status);
        proof {
            let done = operations@.subrange(0, i as int);
            let next = operations@.subrange(0, i + 1);
            assert(next.drop_last() =~= done);
            assert(next.last() == operations@[i as int]);
            let step = run_spec(*handler, m0, next).1;
            assert(step.drop_last() =~= run_spec(*handler, m0, done).1);
            assert(step.last() == (op_key(*op), status));
        }
        i = i + 1;
    }
    assert(operations@.subrange(0, i as int) =~= operations@);
    results
}

} // verus!
