//! The message-driven consumers: each handles one message fully before
//! the next. The conversion consumer performs one dispatched conversion
//! and feeds whatever it produced back into the engine, discarding the
//! outcome at this layer; the parallel consumer submits each member of a
//! batch independently, with no joint failure semantics.

use vstd::prelude::*;
use crate::convert::{CallOut, CallOutParaWrapper, TaskForConvert};
use crate::domain::{ConverterReturned, Instance, Mission, ParallelBatchInstance, Protocol, Root};
use crate::store::{has_id, valid_submission, Store};

verus! {

/// One message for a consumer: the task and the delivery identifier of
/// its carrier.
#[derive(Debug)]
pub struct MsgForTask<T>(pub T, pub u128);

/// The conversion consumer.
pub struct ConvertActor;

impl ConvertActor {
    /// Handles one conversion message: dispatches the task, submits every
    /// snapshot a local conversion produced, and hands a remote directive
    /// back for the transport layer to perform. Errors are dealt with by
    /// the conversion path itself and are not re-raised here.
    pub fn handle(msg: &MsgForTask<TaskForConvert>, mission: &Mission, store: &mut Store) -> (r:
        Option<(String, crate::domain::CallOutParameter)>)
        ensures
            final(store).defines == old(store).defines,
            r is Some ==> mission.executor.protocol is Http,
            // one message persists at most the one snapshot its local
            // conversion produced, and never rewrites what was there
            final(store).table.rows@.take(old(store).table.rows@.len() as int) == old(
                store,
            ).table.rows@,
            final(store).table.rows@.len() <= old(store).table.rows@.len() + 1,
            // whatever it appended belongs to the mission's target stream
            forall|j: int|
                old(store).table.rows@.len() <= j < final(store).table.rows@.len() ==> (
                #[trigger] final(store).table.rows@[j]).data.thing == mission.to,
            // an HTTP mission touches nothing here: it is handed back as
            // a directive for the transport layer, correlated and aimed
            mission.executor.protocol is Http ==> (r matches Some(p) && p.0@
                == mission.executor.url@ && p.1.carrier_id == msg.1 && p.1.from@ == msg.0.from@
                && *final(store) == *old(store)),
            // a mission with an unknown protocol runs nothing at all
            mission.executor.protocol is Rpc ==> r is None && *final(store) == *old(store),
    {
        proof {
            assert(store.table.rows@.take(store.table.rows@.len() as int)
                =~= store.table.rows@);
        }
        let out = match CallOutParaWrapper::gen_and_call_out(&msg.0, msg.1, mission) {
            Ok(c) => c,
            Err(_) => {
                return None;
            },
        };
        match out {
            CallOut::Remote(url, para) => Some((url, para)),
            CallOut::Done(res) => {
                match res {
                    ConverterReturned::Instances(v) => {
                        let ghost base = old(store).table.rows@;
                        let mut i: usize = 0;
                        while i < v.len()
                            invariant
                                store.defines == old(store).defines,
                                i <= v@.len(),
                                v@.len() <= 1,
                                base == old(store).table.rows@,
                                base.len() <= store.table.rows@.len(),
                                store.table.rows@.take(base.len() as int) == base,
                                store.table.rows@.len() <= base.len() + i,
                                forall|j: int|
                                    base.len() <= j < store.table.rows@.len() ==> (
                                    #[trigger] store.table.rows@[j]).data.thing == mission.to,
                            decreases v.len() - i,
                        {
                            // a produced snapshot belongs to the flow's target
                            let mut produced = v[i].clone();
                            produced.data.thing = mission.to.clone();
                            let ghost pre_rows = store.table.rows@;
                            let _ = store.submit_single(produced);
                            proof {
                                assert(store.table.rows@.take(pre_rows.len() as int)
                                    == pre_rows);
                                assert forall|t: int| 0 <= t < base.len()
                                    implies store.table.rows@[t] == base[t] by {
                                    assert(store.table.rows@.take(pre_rows.len() as int)[t]
                                        == pre_rows[t]);
                                    assert(pre_rows.take(base.len() as int)[t] == base[t]);
                                }
                                assert(store.table.rows@.take(base.len() as int) =~= base);
                                assert forall|j: int|
                                    base.len() <= j < store.table.rows@.len() implies (
                                    #[trigger] store.table.rows@[j]).data.thing
                                    == mission.to by {
                                    if j < pre_rows.len() {
                                        assert(store.table.rows@.take(pre_rows.len() as int)[j]
                                            == pre_rows[j]);
                                    } else {
                                        assert(j == store.table.rows@.len() - 1);
                                        assert(store.table.rows@.last().data.thing
                                            == mission.to);
                                    }
                                }
                            }
                            i = i + 1;
                        }
                        None
                    },
                    _ => None,
                }
            },
        }
    }
}

/// The parallel-batch consumer.
pub struct ParallelActor;

impl ParallelActor {
    /// Handles one parallel batch: each member is submitted through the
    /// normal single-submission path, on its own; no result is
    /// aggregated, and one member's failure does not touch the others.
    pub fn handle(msg: &MsgForTask<ParallelBatchInstance>, store: &mut Store)
        ensures
            final(store).defines == old(store).defines,
            final(store).table.rows@.take(old(store).table.rows@.len() as int) == old(
                store,
            ).table.rows@,
            final(store).table.rows@.len() <= old(store).table.rows@.len() + msg.0.0@.len(),
            // members that are valid, with distinct fresh non-zero
            // identifiers, are all persisted, in batch order
            ((forall|k: int|
                0 <= k < msg.0.0@.len() ==> valid_submission(
                    #[trigger] msg.0.0@[k],
                    Root::Business,
                )) && (forall|k: int| 0 <= k < msg.0.0@.len() ==> #[trigger] msg.0.0@[k].id != 0)
                && (forall|k: int, j: int|
                0 <= k < j < msg.0.0@.len() ==> msg.0.0@[k].id != msg.0.0@[j].id) && (forall|
                k: int,
            |
                0 <= k < msg.0.0@.len() ==> !has_id(
                    old(store).table.rows@,
                    #[trigger] msg.0.0@[k].id,
                ))) ==> final(store).table.rows@.len() == old(store).table.rows@.len()
                + msg.0.0@.len() && (forall|k: int|
                0 <= k < msg.0.0@.len()
                    ==> (#[trigger] final(store).table.rows@[old(store).table.rows@.len() + k]).id
                    == msg.0.0@[k].id),
    {
        let ghost base = old(store).table.rows@;
        let ghost all_fresh = (forall|k: int|
            0 <= k < msg.0.0@.len() ==> valid_submission(#[trigger] msg.0.0@[k], Root::Business))
            && (forall|k: int| 0 <= k < msg.0.0@.len() ==> #[trigger] msg.0.0@[k].id != 0) && (
        forall|k: int, j: int| 0 <= k < j < msg.0.0@.len() ==> msg.0.0@[k].id != msg.0.0@[j].id)
            && (forall|k: int|
            0 <= k < msg.0.0@.len() ==> !has_id(base, #[trigger] msg.0.0@[k].id));
        let mut i: usize = 0;
        while i < msg.0.0.len()
            invariant
                store.defines == old(store).defines,
                i <= msg.0.0@.len(),
                base == old(store).table.rows@,
                base.len() <= store.table.rows@.len(),
                store.table.rows@.take(base.len() as int) == base,
                store.table.rows@.len() <= base.len() + i,
                all_fresh == ((forall|k: int|
                    0 <= k < msg.0.0@.len() ==> valid_submission(
                        #[trigger] msg.0.0@[k],
                        Root::Business,
                    )) && (forall|k: int|
                    0 <= k < msg.0.0@.len() ==> #[trigger] msg.0.0@[k].id != 0) && (forall|
                    k: int,
                    j: int,
                |
                    0 <= k < j < msg.0.0@.len() ==> msg.0.0@[k].id != msg.0.0@[j].id) && (forall|
                    k: int,
                |
                    0 <= k < msg.0.0@.len() ==> !has_id(base, #[trigger] msg.0.0@[k].id))),
                all_fresh ==> store.table.rows@.len() == base.len() + i && (forall|j: int|
                    0 <= j < i ==> (#[trigger] store.table.rows@[base.len() + j]).id
                        == msg.0.0@[j].id),
            decreases msg.0.0.len() - i,
        {
            let member = msg.0.0[i].clone();
            let ghost pre_rows = store.table.rows@;
            proof {
                let target = msg.0.0@[i as int];
                assert(member@ == target@);
                assert(member.data@ == target.data@);
                assert(member.data.thing == msg.0.0@[i as int].data.thing);
                assert(member.id == msg.0.0@[i as int].id);
                assert(member.data.status_version == msg.0.0@[i as int].data.status_version);
                assert(valid_submission(member, Root::Business) == valid_submission(
                    msg.0.0@[i as int],
                    Root::Business,
                ));
                if all_fresh {
                    // the member's identifier is nowhere in the current
                    // table: not among the original rows, and not among
                    // the rows this loop appended (their identifiers are
                    // distinct batch identifiers)
                    if crate::store::ver_present(
                        pre_rows,
                        member.id,
                        member.data.status_version as int,
                    ) {
                        let m = choose|m: int|
                            0 <= m < pre_rows.len() && pre_rows[m].id == member.id
                                && pre_rows[m].data.status_version == member.data.status_version;
                        if m < base.len() {
                            assert(pre_rows.take(base.len() as int)[m] == base[m]);
                            assert(pre_rows[m] == base[m]);
                            assert(0 <= m < base.len() && base[m].id == msg.0.0@[i as int].id);
                            assert(has_id(base, msg.0.0@[i as int].id));
                        } else {
                            let j = m - base.len();
                            assert(pre_rows[base.len() + j].id == msg.0.0@[j].id);
                            assert(msg.0.0@[j].id != msg.0.0@[i as int].id);
                        }
                        assert(false);
                    }
                    assert(!crate::store::ver_present(
                        pre_rows,
                        member.id,
                        member.data.status_version as int,
                    ));
                }
            }
            let _ = store.submit_single(member);
            proof {
                assert(store.table.rows@.take(pre_rows.len() as int) == pre_rows);
                assert forall|t: int| 0 <= t < base.len() implies store.table.rows@[t]
                    == base[t] by {
                    assert(store.table.rows@.take(pre_rows.len() as int)[t] == pre_rows[t]);
                    assert(pre_rows.take(base.len() as int)[t] == base[t]);
                }
                assert(store.table.rows@.take(base.len() as int) =~= base);
                if all_fresh {
                    assert(store.table.rows@.last().id == msg.0.0@[i as int].id);
                    assert forall|j: int|
                        0 <= j < i + 1 implies (#[trigger] store.table.rows@[base.len() + j]).id
                        == msg.0.0@[j].id by {
                        if j < i {
                            assert(store.table.rows@.take(pre_rows.len() as int)[base.len() + j]
                                == pre_rows[base.len() + j]);
                        } else {
                            assert(base.len() + j == store.table.rows@.len() - 1);
                        }
                    }
                }
            }
            i = i + 1;
        }
    }
}

} // verus!
