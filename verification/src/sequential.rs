//! Serial batch submission: an ordered group of snapshots processed
//! against one stream through supplied checker and saver capabilities,
//! with item-local failures recorded and environment failures aborting
//! the whole batch. The outcome is a finish record, renderable as a
//! synthetic system snapshot that re-enters the engine.

use vstd::prelude::*;
use crate::domain::{
    Instance, InstanceNoID, NatureError, Root, SerialBatchInstance, Thing, ThingDefine,
    ThingType,
};
use crate::store::now_millis;
use crate::text::{dec_str, json_escaped, push_dec_u128, push_json_escaped, push_str_chars,
    string_from_chars};

verus! {

/// The stream key of the synthetic snapshot a serial batch finishes as.
pub const SYS_KEY_SERIAL: &'static str = "/sys/serial";

/// A serial batch as handed to the saving step: the owning stream, the
/// context key to record completion under, and the snapshots in order.
pub struct TaskForSerial {
    pub thing: Thing,
    pub context_for_finish: String,
    pub instances: Vec<Instance>,
}

/// The structured partial result of a serial batch: the identifiers that
/// were persisted (or found already persisted), and the error texts of
/// the items that were skipped, both in batch order.
#[derive(Debug)]
pub struct SerialFinished {
    pub succeeded_id: Vec<u128>,
    pub errors: Vec<String>,
}

/// The identifiers rendered as a JSON array body, comma-separated.
pub open spec fn dec_list(ids: Seq<u128>) -> Seq<char>
    decreases ids.len(),
{
    if ids.len() == 0 {
        Seq::empty()
    } else if ids.len() == 1 {
        dec_str(ids[0] as nat)
    } else {
        dec_list(ids.drop_last()) + seq![','] + dec_str(ids.last() as nat)
    }
}

/// The error texts rendered as a JSON array body of string literals.
pub open spec fn quoted_list(errs: Seq<String>) -> Seq<char>
    decreases errs.len(),
{
    if errs.len() == 0 {
        Seq::empty()
    } else if errs.len() == 1 {
        seq!['"'] + json_escaped(errs[0]@) + seq!['"']
    } else {
        quoted_list(errs.drop_last()) + seq![',', '"'] + json_escaped(errs.last()@) + seq!['"']
    }
}

/// The JSON rendering of a finish record, with its two fields in order.
pub open spec fn json_of_finished(succ: Seq<u128>, errs: Seq<String>) -> Seq<char> {
    "{\"succeeded_id\":["@ + dec_list(succ) + "],\"errors\":["@ + quoted_list(errs) + "]}"@
}

impl SerialFinished {
    /// Renders the record as JSON and wraps it in a synthetic system
    /// snapshot whose context maps the caller's key to that JSON, for
    /// onward flow into the engine itself. The three times are one clock
    /// reading; the identifier is left for validation to assign.
    pub fn to_virtual_instance(&self, context_for_finish: &str) -> (r: Result<
        Instance,
        NatureError,
    >)
        ensures
            r is Ok,
            ({
                let inst = r->Ok_0;
                &&& inst.id == 0
                &&& inst.data.thing.key@ == SYS_KEY_SERIAL@
                &&& inst.data.thing.version == 1
                &&& inst.data.thing.thing_type is System
                &&& inst.data.content@.len() == 0
                &&& inst.data.context@.len() == 1
                &&& inst.data.context@[0].0@ == context_for_finish@
                &&& inst.data.context@[0].1@ == json_of_finished(
                    self.succeeded_id@,
                    self.errors@,
                )
                &&& inst.data.status@.len() == 0
                &&& inst.data.status_version == 0
                &&& inst.data.event_time == inst.data.create_time
                &&& inst.data.execute_time == inst.data.create_time
                &&& inst.wf()
            }),
    {
        let mut json: Vec<char> = Vec::new();
        push_str_chars(&mut json, "{\"succeeded_id\":[");
        let mut i: usize = 0;
        while i < self.succeeded_id.len()
            invariant
                i <= self.succeeded_id.len(),
                json@ == "{\"succeeded_id\":["@ + dec_list(self.succeeded_id@.take(i as int)),
            decreases self.succeeded_id.len() - i,
        {
            if i > 0 {
                json.push(',');
            }
            push_dec_u128(&mut json, self.succeeded_id[i]);
            proof {
                let pre = self.succeeded_id@.take(i as int);
                let cur = self.succeeded_id@.take(i + 1 as int);
                assert(cur.drop_last() =~= pre);
                assert(cur.last() == self.succeeded_id@[i as int]);
                if i == 0 {
                    assert(cur.len() == 1);
                    assert(cur[0] == self.succeeded_id@[0]);
                }
                assert(json@ =~= "{\"succeeded_id\":["@ + dec_list(cur));
            }
            i = i + 1;
        }
        proof {
            assert(self.succeeded_id@.take(self.succeeded_id@.len() as int)
                =~= self.succeeded_id@);
        }
        push_str_chars(&mut json, "],\"errors\":[");
        let ghost mid = json@;
        let mut j: usize = 0;
        while j < self.errors.len()
            invariant
                j <= self.errors.len(),
                mid == "{\"succeeded_id\":["@ + dec_list(self.succeeded_id@) + "],\"errors\":["@,
                json@ == mid + quoted_list(self.errors@.take(j as int)),
            decreases self.errors.len() - j,
        {
            if j > 0 {
                json.push(',');
            }
            json.push('"');
            push_json_escaped(&mut json, self.errors[j].as_str());
            json.push('"');
            proof {
                let pre = self.errors@.take(j as int);
                let cur = self.errors@.take(j + 1 as int);
                assert(cur.drop_last() =~= pre);
                assert(cur.last() == self.errors@[j as int]);
                if j == 0 {
                    assert(cur.len() == 1);
                    assert(cur[0] == self.errors@[0]);
                }
                assert(json@ =~= mid + quoted_list(cur));
            }
            j = j + 1;
        }
        proof {
            assert(self.errors@.take(self.errors@.len() as int) =~= self.errors@);
        }
        push_str_chars(&mut json, "]}");
        proof {
            assert(json@ =~= json_of_finished(self.succeeded_id@, self.errors@));
        }
        let payload = string_from_chars(&json);
        let time = now_millis();
        let mut context: Vec<(String, String)> = Vec::new();
        context.push((context_for_finish.to_owned(), payload));
        Ok(
            Instance {
                id: 0,
                data: InstanceNoID {
                    thing: Thing {
                        key: "/sys/serial".to_owned(),
                        version: 1,
                        thing_type: ThingType::System,
                    },
                    event_time: time,
                    execute_time: time,
                    create_time: time,
                    content: String::new(),
                    context,
                    status: Vec::new(),
                    status_version: 0,
                },
            },
        )
    }
}

/// The item-local fate of one batch member.
#[derive(Debug)]
pub enum ItemOutcome {
    /// The checker rejected the member; its error text is recorded.
    CheckFailed(NatureError),
    /// The saver persisted it; its identifier is recorded.
    Saved,
    /// The saver found it already persisted; recorded as success.
    AlreadySaved,
    /// The saver failed item-locally; its error text is recorded.
    SaveFailed(NatureError),
}

/// Whether `arg` is `member` as the batch re-owns it: the same snapshot,
/// now belonging to the batch's stream and classified as business.
pub open spec fn reowned_as(arg: Instance, member: Instance, owner: Thing) -> bool {
    &&& arg.id == member.id
    &&& arg.data.thing.key@ == owner.key@
    &&& arg.data.thing.version == owner.version
    &&& arg.data.thing.thing_type is Business
    &&& arg.data.event_time == member.data.event_time
    &&& arg.data.execute_time == member.data.execute_time
    &&& arg.data.create_time == member.data.create_time
    &&& arg.data.content@ == member.data.content@
    &&& arg.data.context@ == member.data.context@
    &&& arg.data.status@ == member.data.status@
    &&& arg.data.status_version == member.data.status_version
}

/// Whether the checker capability can accept this snapshot's stream.
pub open spec fn checker_passed<FC: Fn(&Thing) -> Result<ThingDefine, NatureError>>(
    checker: FC,
    arg: Instance,
) -> bool {
    exists|d: ThingDefine|
        call_ensures(checker, (&arg.data.thing,), Result::<ThingDefine, NatureError>::Ok(d))
}

/// Whether an outcome is one the capabilities can really answer for this
/// member: a recorded failure or success is never fabricated.
pub open spec fn outcome_witnessed<
    FC: Fn(&Thing) -> Result<ThingDefine, NatureError>,
    FS: Fn(&Instance) -> Result<usize, NatureError>,
>(out: ItemOutcome, member: Instance, owner: Thing, checker: FC, saver: FS) -> bool {
    exists|arg: Instance|
        #![auto]
        reowned_as(arg, member, owner) && (match out {
            ItemOutcome::CheckFailed(e) => call_ensures(
                checker,
                (&arg.data.thing,),
                Result::<ThingDefine, NatureError>::Err(e),
            ),
            ItemOutcome::Saved => checker_passed(checker, arg) && (exists|n: usize|
                call_ensures(saver, (&arg,), Result::<usize, NatureError>::Ok(n))),
            ItemOutcome::AlreadySaved => checker_passed(checker, arg) && call_ensures(
                saver,
                (&arg,),
                Result::<usize, NatureError>::Err(NatureError::DaoDuplicated),
            ),
            ItemOutcome::SaveFailed(e) => checker_passed(checker, arg) && call_ensures(
                saver,
                (&arg,),
                Result::<usize, NatureError>::Err(e),
            ) && !(e is DaoDuplicated) && !(e is DaoEnvironmentError),
        })
}

/// The identifiers a run with these outcomes records, in batch order.
pub open spec fn recorded_ids(outs: Seq<ItemOutcome>, members: Seq<Instance>) -> Seq<u128>
    decreases outs.len(),
{
    if outs.len() == 0 || members.len() == 0 {
        Seq::empty()
    } else {
        let rest = recorded_ids(outs.drop_last(), members.drop_last());
        match outs.last() {
            ItemOutcome::Saved => rest.push(members.last().id),
            ItemOutcome::AlreadySaved => rest.push(members.last().id),
            _ => rest,
        }
    }
}

/// The error texts a run with these outcomes records, in batch order.
pub open spec fn recorded_errors(outs: Seq<ItemOutcome>) -> Seq<Seq<char>>
    decreases outs.len(),
{
    if outs.len() == 0 {
        Seq::empty()
    } else {
        let rest = recorded_errors(outs.drop_last());
        match outs.last() {
            ItemOutcome::CheckFailed(e) => rest.push(e.message_spec()),
            ItemOutcome::SaveFailed(e) => rest.push(e.message_spec()),
            _ => rest,
        }
    }
}

/// A finished batch is fully accounted for: one witnessed outcome per
/// member, in order, with the success identifiers and error texts being
/// exactly what those outcomes record.
pub open spec fn batch_account<
    FC: Fn(&Thing) -> Result<ThingDefine, NatureError>,
    FS: Fn(&Instance) -> Result<usize, NatureError>,
>(
    outs: Seq<ItemOutcome>,
    members: Seq<Instance>,
    owner: Thing,
    checker: FC,
    saver: FS,
    fin: SerialFinished,
) -> bool {
    &&& outs.len() == members.len()
    &&& (forall|k: int|
        0 <= k < outs.len() ==> outcome_witnessed(
            #[trigger] outs[k],
            members[k],
            owner,
            checker,
            saver,
        ))
    &&& fin.succeeded_id@ == recorded_ids(outs, members)
    &&& fin.errors@.len() == recorded_errors(outs).len()
    &&& (forall|k: int|
        0 <= k < fin.errors@.len() ==> (#[trigger] fin.errors@[k])@ == recorded_errors(outs)[k])
}

/// An aborted batch is accounted for up to the aborting member: `j`
/// members met witnessed outcomes, and member `j` passed its check but
/// its saver call reported this environment failure.
pub open spec fn batch_abort<
    FC: Fn(&Thing) -> Result<ThingDefine, NatureError>,
    FS: Fn(&Instance) -> Result<usize, NatureError>,
>(
    outs: Seq<ItemOutcome>,
    j: int,
    arg: Instance,
    members: Seq<Instance>,
    owner: Thing,
    checker: FC,
    saver: FS,
    e: NatureError,
) -> bool {
    &&& 0 <= j < members.len()
    &&& outs.len() == j
    &&& (forall|k: int|
        0 <= k < j ==> outcome_witnessed(#[trigger] outs[k], members[k], owner, checker, saver))
    &&& reowned_as(arg, members[j], owner)
    &&& checker_passed(checker, arg)
    &&& call_ensures(saver, (&arg,), Result::<usize, NatureError>::Err(e))
}

/// One more outcome extends what a run records in the expected way.
proof fn lemma_record_step(outs: Seq<ItemOutcome>, members: Seq<Instance>, i: int, o: ItemOutcome)
    requires
        0 <= i < members.len(),
        outs.len() == i,
    ensures
        recorded_ids(outs.push(o), members.take(i + 1)) == (match o {
            ItemOutcome::Saved => recorded_ids(outs, members.take(i)).push(members[i].id),
            ItemOutcome::AlreadySaved => recorded_ids(outs, members.take(i)).push(members[i].id),
            _ => recorded_ids(outs, members.take(i)),
        }),
        recorded_errors(outs.push(o)) == (match o {
            ItemOutcome::CheckFailed(e) => recorded_errors(outs).push(e.message_spec()),
            ItemOutcome::SaveFailed(e) => recorded_errors(outs).push(e.message_spec()),
            _ => recorded_errors(outs),
        }),
{
    assert(outs.push(o).drop_last() =~= outs);
    assert(members.take(i + 1).drop_last() =~= members.take(i));
    assert(members.take(i + 1).last() == members[i]);
    assert(outs.push(o).last() == o);
}

/// Every recorded identifier is the identifier of some batch member.
pub open spec fn ids_from(succ: Seq<u128>, instances: Seq<Instance>) -> bool {
    forall|k: int|
        0 <= k < succ.len() ==> exists|j: int|
            0 <= j < instances.len() && instances[j].id == #[trigger] succ[k]
}

/// Recording a member's identifier preserves the provenance of the list.
proof fn lemma_ids_from_push(succ: Seq<u128>, instances: Seq<Instance>, id: u128, j: int)
    requires
        ids_from(succ, instances),
        0 <= j < instances.len(),
        instances[j].id == id,
    ensures
        ids_from(succ.push(id), instances),
{
    assert forall|k: int| 0 <= k < succ.push(id).len() implies exists|jj: int|
        0 <= jj < instances.len() && instances[jj].id == #[trigger] succ.push(id)[k] by {
        if k < succ.len() {
            assert(succ.push(id)[k] == succ[k]);
        } else {
            assert(succ.push(id)[k] == id);
            assert(0 <= j < instances.len() && instances[j].id == succ.push(id)[k]);
        }
    }
}

/// Runs a serial batch against supplied capabilities.
pub struct TaskForSerialWrapper;

impl TaskForSerialWrapper {
    /// Processes the batch in order: each snapshot is re-owned by the
    /// batch's stream (classified as business), checked by the supplied
    /// checker, and persisted by the supplied saver.
    ///
    /// A checker failure records the error and skips the item. A saver
    /// environment failure aborts the whole batch. A saver duplicate is
    /// success (the identifier is recorded). Any other saver failure
    /// records the error and skips the item.
    pub fn save<FC, FS>(serial: TaskForSerial, checker: &FC, saver: &FS) -> (r: Result<
        SerialFinished,
        NatureError,
    >) where
        FC: Fn(&Thing) -> Result<ThingDefine, NatureError>,
        FS: Fn(&Instance) -> Result<usize, NatureError>,

        requires
            forall|t: &Thing| #[trigger] checker.requires((t,)),
            forall|i: &Instance| #[trigger] saver.requires((i,)),
        ensures
            // an empty batch always succeeds
            serial.instances@.len() == 0 ==> r is Ok,
            match r {
                Ok(fin) => {
                    // every item lands in exactly one of the two lists
                    &&& fin.succeeded_id@.len() + fin.errors@.len()
                        == serial.instances@.len()
                    &&& ids_from(fin.succeeded_id@, serial.instances@)
                    // and the run is fully accounted for: one witnessed
                    // outcome per member, in batch order, recording
                    // exactly these identifiers and error texts
                    &&& (exists|outs: Seq<ItemOutcome>|
                        batch_account(
                            outs,
                            serial.instances@,
                            serial.thing,
                            *checker,
                            *saver,
                            fin,
                        ))
                },
                Err(e) => e is DaoEnvironmentError && (exists|
                    outs: Seq<ItemOutcome>,
                    j: int,
                    arg: Instance,
                |
                    batch_abort(
                        outs,
                        j,
                        arg,
                        serial.instances@,
                        serial.thing,
                        *checker,
                        *saver,
                        e,
                    )),
            },
    {
        let mut errors: Vec<String> = Vec::new();
        let mut succeeded_id: Vec<u128> = Vec::new();
        let ghost mut outs: Seq<ItemOutcome> = Seq::empty();
        let mut i: usize = 0;
        while i < serial.instances.len()
            invariant
                i <= serial.instances.len(),
                forall|t: &Thing| #[trigger] checker.requires((t,)),
                forall|ins: &Instance| #[trigger] saver.requires((ins,)),
                succeeded_id@.len() + errors@.len() == i,
                ids_from(succeeded_id@, serial.instances@),
                outs.len() == i,
                forall|k: int|
                    0 <= k < i ==> outcome_witnessed(
                        #[trigger] outs[k],
                        serial.instances@[k],
                        serial.thing,
                        *checker,
                        *saver,
                    ),
                succeeded_id@ == recorded_ids(outs, serial.instances@.take(i as int)),
                errors@.len() == recorded_errors(outs).len(),
                forall|k: int|
                    0 <= k < errors@.len() ==> (#[trigger] errors@[k])@ == recorded_errors(
                        outs,
                    )[k],
            decreases serial.instances.len() - i,
        {
            let mut instance = serial.instances[i].clone();
            // the batch re-owns each snapshot, classified as business
            instance.data.thing = Thing {
                key: serial.thing.key.clone(),
                version: serial.thing.version,
                thing_type: ThingType::Business,
            };
            proof {
                assert(reowned_as(instance, serial.instances@[i as int], serial.thing));
            }
            let checked = checker(&instance.data.thing);
            let ghost checked_snap = checked;
            match checked {
                Ok(_) => {},
                Err(err) => {
                    errors.push(err.message());
                    proof {
                        let e0 = checked_snap->Err_0;
                        lemma_record_step(
                            outs,
                            serial.instances@,
                            i as int,
                            ItemOutcome::CheckFailed(e0),
                        );
                        outs = outs.push(ItemOutcome::CheckFailed(e0));
                        assert(outs[i as int] == ItemOutcome::CheckFailed(e0));
                        assert(outcome_witnessed(
                            outs[i as int],
                            serial.instances@[i as int],
                            serial.thing,
                            *checker,
                            *saver,
                        ));
                    }
                    i = i + 1;
                    continue ;
                },
            }
            proof {
                assert(checker_passed(*checker, instance));
            }
            let saved = saver(&instance);
            let ghost saved_snap = saved;
            match saved {
                Ok(_) => {
                    proof {
                        lemma_ids_from_push(
                            succeeded_id@,
                            serial.instances@,
                            instance.id,
                            i as int,
                        );
                        assert(call_ensures(
                            *saver,
                            (&instance,),
                            Result::<usize, NatureError>::Ok(saved_snap->Ok_0),
                        ));
                        lemma_record_step(
                            outs,
                            serial.instances@,
                            i as int,
                            ItemOutcome::Saved,
                        );
                        outs = outs.push(ItemOutcome::Saved);
                        assert(outcome_witnessed(
                            outs[i as int],
                            serial.instances@[i as int],
                            serial.thing,
                            *checker,
                            *saver,
                        ));
                    }
                    succeeded_id.push(instance.id);
                },
                Err(err) => {
                    match err {
                        NatureError::DaoEnvironmentError(msg) => {
                            let e = NatureError::DaoEnvironmentError(msg);
                            proof {
                                assert(e == saved_snap->Err_0);
                                assert(call_ensures(
                                    *saver,
                                    (&instance,),
                                    Result::<usize, NatureError>::Err(e),
                                ));
                                assert(batch_abort(
                                    outs,
                                    i as int,
                                    instance,
                                    serial.instances@,
                                    serial.thing,
                                    *checker,
                                    *saver,
                                    e,
                                ));
                            }
                            return Err(e);
                        },
                        NatureError::DaoDuplicated => {
                            proof {
                                lemma_ids_from_push(
                                    succeeded_id@,
                                    serial.instances@,
                                    instance.id,
                                    i as int,
                                );
                                assert(saved_snap == Result::<usize, NatureError>::Err(
                                    NatureError::DaoDuplicated,
                                ));
                                lemma_record_step(
                                    outs,
                                    serial.instances@,
                                    i as int,
                                    ItemOutcome::AlreadySaved,
                                );
                                outs = outs.push(ItemOutcome::AlreadySaved);
                                assert(outcome_witnessed(
                                    outs[i as int],
                                    serial.instances@[i as int],
                                    serial.thing,
                                    *checker,
                                    *saver,
                                ));
                            }
                            succeeded_id.push(instance.id);
                        },
                        other => {
                            let ghost e0 = other;
                            errors.push(other.message());
                            proof {
                                assert(saved_snap == Result::<usize, NatureError>::Err(e0));
                                lemma_record_step(
                                    outs,
                                    serial.instances@,
                                    i as int,
                                    ItemOutcome::SaveFailed(e0),
                                );
                                outs = outs.push(ItemOutcome::SaveFailed(e0));
                                assert(outcome_witnessed(
                                    outs[i as int],
                                    serial.instances@[i as int],
                                    serial.thing,
                                    *checker,
                                    *saver,
                                ));
                            }
                        },
                    }
                },
            }
            i = i + 1;
        }
        let fin = SerialFinished { succeeded_id, errors };
        proof {
            assert(serial.instances@.take(serial.instances@.len() as int)
                =~= serial.instances@);
            assert(batch_account(
                outs,
                serial.instances@,
                serial.thing,
                *checker,
                *saver,
                fin,
            ));
        }
        Ok(fin)
    }
}

/// The folding step of the batch identifier: position-sensitive and
/// truncated to 128 bits.
pub open spec fn batch_step(acc: u128, id: u128) -> u128 {
    (((((acc * 31) % 0x1_0000_0000_0000_0000_0000_0000_0000_0000int) + id)
        % 0x1_0000_0000_0000_0000_0000_0000_0000_0000int) as u128)
}

/// The deterministic identifier of a serial batch: a fold of the
/// constituent identifiers, so that the same batch always synthesizes the
/// same snapshot.
pub open spec fn batch_id_spec(ids: Seq<u128>) -> u128
    decreases ids.len(),
{
    if ids.len() == 0 {
        0
    } else {
        batch_step(batch_id_spec(ids.drop_last()), ids.last())
    }
}

impl Instance {
    /// Builds the synthetic snapshot that stands for a whole serial
    /// batch: every member is validated as a business submission, and the
    /// batch snapshot's identifier is derived deterministically from the
    /// members' identifiers.
    pub fn new_batch_for_serial(batch: &mut SerialBatchInstance) -> (r: Result<
        Instance,
        NatureError,
    >)
        ensures
            final(batch).context_for_finish == old(batch).context_for_finish,
            final(batch).ignore_error == old(batch).ignore_error,
            final(batch).instance@.len() == old(batch).instance@.len(),
            forall|k: int|
                0 <= k < old(batch).instance@.len() ==> final(batch).instance@[k].data@ == old(
                    batch,
                ).instance@[k].data@,
            forall|k: int|
                0 <= k < old(batch).instance@.len() && old(batch).instance@[k].id != 0 ==> (
                #[trigger] final(batch).instance@[k]).id == old(batch).instance@[k].id,
            match r {
                Ok(inst) => {
                    &&& (forall|k: int|
                        0 <= k < old(batch).instance@.len() ==> crate::store::valid_submission(
                            #[trigger] old(batch).instance@[k],
                            Root::Business,
                        ))
                    &&& inst.id == batch_id_spec(
                        final(batch).instance@.map_values(|x: Instance| x.id),
                    )
                    &&& inst.data.thing.key@ == "/sys/batch/serial"@
                    &&& inst.data.thing.version == 1
                    &&& inst.data.thing.thing_type is System
                    &&& inst.data.content@.len() == 0
                    &&& inst.data.context@.len() == 0
                    &&& inst.data.status@.len() == 0
                    &&& inst.data.status_version == 0
                    &&& inst.wf()
                },
                Err(e) => e is VerifyError && exists|k: int|
                    0 <= k < old(batch).instance@.len() && !crate::store::valid_submission(
                        #[trigger] old(batch).instance@[k],
                        Root::Business,
                    ),
            },
    {
        let mut i: usize = 0;
        while i < batch.instance.len()
            invariant
                i <= batch.instance.len(),
                batch.context_for_finish == old(batch).context_for_finish,
                batch.ignore_error == old(batch).ignore_error,
                batch.instance@.len() == old(batch).instance@.len(),
                forall|k: int|
                    0 <= k < old(batch).instance@.len() ==> batch.instance@[k].data@ == old(
                        batch,
                    ).instance@[k].data@,
                forall|k: int|
                    0 <= k < old(batch).instance@.len() && old(batch).instance@[k].id != 0 ==> (
                    #[trigger] batch.instance@[k]).id == old(batch).instance@[k].id,
                forall|k: int|
                    0 <= k < i ==> crate::store::valid_submission(
                        #[trigger] old(batch).instance@[k],
                        Root::Business,
                    ),
            decreases batch.instance.len() - i,
        {
            let mut member = batch.instance[i].clone();
            let ghost before = member;
            match member.validate(Root::Business) {
                Ok(_) => {},
                Err(e) => {
                    proof {
                        assert(!crate::store::valid_submission(
                            old(batch).instance@[i as int],
                            Root::Business,
                        ));
                    }
                    return Err(e);
                },
            }
            proof {
                assert(crate::store::valid_submission(before, Root::Business));
                assert(crate::store::valid_submission(
                    old(batch).instance@[i as int],
                    Root::Business,
                ));
            }
            batch.instance.set(i, member);
            proof {
                assert(batch.instance@[i as int].data@ == old(batch).instance@[i as int].data@);
            }
            i = i + 1;
        }
        // the batch snapshot's identifier follows from the members'
        let mut acc: u128 = 0;
        let mut k: usize = 0;
        while k < batch.instance.len()
            invariant
                k <= batch.instance.len(),
                acc == batch_id_spec(
                    batch.instance@.take(k as int).map_values(|x: Instance| x.id),
                ),
            decreases batch.instance.len() - k,
        {
            let id = batch.instance[k].id;
            acc = acc.wrapping_mul(31).wrapping_add(id);
            proof {
                let pre = batch.instance@.take(k as int).map_values(|x: Instance| x.id);
                let cur = batch.instance@.take(k + 1 as int).map_values(|x: Instance| x.id);
                assert(cur.drop_last() =~= pre);
                assert(cur.last() == id);
            }
            k = k + 1;
        }
        proof {
            assert(batch.instance@.take(batch.instance@.len() as int) =~= batch.instance@);
        }
        let time = now_millis();
        Ok(
            Instance {
                id: acc,
                data: InstanceNoID {
                    thing: Thing {
                        key: "/sys/batch/serial".to_owned(),
                        version: 1,
                        thing_type: ThingType::System,
                    },
                    event_time: time,
                    execute_time: time,
                    create_time: time,
                    content: String::new(),
                    context: Vec::new(),
                    status: Vec::new(),
                    status_version: 0,
                },
            },
        )
    }
}

} // verus!
