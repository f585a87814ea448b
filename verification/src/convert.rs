//! Executor dispatch: builds the call-out parameter record for one
//! conversion and resolves the executor by the mission's protocol. A
//! local conversion runs in-process; a remote one is handed back as a
//! directive for the transport layer to perform; an unknown protocol is
//! refused outright, never attempted.

use vstd::prelude::*;
use crate::domain::{
    CallOutParameter, ConverterParameter, ConverterReturned, Instance, Mission, NatureError,
    Protocol,
};
use crate::text::str_eq;
use crate::timer::time_range;

verus! {

/// A conversion task: the snapshot to convert and its prior status
/// snapshot, if the stream is stateful.
#[derive(Debug)]
pub struct TaskForConvert {
    pub from: Instance,
    pub last_status: Option<Instance>,
}

/// What a dispatch decided: a conversion already performed in-process,
/// or a remote call for the transport layer to make.
#[derive(Debug)]
pub enum CallOut {
    /// The conversion ran locally; this is its result.
    Done(ConverterReturned),
    /// Call this target over the wire with this parameter record.
    Remote(String, CallOutParameter),
}

/// Copies a prior status snapshot.
fn clone_last_status(v: &Option<Instance>) -> (r: Option<Instance>)
    ensures
        match (r, v) {
            (Option::Some(a), Option::Some(b)) => a@ == b@,
            (Option::None, Option::None) => true,
            _ => false,
        },
{
    match v {
        Some(i) => Some(i.clone()),
        None => None,
    }
}

/// Runs a conversion with a built-in converter. The only converter
/// installed is the time-window generator, under the name `timer`; any
/// other target is a logical error.
pub fn local_execute(url: &str, para: &ConverterParameter) -> (r: ConverterReturned)
    ensures
        url@ != "timer"@ ==> r is LogicalError,
        r matches ConverterReturned::Instances(v) ==> url@ == "timer"@ && v@.len() == 1,
{
    if str_eq(url, "timer") {
        time_range(para)
    } else {
        ConverterReturned::LogicalError("no such local converter".to_owned())
    }
}

/// Builds call-out parameter records and dispatches them by protocol.
pub struct CallOutParaWrapper;

impl CallOutParaWrapper {
    /// The static protocol table: local and HTTP executors exist; any
    /// other protocol is refused without being attempted.
    pub fn get_executer(protocol: &Protocol) -> (r: Result<Protocol, NatureError>)
        ensures
            match protocol {
                Protocol::Http => r == Ok::<Protocol, NatureError>(Protocol::Http),
                Protocol::LocalRust => r == Ok::<Protocol, NatureError>(Protocol::LocalRust),
                Protocol::Rpc => r matches Err(e) && e is ConverterProtocolError,
            },
    {
        match protocol {
            Protocol::Http => Ok(Protocol::Http),
            Protocol::LocalRust => Ok(Protocol::LocalRust),
            Protocol::Rpc => Err(
                NatureError::ConverterProtocolError(
                    "did not implement this protocol".to_owned(),
                ),
            ),
        }
    }

    /// Builds the parameter record from the originating snapshot, its
    /// prior status and the carrier identifier (for deduplication on the
    /// remote side), and dispatches by the mission's protocol: a local
    /// mission is executed here; an HTTP mission becomes a remote
    /// directive; an unknown protocol is an error and nothing runs.
    pub fn gen_and_call_out(task: &TaskForConvert, carrier_id: u128, mission: &Mission) -> (r:
        Result<CallOut, NatureError>)
        ensures
            match mission.executor.protocol {
                Protocol::Rpc => r matches Err(e) && e is ConverterProtocolError,
                Protocol::Http => r matches Ok(c) && (c matches CallOut::Remote(u, p)
                    && u@ == mission.executor.url@ && p.from@ == task.from@
                    && p.carrier_id == carrier_id && (match (p.last_status, task.last_status) {
                    (Option::Some(a), Option::Some(b)) => a@ == b@,
                    (Option::None, Option::None) => true,
                    _ => false,
                })),
                Protocol::LocalRust => r matches Ok(c) && (c matches CallOut::Done(cr)
                    && (mission.executor.url@ != "timer"@ ==> cr is LogicalError)
                    && (cr matches ConverterReturned::Instances(v2) ==> v2@.len() == 1)),
            },
    {
        let para = CallOutParameter {
            from: task.from.clone(),
            last_status: clone_last_status(&task.last_status),
            carrier_id,
        };
        let executer = match Self::get_executer(&mission.executor.protocol) {
            Ok(p) => p,
            Err(e) => {
                return Err(e);
            },
        };
        match executer {
            Protocol::Http => Ok(CallOut::Remote(mission.executor.url.clone(), para)),
            Protocol::LocalRust => {
                let cp = ConverterParameter {
                    from: para.from,
                    cfg: mission.settings.clone(),
                    last_status: para.last_status,
                };
                Ok(CallOut::Done(local_execute(mission.executor.url.as_str(), &cp)))
            },
            Protocol::Rpc => Err(
                NatureError::ConverterProtocolError(
                    "did not implement this protocol".to_owned(),
                ),
            ),
        }
    }
}

} // verus!
