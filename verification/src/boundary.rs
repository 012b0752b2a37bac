use crate::errors::BridgeError;
use crate::views::Patch;
use vstd::prelude::*;

verus! {

/// The fixed set of named entry points the host runtime binds to. The set
/// and each point's return shape are a contract with the host's loader and
/// never change on one side alone.
#[derive(Clone, Copy, Debug, PartialEq, Eq, Structural)]
pub enum EntryPoint {
    CreateSnapshot,
    CreateFork,
    FreeView,
    ReadKey,
    WriteKey,
    RemoveKey,
    CommitFork,
}

/// A value crossing back over the boundary, of one of the return shapes the
/// entry points declare.
#[derive(Debug)]
pub enum ReturnValue {
    /// Nothing: freeing a view, a write, a removal.
    NoValue,
    /// A fresh handle: creating either kind of view.
    HandleValue(u64),
    /// A value or its absence: a key read.
    MaybeValue(Option<Vec<u8>>),
    /// A patch: a commit.
    PatchValue(Patch),
}

/// `r` has the return shape `entry` declares.
pub open spec fn shape_matches(entry: EntryPoint, r: ReturnValue) -> bool {
    match entry {
        EntryPoint::CreateSnapshot => r is HandleValue,
        EntryPoint::CreateFork => r is HandleValue,
        EntryPoint::FreeView => r is NoValue,
        EntryPoint::ReadKey => r is MaybeValue,
        EntryPoint::WriteKey => r is NoValue,
        EntryPoint::RemoveKey => r is NoValue,
        EntryPoint::CommitFork => r is PatchValue,
    }
}

/// `r` is the declared stub of `entry`: the fixed, type-correct value that
/// crosses back when a fault left no real result, since the calling
/// convention requires some value of the declared shape even then.
pub open spec fn is_stub(entry: EntryPoint, r: ReturnValue) -> bool {
    match entry {
        EntryPoint::CreateSnapshot => r == ReturnValue::HandleValue(0),
        EntryPoint::CreateFork => r == ReturnValue::HandleValue(0),
        EntryPoint::FreeView => r == ReturnValue::NoValue,
        EntryPoint::ReadKey => r == ReturnValue::MaybeValue(None::<Vec<u8>>),
        EntryPoint::WriteKey => r == ReturnValue::NoValue,
        EntryPoint::RemoveKey => r == ReturnValue::NoValue,
        EntryPoint::CommitFork => r matches ReturnValue::PatchValue(p) && p.wf() && p@ == Map::<
            Seq<u8>,
            Option<Seq<u8>>,
        >::empty(),
    }
}

/// The declared stub of `entry`.
pub fn stub_value(entry: EntryPoint) -> (r: ReturnValue)
    ensures
        is_stub(entry, r),
        shape_matches(entry, r),
{
    match entry {
        EntryPoint::CreateSnapshot => ReturnValue::HandleValue(0),
        EntryPoint::CreateFork => ReturnValue::HandleValue(0),
        EntryPoint::FreeView => ReturnValue::NoValue,
        EntryPoint::ReadKey => ReturnValue::MaybeValue(None),
        EntryPoint::WriteKey => ReturnValue::NoValue,
        EntryPoint::RemoveKey => ReturnValue::NoValue,
        EntryPoint::CommitFork => ReturnValue::PatchValue(Patch::empty()),
    }
}

/// Seal one boundary crossing. `outcome` is what the fault-capturing scope
/// around the native operation observed: `None` when the operation faulted
/// before producing a result, the fault's description having been captured
/// as `fault_message`; otherwise the operation's own result. The host
/// always receives exactly one value of the declared shape — the real
/// result unchanged on success, the declared stub beside exactly one error
/// otherwise — and a captured fault surfaces as `NativeFault`, never as
/// anything that could unwind further.
pub fn seal_outcome(
    entry: EntryPoint,
    outcome: Option<Result<ReturnValue, BridgeError>>,
    fault_message: String,
) -> (sealed: (ReturnValue, Option<BridgeError>))
    requires
        outcome matches Some(Ok(v)) ==> shape_matches(entry, v),
    ensures
        shape_matches(entry, sealed.0),
        outcome is None ==> is_stub(entry, sealed.0) && sealed.1 == Some(
            BridgeError::NativeFault { message: fault_message },
        ),
        outcome matches Some(Ok(v)) ==> sealed.0 == v && sealed.1 is None,
        outcome matches Some(Err(e)) ==> is_stub(entry, sealed.0) && sealed.1 == Some(e),
{
    match outcome {
        Some(Ok(v)) => (v, None),
        Some(Err(e)) => (stub_value(entry), Some(e)),
        None => (stub_value(entry), Some(BridgeError::NativeFault { message: fault_message })),
    }
}

} // verus!
