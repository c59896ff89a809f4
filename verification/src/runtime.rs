//! Decisions of the sharded runtime: its limits, admission of submitted
//! events, the stable session-to-shard routing and the on-disk shard
//! layout. Queues, worker threads and files belong to the program.
use crate::charging::{Event, EventModel};
use crate::store::{Input, InputModel};
use crate::text::{decimal, push_decimal};
use vstd::prelude::*;
use vstd::utf8::encode_utf8;

verus! {

/// Why the runtime refused a configuration or a submission.
#[derive(Debug, Clone, Copy, PartialEq, Eq, Structural)]
pub enum RuntimeError {
    InvalidLimits,
    InvalidIdentifiers,
    SubscriberTooLong,
}

/// Seconds asked for in each credit request by the runtime's stores.
pub const RUNTIME_QUOTA: u32 = 60;

/// Runtime limits: 1 to 64 shards and queues of 1 to 65536 entries.
pub open spec fn valid_runtime_limits(shards: usize, queue: usize) -> bool {
    1 <= shards <= 64 && 1 <= queue <= 65536
}

/// Checks the runtime limits.
pub fn check_runtime_limits(shards: usize, queue: usize) -> (res: Result<(), RuntimeError>)
    ensures
        res is Ok <==> valid_runtime_limits(shards, queue),
        res matches Err(e) ==> e == RuntimeError::InvalidLimits,
{
    if 1 <= shards && shards <= 64 && 1 <= queue && queue <= 65536 {
        Ok(())
    } else {
        Err(RuntimeError::InvalidLimits)
    }
}

/// The 64-bit FNV-1a hash of `bytes`.
pub open spec fn fnv1a(bytes: Seq<u8>) -> u64
    decreases bytes.len(),
{
    if bytes.len() == 0 {
        0xcbf29ce484222325
    } else {
        (fnv1a(bytes.drop_last()) ^ (bytes.last() as u64)).wrapping_mul(0x100000001b3)
    }
}

/// The shard that serves a session: FNV-1a of its id, modulo the number of
/// shards. The same id always reaches the same shard.
pub open spec fn spec_shard(id: Seq<char>, shards: nat) -> nat {
    (fnv1a(encode_utf8(id)) as nat) % shards
}

/// Routes a session id to its shard.
pub fn shard_of(id: &str, shards: usize) -> (s: usize)
    requires
        shards > 0,
    ensures
        s == spec_shard(id@, shards as nat),
        s < shards,
{
    let bytes = id.as_bytes();
    let n = bytes.len();
    let mut hash: u64 = 0xcbf29ce484222325;
    let mut i: usize = 0;
    while i < n
        invariant
            n == bytes@.len(),
            bytes@ == encode_utf8(id@),
            i <= n,
            hash == fnv1a(bytes@.take(i as int)),
        decreases n - i,
    {
        assert(bytes@.take(i + 1).drop_last() =~= bytes@.take(i as int));
        hash = (hash ^ bytes[i] as u64).wrapping_mul(0x100000001b3);
        i = i + 1;
    }
    assert(bytes@.take(n as int) =~= bytes@);
    (hash % shards as u64) as usize
}

/// An admissible submission: session id of 1 to 200 bytes, event id of 1
/// to 100 bytes, and an initial subscriber of at most 32 bytes.
pub open spec fn spec_submission(input: InputModel) -> Result<(), RuntimeError> {
    if !(input.session_id.len() > 0 && encode_utf8(input.session_id).len() <= 200
        && input.event_id.len() > 0 && encode_utf8(input.event_id).len() <= 100) {
        Err(RuntimeError::InvalidIdentifiers)
    } else if input.event matches EventModel::InitialDp { subscriber } && encode_utf8(
        subscriber,
    ).len() > 32 {
        Err(RuntimeError::SubscriberTooLong)
    } else {
        Ok(())
    }
}

/// Immediate admission check before an event is queued.
pub fn check_submission(input: &Input) -> (res: Result<(), RuntimeError>)
    ensures
        res == spec_submission(input.deep_view()),
{
    let sid = input.session_id.as_str();
    let eid = input.event_id.as_str();
    if !(!sid.is_empty() && sid.as_bytes().len() <= 200 && !eid.is_empty() && eid.as_bytes().len()
        <= 100) {
        return Err(RuntimeError::InvalidIdentifiers);
    }
    if let Event::InitialDp { subscriber } = &input.event {
        if subscriber.as_str().as_bytes().len() > 32 {
            return Err(RuntimeError::SubscriberTooLong);
        }
    }
    Ok(())
}

/// The file name of shard `n`: `shard-n.redb`.
pub open spec fn shard_file(n: nat) -> Seq<char> {
    seq!['s', 'h', 'a', 'r', 'd', '-'] + decimal(n) + seq!['.', 'r', 'e', 'd', 'b']
}

/// Names the database file of shard `n`.
pub fn shard_file_name(n: usize) -> (name: String)
    ensures
        name@ == shard_file(n as nat),
{
    proof {
        reveal_strlit("shard-");
        reveal_strlit(".redb");
    }
    let mut name = "shard-".to_owned();
    push_decimal(&mut name, n);
    name.append(".redb");
    assert(name@ =~= shard_file(n as nat));
    name
}

/// The recorded shard count, as written to the runtime's manifest.
pub fn shard_count_text(shards: usize) -> (text: String)
    ensures
        text@ == decimal(shards as nat),
{
    let mut text = String::new();
    push_decimal(&mut text, shards);
    assert(text@ =~= decimal(shards as nat));
    text
}

/// Whether a manifest's (trimmed) text records this shard count. The
/// shard count is part of the on-disk format and cannot change on restart.
pub fn manifest_agrees(recorded: &str, shards: usize) -> (same: bool)
    ensures
        same == (recorded@ == decimal(shards as nat)),
{
    let expected = shard_count_text(shards);
    let r = recorded.to_owned();
    r.eq(&expected)
}

} // verus!
