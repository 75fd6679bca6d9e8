//! The outside crates that hold the agent's registries and channels.
//!
//! `DashMap` and the broadcast channel of tokio change behind a shared reference. Here they
//! are reached by exclusive reference alone, so a value of theirs changes only in the calls
//! below, and what it holds is a function of the value.
use crate::types::{AgentEvent, EventView, JobStatus, JobView};
use crate::ws_hub::{ChannelView, JobChannel};
use dashmap::DashMap;
use tokio::sync::broadcast;
use vstd::prelude::*;

verus! {

/// A concurrent hash map of the `dashmap` crate.
#[verifier::external_type_specification]
#[verifier::external_body]
#[verifier::reject_recursive_types(K)]
#[verifier::reject_recursive_types(V)]
#[verifier::reject_recursive_types(S)]
pub struct ExDashMap<K, V, S>(dashmap::DashMap<K, V, S>);

/// The sending half of a broadcast channel of tokio.
#[verifier::external_type_specification]
#[verifier::external_body]
#[verifier::reject_recursive_types(T)]
pub struct ExSender<T>(tokio::sync::broadcast::Sender<T>);

/// The receiving half of a broadcast channel of tokio.
#[verifier::external_type_specification]
#[verifier::external_body]
#[verifier::reject_recursive_types(T)]
pub struct ExReceiver<T>(tokio::sync::broadcast::Receiver<T>);

// ── Broadcast channels ──────────────────────────────────────────────────────

/// The events that have been handed to a sender, in order.
pub uninterp spec fn sent_events(tx: broadcast::Sender<AgentEvent>) -> Seq<EventView>;

/// The channel that a sender writes to.
pub uninterp spec fn channel_key(tx: broadcast::Sender<AgentEvent>) -> int;

/// The channel that a receiver reads from.
pub uninterp spec fn receiver_key(rx: broadcast::Receiver<AgentEvent>) -> int;

/// How many of the events that had been handed to its sender came before a receiver: it reads
/// those behind them.
pub uninterp spec fn receiver_start(rx: broadcast::Receiver<AgentEvent>) -> nat;

/// How many events the channel of a sender was made for. It holds at least as many, and a
/// listener that falls further behind may miss some.
pub uninterp spec fn channel_limit(tx: broadcast::Sender<AgentEvent>) -> usize;

/// `broadcast::channel`: a channel that nothing has gone through, made for `capacity` events, by
/// its sender. It is a new one, so it is none of those that a registry holds already: `_others`
/// is there to say of which registry. It panics on a capacity of zero and on one above half of
/// what `usize` holds.
#[verifier::external_body]
pub(crate) fn open_channel(
    capacity: usize,
    _others: &DashMap<String, JobChannel>,
) -> (tx: broadcast::Sender<AgentEvent>)
    requires
        0 < capacity <= usize::MAX / 2,
    ensures
        sent_events(tx) == Seq::<EventView>::empty(),
        channel_limit(tx) == capacity,
        (forall|job: Seq<char>| #[trigger]
            channel_keys_in(*_others).contains_key(job) ==> channel_keys_in(*_others)[job]
                != channel_key(tx)),
{
    broadcast::channel(capacity).0
}

/// `Sender::send`: hands the event to the channel of the sender, which gives it to those who
/// listen. That nobody listens is no failure here, so its result is dropped.
#[verifier::external_body]
pub(crate) fn send_event(tx: &mut broadcast::Sender<AgentEvent>, event: AgentEvent)
    ensures
        sent_events(*final(tx)) == sent_events(*old(tx)).push(event@),
        channel_key(*final(tx)) == channel_key(*old(tx)),
        channel_limit(*final(tx)) == channel_limit(*old(tx)),
{
    let _ = tx.send(event);
}

/// `Sender::subscribe`: a receiver on the channel of the sender, of what is sent from now on:
/// nothing that went before.
#[verifier::external_body]
pub(crate) fn listen(tx: &broadcast::Sender<AgentEvent>) -> (rx: broadcast::Receiver<AgentEvent>)
    ensures
        receiver_key(rx) == channel_key(*tx),
        receiver_start(rx) == sent_events(*tx).len(),
{
    tx.subscribe()
}

/// `Sender::clone`: another sender on the same channel.
#[verifier::external_body]
pub(crate) fn share_sender(tx: &broadcast::Sender<AgentEvent>) -> (r: broadcast::Sender<AgentEvent>)
    ensures
        channel_key(r) == channel_key(*tx),
        channel_limit(r) == channel_limit(*tx),
{
    tx.clone()
}

// ── The registry of channels ────────────────────────────────────────────────

/// What the channels of a registry hold, by job.
pub uninterp spec fn channels_in(m: DashMap<String, JobChannel>) -> Map<Seq<char>, ChannelView>;

/// Which channel each job of a registry has.
pub uninterp spec fn channel_keys_in(m: DashMap<String, JobChannel>) -> Map<Seq<char>, int>;

/// `DashMap::new`: a registry without channels.
#[verifier::external_body]
pub(crate) fn new_channels() -> (m: DashMap<String, JobChannel>)
    ensures
        (channels_in(m) == Map::<Seq<char>, ChannelView>::empty()),
        (channel_keys_in(m) == Map::<Seq<char>, int>::empty()),
{
    DashMap::new()
}

/// `DashMap::insert`: the key has the value, in place of what it had, and no other key changes.
#[verifier::external_body]
pub(crate) fn insert_channel(
    m: &mut DashMap<String, JobChannel>,
    job_id: String,
    channel: JobChannel,
)
    ensures
        channels_in(*final(m)) == channels_in(*old(m)).insert(job_id@, channel@),
        channel_keys_in(*final(m)) == channel_keys_in(*old(m)).insert(
            job_id@,
            channel_key(channel.tx),
        ),
{
    m.insert(job_id, channel);
}

/// `DashMap::remove`: takes the key out and returns the value that it had; no other key changes.
#[verifier::external_body]
pub(crate) fn remove_channel(m: &mut DashMap<String, JobChannel>, job_id: &str) -> (r: Option<
    JobChannel,
>)
    ensures
        channels_in(*final(m)) == channels_in(*old(m)).remove(job_id@),
        channel_keys_in(*final(m)) == channel_keys_in(*old(m)).remove(job_id@),
        r is Some <==> channels_in(*old(m)).contains_key(job_id@),
        r matches Some(c) ==> c@ == channels_in(*old(m))[job_id@] && channel_key(c.tx)
            == channel_keys_in(*old(m))[job_id@],
{
    m.remove(job_id).map(|entry| entry.1)
}

// ── The registry of jobs ────────────────────────────────────────────────────

/// The jobs of a registry, by their ids.
pub uninterp spec fn jobs_in(m: DashMap<String, JobStatus>) -> Map<Seq<char>, JobView>;

/// `DashMap::new`: a registry without jobs.
#[verifier::external_body]
pub(crate) fn new_jobs() -> (m: DashMap<String, JobStatus>)
    ensures
        (jobs_in(m) == Map::<Seq<char>, JobView>::empty()),
{
    DashMap::new()
}

/// `DashMap::insert`: the key has the value, in place of what it had, and no other key changes.
#[verifier::external_body]
pub(crate) fn insert_job(m: &mut DashMap<String, JobStatus>, job_id: String, job: JobStatus)
    ensures
        jobs_in(*final(m)) == jobs_in(*old(m)).insert(job_id@, job@),
{
    m.insert(job_id, job);
}

/// `DashMap::remove`: takes the key out and returns the value that it had; no other key changes.
#[verifier::external_body]
pub(crate) fn remove_job(m: &mut DashMap<String, JobStatus>, job_id: &str) -> (r: Option<JobStatus>)
    ensures
        jobs_in(*final(m)) == jobs_in(*old(m)).remove(job_id@),
        r is Some <==> jobs_in(*old(m)).contains_key(job_id@),
        r matches Some(j) ==> j@ == jobs_in(*old(m))[job_id@],
{
    m.remove(job_id).map(|entry| entry.1)
}

/// `DashMap::get`: a copy of the value that the key has, where it has one.
#[verifier::external_body]
pub(crate) fn get_job(m: &DashMap<String, JobStatus>, job_id: &str) -> (r: Option<JobStatus>)
    ensures
        r is Some <==> jobs_in(*m).contains_key(job_id@),
        r matches Some(j) ==> j@ == jobs_in(*m)[job_id@],
{
    m.get(job_id).map(|entry| entry.value().copy())
}

} // verus!
