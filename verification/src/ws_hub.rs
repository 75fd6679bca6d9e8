//! Mailbox of the events of each job, towards the pages that listen.
//!
//! A page may drop its connection and come back in the middle of a job, and it always connects
//! a moment after it asked for the job. So besides the live channel the hub keeps the last
//! event of each job, and hands it to whoever subscribes before anything new arrives.
use crate::outside::{
    channel_key, channel_keys_in, channel_limit, channels_in, insert_channel, listen, new_channels,
    open_channel, receiver_key, receiver_start, remove_channel, send_event, sent_events, share_sender,
};
use crate::types::{AgentEvent, EventView};
use dashmap::DashMap;
use tokio::sync::broadcast;
use vstd::prelude::*;

verus! {

/// Events that a slow listener may fall behind before it misses some.
pub const CHANNEL_CAPACITY: usize = 128;

/// The channel of one job.
pub struct JobChannel {
    pub tx: broadcast::Sender<AgentEvent>,
    /// The last event published, for the next page that subscribes.
    pub last_event: Option<AgentEvent>,
}

/// What has gone through the channel of a job, and what it replays.
#[verifier::ext_equal]
pub struct ChannelView {
    pub sent: Seq<EventView>,
    pub last: Option<EventView>,
    /// How many events it was made for.
    pub limit: usize,
}

/// The channels of the hub, by job.
pub type HubView = Map<Seq<char>, ChannelView>;

/// A channel that nothing has gone through.
pub open spec fn fresh_channel() -> ChannelView {
    ChannelView { sent: Seq::empty(), last: None, limit: CHANNEL_CAPACITY }
}

impl View for JobChannel {
    type V = ChannelView;

    open spec fn view(&self) -> ChannelView {
        ChannelView {
            sent: sent_events(self.tx),
            last: match self.last_event {
                Some(e) => Some(e@),
                None => None,
            },
            limit: channel_limit(self.tx),
        }
    }
}

impl EventView {
    /// The job that the event is about.
    pub open spec fn job(self) -> Seq<char> {
        match self {
            EventView::Queued { job_id } => job_id,
            EventView::ModelDownload { job_id, .. } => job_id,
            EventView::Preprocess { job_id, .. } => job_id,
            EventView::Started { job_id, .. } => job_id,
            EventView::Progress { job_id, .. } => job_id,
            EventView::Diarizing { job_id } => job_id,
            EventView::Uploading { job_id } => job_id,
            EventView::UploadPending { job_id } => job_id,
            EventView::Completed { job_id, .. } => job_id,
            EventView::Failed { job_id, .. } => job_id,
        }
    }
}

/// The job that an event is about.
pub fn job_id_of(event: &AgentEvent) -> (r: &str)
    ensures
        r@ == event@.job(),
{
    match event {
        AgentEvent::Queued { job_id } => job_id.as_str(),
        AgentEvent::ModelDownload { job_id, .. } => job_id.as_str(),
        AgentEvent::Preprocess { job_id, .. } => job_id.as_str(),
        AgentEvent::Started { job_id, .. } => job_id.as_str(),
        AgentEvent::Progress { job_id, .. } => job_id.as_str(),
        AgentEvent::Diarizing { job_id } => job_id.as_str(),
        AgentEvent::Uploading { job_id } => job_id.as_str(),
        AgentEvent::UploadPending { job_id } => job_id.as_str(),
        AgentEvent::Completed { job_id, .. } => job_id.as_str(),
        AgentEvent::Failed { job_id, .. } => job_id.as_str(),
    }
}

/// The hub once `job` has a channel: the one it had, or a fresh one.
pub open spec fn with_channel(hub: HubView, job: Seq<char>) -> HubView {
    if hub.contains_key(job) {
        hub
    } else {
        hub.insert(job, fresh_channel())
    }
}

/// The hub once `event` has been published.
pub open spec fn published(hub: HubView, event: EventView) -> HubView {
    let before = with_channel(hub, event.job())[event.job()];
    hub.insert(
        event.job(),
        ChannelView { sent: before.sent.push(event), last: Some(event), ..before },
    )
}

/// What a page that subscribes to `job` is told at once.
pub open spec fn replayed(hub: HubView, job: Seq<char>) -> Option<EventView> {
    with_channel(hub, job)[job].last
}

/// Every channel replays the last event that went through it, and was made for as many events
/// as all of them.
pub open spec fn replays_last(hub: HubView) -> bool {
    forall|job: Seq<char>| #[trigger]
        hub.contains_key(job) ==> hub[job].last == (if hub[job].sent.len() == 0 {
            None::<EventView>
        } else {
            Some(hub[job].sent.last())
        }) && hub[job].limit == CHANNEL_CAPACITY
}

/// Only events of its own job go through a channel.
pub open spec fn own_events(hub: HubView) -> bool {
    forall|job: Seq<char>, i: int|
        hub.contains_key(job) && 0 <= i < hub[job].sent.len() ==> (
        #[trigger] hub[job].sent[i]).job() == job
}

/// What holds of the channels of a hub at all times.
pub open spec fn hub_sound(hub: HubView) -> bool {
    &&& replays_last(hub)
    &&& own_events(hub)
}

/// Every job has a channel of its own.
pub open spec fn apart(hub: HubView, keys: Map<Seq<char>, int>) -> bool {
    &&& keys.dom() == hub.dom()
    &&& forall|a: Seq<char>, b: Seq<char>|
        hub.contains_key(a) && hub.contains_key(b) && a != b ==> #[trigger] keys[a]
            != #[trigger] keys[b]
}

/// The other jobs keep their channels, and `job` keeps the one that it had, where it had one.
pub open spec fn channels_kept(
    hub: HubView,
    before: Map<Seq<char>, int>,
    after: Map<Seq<char>, int>,
    job: Seq<char>,
) -> bool {
    &&& after.remove(job) =~= before.remove(job)
    &&& hub.contains_key(job) ==> after[job] == before[job]
}

/// What someone hears who listens to `job` behind the first `start` events of it.
pub open spec fn heard(hub: HubView, job: Seq<char>, start: nat) -> Seq<EventView> {
    hub[job].sent.skip(start as int)
}

/// The channels of all jobs.
pub struct WsHub {
    channels: DashMap<String, JobChannel>,
}

impl View for WsHub {
    type V = HubView;

    closed spec fn view(&self) -> HubView {
        channels_in(self.channels)
    }
}

impl WsHub {
    /// Which channel each job has: a sender and its receivers share it.
    pub closed spec fn keys(&self) -> Map<Seq<char>, int> {
        channel_keys_in(self.channels)
    }

    /// Every job has a channel of its own, which only its events go through, and which replays
    /// the last of them.
    pub open spec fn wf(&self) -> bool {
        hub_sound(self@) && apart(self@, self.keys())
    }

    /// A hub without channels.
    pub fn new() -> (r: WsHub)
        ensures
            r.wf(),
            r@ == Map::<Seq<char>, ChannelView>::empty(),
    {
        WsHub { channels: new_channels() }
    }

    /// Takes the channel of `job_id` out of the hub; a fresh one where it has none.
    fn channel(&mut self, job_id: &str) -> (r: JobChannel)
        requires
            old(self).wf(),
        ensures
            final(self).wf(),
            forall|job: Seq<char>| #[trigger]
                final(self).keys().contains_key(job) ==> final(self).keys()[job] != channel_key(
                    r.tx,
                ),
            final(self)@ == old(self)@.remove(job_id@),
            final(self).keys() == old(self).keys().remove(job_id@),
            r@ == with_channel(old(self)@, job_id@)[job_id@],
            old(self)@.contains_key(job_id@) ==> channel_key(r.tx) == old(self).keys()[job_id@],
    {
        match remove_channel(&mut self.channels, job_id) {
            Some(channel) => channel,
            None => JobChannel { 
                tx: open_channel(CHANNEL_CAPACITY, &self.channels),
                last_event: None,
            },
        }
    }

    /// Puts the channel of `job_id` back.
    fn put(&mut self, job_id: &str, channel: JobChannel)
        ensures
            final(self)@ == old(self)@.insert(job_id@, channel@),
            final(self).keys() == old(self).keys().insert(job_id@, channel_key(channel.tx)),
    {
        insert_channel(&mut self.channels, job_id.to_string(), channel);
    }

    /// A sender of the events of `job_id`. Whoever holds one keeps the channel open.
    pub fn sender(&mut self, job_id: &str) -> (r: broadcast::Sender<AgentEvent>)
        requires
            old(self).wf(),
        ensures
            final(self).wf(),
            final(self)@ == with_channel(old(self)@, job_id@),
            channel_key(r) == final(self).keys()[job_id@],
            channels_kept(old(self)@, old(self).keys(), final(self).keys(), job_id@),
    {
        let channel = self.channel(job_id);
        let tx = share_sender(&channel.tx);
        self.put(job_id, channel);
        assert(self@ =~= with_channel(old(self)@, job_id@));
        tx
    }

    /// Subscribes to `job_id`: the receiver of what is published from now on, and the last
    /// event that was published, where there was one.
    pub fn subscribe(&mut self, job_id: &str) -> (r: (
        broadcast::Receiver<AgentEvent>,
        Option<AgentEvent>,
    ))
        requires
            old(self).wf(),
        ensures
            final(self).wf(),
            final(self)@ == with_channel(old(self)@, job_id@),
            receiver_key(r.0) == final(self).keys()[job_id@],
            receiver_start(r.0) == final(self)@[job_id@].sent.len(),
            channels_kept(old(self)@, old(self).keys(), final(self).keys(), job_id@),
            (match r.1 {
                Some(e) => Some(e@),
                None => None,
            }) == replayed(old(self)@, job_id@),
    {
        let channel = self.channel(job_id);
        let last = match &channel.last_event {
            Some(e) => Some(e.copy()),
            None => None,
        };
        let rx = listen(&channel.tx);
        self.put(job_id, channel);
        assert(self@ =~= with_channel(old(self)@, job_id@));
        (rx, last)
    }

    /// Publishes an event: it becomes the one that the channel of its job replays, and it goes
    /// to whoever listens.
    pub fn publish(&mut self, event: AgentEvent)
        requires
            old(self).wf(),
        ensures
            final(self).wf(),
            final(self)@ == published(old(self)@, event@),
            channels_kept(old(self)@, old(self).keys(), final(self).keys(), event@.job()),
    {
        let job_id = job_id_of(&event).to_string();
        let mut channel = self.channel(job_id.as_str());
        channel.last_event = Some(event.copy());
        send_event(&mut channel.tx, event);
        self.put(job_id.as_str(), channel);
        assert(self@ =~= published(old(self)@, event@));
    }

    /// Drops the channel of a job that ended. Whoever listens is told that it closed.
    pub fn close(&mut self, job_id: &str)
        requires
            old(self).wf(),
        ensures
            final(self).wf(),
            final(self)@ == old(self)@.remove(job_id@),
            final(self).keys() == old(self).keys().remove(job_id@),
    {
        let _ = remove_channel(&mut self.channels, job_id);
    }
}

/// Whatever happened before, a page that subscribes to a job right after an event of that job
/// was published is told that event, and what the other jobs replay stays as it was.
pub proof fn last_event_is_replayed(hub: HubView, event: EventView, other: Seq<char>)
    ensures
        replayed(published(hub, event), event.job()) == Some(event),
        other != event.job() ==> replayed(published(hub, event), other) == replayed(hub, other),
        hub_sound(hub) ==> hub_sound(published(hub, event)),
{
}

/// A job that was closed starts over: nothing of it is replayed.
pub proof fn closed_job_replays_nothing(hub: HubView, job: Seq<char>, other: Seq<char>)
    ensures
        replayed(hub.remove(job), job) == None::<EventView>,
        other != job ==> replayed(hub.remove(job), other) == replayed(hub, other),
{
}

/// Of what the hub publishes, whoever listens to a job is handed the events of that job from then
/// on, each once and in order, and nothing else: nothing that went before, so that the event
/// which is told at once is not heard again, and nothing of another job. Who reads so slowly that
/// more events wait than the channel was made for may miss the oldest of them.
pub proof fn listeners_hear_what_follows(
    hub: HubView,
    keys: Map<Seq<char>, int>,
    job: Seq<char>,
    start: nat,
    event: EventView,
    other: Seq<char>,
)
    requires
        hub_sound(hub),
        apart(hub, keys),
        hub.contains_key(job),
        start <= hub[job].sent.len(),
    ensures
        heard(hub, job, hub[job].sent.len()) == Seq::<EventView>::empty(),
        heard(published(hub, event), job, start) == (if event.job() == job {
            heard(hub, job, start).push(event)
        } else {
            heard(hub, job, start)
        }),
        other != job ==> heard(with_channel(hub, other), job, start) == heard(hub, job, start),
        other != job ==> heard(hub.remove(other), job, start) == heard(hub, job, start),
        forall|i: int|
            0 <= i < heard(hub, job, start).len() ==> (#[trigger] heard(hub, job, start)[i]).job()
                == job,
        hub.contains_key(other) && keys[other] == keys[job] ==> other == job,
{
    if event.job() == job {
        assert(heard(published(hub, event), job, start) =~= heard(hub, job, start).push(event));
    }
}

/// An event goes through the channel of its own job, behind those before it, and is the one that
/// this channel replays; a job without a channel gets one. The other channels stay as they were.
pub proof fn an_event_goes_to_its_job(hub: HubView, event: EventView, other: Seq<char>)
    ensures
        ({
            let after = published(hub, event);
            let id = event.job();
            let had = hub.contains_key(id);
            &&& after.contains_key(id)
            &&& after[id].last == Some(event)
            &&& after[id].sent.len() > 0 && after[id].sent.last() == event
            &&& had ==> after[id].sent.drop_last() == hub[id].sent && after[id].limit
                == hub[id].limit
            &&& !had ==> after[id].sent.len() == 1 && after[id].limit == 128
            &&& other != id ==> (after.contains_key(other) <==> hub.contains_key(other))
            &&& other != id && hub.contains_key(other) ==> after[other] == hub[other]
        }),
        ({
            let open = with_channel(hub, other);
            &&& open.contains_key(other)
            &&& hub.contains_key(other) ==> open == hub
            &&& !hub.contains_key(other) ==> open[other].sent.len() == 0 && open[other].last is None
                && open[other].limit == 128 && open.remove(other) == hub.remove(other)
        }),
{
    let id = event.job();
    if hub.contains_key(id) {
        assert(published(hub, event)[id].sent.drop_last() =~= hub[id].sent);
    }
    if !hub.contains_key(other) {
        assert(with_channel(hub, other).remove(other) =~= hub.remove(other));
    }
}

/// Every event belongs to the job that it names.
pub proof fn events_belong_to_the_jobs_they_name(e: EventView)
    ensures
        match e {
            EventView::Queued { job_id } => e.job() == job_id,
            EventView::ModelDownload { job_id, .. } => e.job() == job_id,
            EventView::Preprocess { job_id, .. } => e.job() == job_id,
            EventView::Started { job_id, .. } => e.job() == job_id,
            EventView::Progress { job_id, .. } => e.job() == job_id,
            EventView::Diarizing { job_id } => e.job() == job_id,
            EventView::Uploading { job_id } => e.job() == job_id,
            EventView::UploadPending { job_id } => e.job() == job_id,
            EventView::Completed { job_id, .. } => e.job() == job_id,
            EventView::Failed { job_id, .. } => e.job() == job_id,
        },
{
}

/// Who begins to listen is told the last event of the job at once, and of a job of which nothing
/// was published nothing.
pub proof fn a_late_listener_is_told_the_last_event(hub: HubView, job: Seq<char>)
    requires
        hub_sound(hub),
    ensures
        hub.contains_key(job) && hub[job].sent.len() > 0 ==> replayed(hub, job) == Some(
            hub[job].sent.last(),
        ),
        !hub.contains_key(job) || hub[job].sent.len() == 0 ==> replayed(hub, job) is None,
{
}

} // verus!
