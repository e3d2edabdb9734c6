//! One tick of a feed job, as a state machine: the caller performs each
//! action it is handed (render an entry, send a message, write the record
//! back) and reports what came of it; every decision is taken here.
use vstd::prelude::*;
use crate::dedup::{Id, published, record_after, tick_record};
use crate::feed::{Feed, contains_id, copy_ids, fan_out, profiles_of, routed, tags_of};

verus! {

/// Where a tick stands.
#[derive(Debug)]
pub enum Phase {
    /// Waiting for the outcome of the feed fetch.
    Fetching,
    /// Waiting for the message rendered from the entry at this index.
    Rendering(usize),
    /// Waiting for the sends of the last message to be carried out.
    Publishing,
    /// The tick is over.
    Done,
}

/// What the caller reports.
pub enum TickEvent {
    /// The feed source returned these entry identifiers, in feed order.
    Fetched(Vec<String>),
    FetchFailed,
    /// The renderer produced this message body for the pending entry.
    Rendered(String),
    RenderFailed,
    /// The sends of the last `Publish` action were carried out.
    Sent,
}

/// What the caller is to do next.
#[derive(Debug)]
pub enum TickAction {
    /// Render the fetched entry at this index.
    Render(usize),
    /// Send `message` with `tags` to the client of each profile in `to`, and
    /// report each profile in `missing` as having no client.
    Publish { entry: usize, message: String, tags: Vec<String>, to: Vec<String>, missing: Vec<String> },
    /// Write this record back as the job's dedup record; the tick is over.
    Store(Vec<String>),
    /// The tick is over and the job's dedup record stays as it was.
    Stop,
}

/// The state of one tick.
pub struct Tick {
    /// The dedup record as this tick has built it so far.
    pub record: Vec<String>,
    /// The fetched entry identifiers.
    pub entries: Vec<String>,
    /// How many fetched entries have been dealt with.
    pub next: usize,
    pub cache_size: usize,
    pub tags: Vec<String>,
    pub profiles: Vec<String>,
    /// The profiles that have a publication client.
    pub registered: Vec<String>,
    pub phase: Phase,
    /// The dedup record that the tick started from.
    pub base: Ghost<Seq<Id>>,
    /// The entries handed out for publication so far, in order.
    pub sent: Ghost<Seq<Id>>,
}

/// The action and state that follow once `entries` are scanned from index
/// `from` on against `record`: the first one not in the record is to be
/// rendered; where there is none, the completed record is stored.
pub open spec fn scanned_from(record: Seq<Id>, entries: Seq<Id>, from: int, after: &Tick, action: TickAction) -> bool {
    &&& after.record_view() == record
    &&& after.entries_view() == entries
    &&& match action {
        TickAction::Render(j) => {
            &&& from <= j < entries.len()
            &&& after.phase == Phase::Rendering(j)
            &&& after.next == j
            &&& forall|k: int| from <= k < j ==> record.contains(#[trigger] entries[k])
        },
        TickAction::Store(r) => {
            &&& after.phase == Phase::Done
            &&& r.deep_view() == tick_record(after.base@, entries, after.cache_size as nat)
            &&& after.sent@ == published(after.base@, entries)
        },
        _ => false,
    }
}

impl Tick {
    pub open spec fn record_view(&self) -> Seq<Id> {
        self.record.deep_view()
    }

    pub open spec fn entries_view(&self) -> Seq<Id> {
        self.entries.deep_view()
    }

    /// The record holds what examining the entries dealt with so far made of
    /// the starting record.
    pub open spec fn wf(&self) -> bool {
        &&& self.next <= self.entries.len()
        &&& self.record_view() == record_after(self.base@, self.entries_view().take(self.next as int))
        &&& self.sent@ == published(self.base@, self.entries_view().take(self.next as int))
        &&& match self.phase {
            Phase::Fetching => self.next == 0,
            Phase::Rendering(i) => i == self.next && i < self.entries.len()
                && !self.record_view().contains(self.entries_view()[i as int]),
            Phase::Publishing => self.next > 0,
            Phase::Done => true,
        }
    }

    /// The action and state that follow once the entries from `next` on are
    /// scanned: the first one not in the record is to be rendered; where there
    /// is none, the completed record is stored.
    pub open spec fn scanned(&self, after: &Tick, action: TickAction) -> bool {
        scanned_from(self.record_view(), self.entries_view(), self.next as int, after, action)
    }

    /// What a tick hands back once an event is dealt with.
    pub open spec fn follows(&self, event: TickEvent, after: &Tick, action: TickAction) -> bool {
        &&& after.base == self.base
        &&& after.cache_size == self.cache_size
        &&& match (self.phase, event) {
            (Phase::Fetching, TickEvent::Fetched(ids)) => {
                &&& after.entries_view() == ids.deep_view()
                &&& scanned_from(self.record_view(), ids.deep_view(), 0, after, action)
            },
            (Phase::Rendering(i), TickEvent::Rendered(message)) => {
                let e = self.entries_view()[i as int];
                &&& after.phase == Phase::Publishing
                &&& after.next == i + 1
                &&& after.entries_view() == self.entries_view()
                &&& after.record_view() == seq![e] + self.record_view()
                &&& after.sent@ == self.sent@.push(e)
                &&& match action {
                    TickAction::Publish { entry, message: m, tags, to, missing } => {
                        &&& entry == i
                        &&& m == message
                        &&& tags.deep_view() == self.tags.deep_view()
                        &&& to.deep_view() == routed(self.profiles.deep_view(), self.registered.deep_view(), true)
                        &&& missing.deep_view() == routed(self.profiles.deep_view(), self.registered.deep_view(), false)
                    },
                    _ => false,
                }
            },
            (Phase::Publishing, TickEvent::Sent) => self.scanned(after, action),
            _ => action is Stop && after.phase == Phase::Done,
        }
    }

    /// A tick of `feed`'s job that starts from the job's dedup record and the
    /// profiles that have a client, and waits for the feed fetch.
    pub fn new(feed: &Feed, record: Vec<String>, registered: Vec<String>) -> (t: Tick)
        ensures
            t.wf(),
            t.phase == Phase::Fetching,
            t.sent@ == Seq::<Id>::empty(),
            t.base@ == record.deep_view(),
            t.record_view() == record.deep_view(),
            t.cache_size == feed.cache_size,
            t.tags.deep_view() == tags_of(feed.tags.deep_view()),
            t.profiles.deep_view() == profiles_of(feed.profiles.deep_view()),
            t.registered.deep_view() == registered.deep_view(),
    {
        let ghost base = record.deep_view();
        let t = Tick {
            record,
            entries: Vec::new(),
            next: 0,
            cache_size: feed.cache_size,
            tags: feed.tag_names(),
            profiles: feed.profile_ids(),
            registered,
            phase: Phase::Fetching,
            base: Ghost(base),
            sent: Ghost(Seq::empty()),
        };
        assert(t.entries_view().take(0) =~= Seq::<Id>::empty());
        t
    }

    /// Skips the entries from `next` on that the record holds.
    fn scan(&mut self) -> (action: TickAction)
        requires
            old(self).wf(),
        ensures
            final(self).wf(),
            old(self).scanned(final(self), action),
            final(self).base == old(self).base,
            final(self).cache_size == old(self).cache_size,
            final(self).tags == old(self).tags,
            final(self).profiles == old(self).profiles,
            final(self).registered == old(self).registered,
    {
        let ghost start = self.next;
        let mut found = false;
        while !found && self.next < self.entries.len()
            invariant
                found ==> self.next < self.entries.len()
                    && !self.record_view().contains(self.entries_view()[self.next as int]),
                start <= self.next <= self.entries.len(),
                self.record_view() == old(self).record_view(),
                self.entries == old(self).entries,
                self.base == old(self).base,
                self.sent == old(self).sent,
                self.cache_size == old(self).cache_size,
                self.tags == old(self).tags,
                self.profiles == old(self).profiles,
                self.registered == old(self).registered,
                self.record_view() == record_after(self.base@, self.entries_view().take(self.next as int)),
                self.sent@ == published(self.base@, self.entries_view().take(self.next as int)),
                start == old(self).next,
                forall|k: int| start <= k < self.next
                    ==> self.record_view().contains(#[trigger] self.entries_view()[k]),
            decreases self.entries.len() - self.next + if found { 0int } else { 1int },
        {
            if contains_id(&self.record, &self.entries[self.next]) {
                let ghost e = self.entries_view();
                assert(e.take(self.next + 1).drop_last() =~= e.take(self.next as int));
                self.next = self.next + 1;
            } else {
                found = true;
            }
        }
        if found {
            self.phase = Phase::Rendering(self.next);
            TickAction::Render(self.next)
        } else {
            assert(self.entries_view().take(self.next as int) =~= self.entries_view());
            self.phase = Phase::Done;
            let mut r = copy_ids(&self.record);
            r.truncate(self.cache_size);
            assert(r.deep_view() =~= tick_record(self.base@, self.entries_view(), self.cache_size as nat));
            TickAction::Store(r)
        }
    }

    /// Deals with what the caller reports and says what to do next. A fetch
    /// failure or a render failure ends the tick with the job's record left
    /// as it was; an event that the tick does not wait for ends it the same
    /// way.
    pub fn step(&mut self, event: TickEvent) -> (action: TickAction)
        requires
            old(self).wf(),
        ensures
            final(self).wf(),
            old(self).follows(event, final(self), action),
    {
        match event {
            TickEvent::Fetched(ids) => {
                if matches!(self.phase, Phase::Fetching) {
                    self.entries = ids;
                    self.next = 0;
                    self.sent = Ghost(Seq::empty());
                    assert(self.entries_view().take(0) =~= Seq::<Id>::empty());
                    return self.scan();
                }
            },
            TickEvent::Rendered(message) => {
                if let Phase::Rendering(i) = self.phase {
                    let ghost e = self.entries_view();
                    let ghost before = self.record_view();
                    let (to, missing) = fan_out(&self.profiles, &self.registered);
                    let id = self.entries[i].clone();
                    self.record.insert(0, id);
                    assert(self.record_view() =~= seq![e[i as int]] + before);
                    assert(e.take(i + 1).drop_last() =~= e.take(i as int));
                    self.next = i + 1;
                    self.sent = Ghost(self.sent@.push(e[i as int]));
                    self.phase = Phase::Publishing;
                    return TickAction::Publish { entry: i, message, tags: copy_ids(&self.tags), to, missing };
                }
            },
            TickEvent::Sent => {
                if matches!(self.phase, Phase::Publishing) {
                    return self.scan();
                }
            },
            _ => {},
        }
        self.phase = Phase::Done;
        TickAction::Stop
    }
}

} // verus!
