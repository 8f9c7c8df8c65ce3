//! Connectivity monitoring for tunnel peers: the dump parser, the staleness
//! rule, the per-peer transition tracker and the notification payloads.

use vstd::prelude::*;
use vstd::string::*;
use crate::config::{lookup, find_key, Config};
use crate::error::Error;
use crate::notifications::{
    active, dispatch, is_discord_delivery, is_pushover_delivery, Delivery, Event, NotificationData,
    ProviderError,
};
use crate::net::{ignored, is_ignored};
use crate::wg::{entry_views, option_view, ClientData, ClientDataView, WgEntry, WgEntryView};

pub mod config;
pub mod error;
pub mod logging;
pub mod net;
pub mod notifications;
pub mod text;
pub mod wg;

verus! {

/// Whether a peer counts as disconnected.
#[derive(Debug, Clone, Copy)]
pub struct Status {
    pub is_disconnected: bool,
}

impl Default for Status {
    fn default() -> (r: Self)
        ensures
            !r.is_disconnected,
    {
        Status { is_disconnected: false }
    }
}

/// What is remembered of one peer between two cycles.
#[derive(Debug)]
pub struct PeerState {
    pub public_key: String,
    pub last_handshake: u64,
    pub last_known_endpoint: Option<String>,
    pub last_status: Status,
}

pub struct PeerStateView {
    pub last_handshake: u64,
    pub last_known_endpoint: Option<Seq<char>>,
    pub is_disconnected: bool,
}

impl View for PeerState {
    type V = PeerStateView;

    open spec fn view(&self) -> PeerStateView {
        PeerStateView {
            last_handshake: self.last_handshake,
            last_known_endpoint: option_view(self.last_known_endpoint),
            is_disconnected: self.last_status.is_disconnected,
        }
    }
}

/// The staleness rule: a peer is disconnected when more than seven keepalive
/// intervals have passed since its latest handshake.
pub open spec fn is_stale(latest_handshake: u64, keepalive: u64, now: u64) -> bool {
    now - latest_handshake > keepalive * 7
}

/// The event that a change of status raises. A peer without an earlier status
/// raises none.
pub open spec fn transition(previous: Option<bool>, current: bool) -> Option<Event> {
    match previous {
        None => None,
        Some(p) => if p == current {
            None
        } else if current {
            Some(Event::Disconnect)
        } else {
            Some(Event::Connect)
        },
    }
}

/// The endpoint that stands for a peer: the one it reports, else the one
/// remembered.
pub open spec fn effective_endpoint(
    reported: Option<Seq<char>>,
    remembered: Option<Seq<char>>,
) -> Option<Seq<char>> {
    match reported {
        Some(e) => Some(e),
        None => remembered,
    }
}

pub open spec fn remembered_endpoint(previous: Option<PeerStateView>) -> Option<Seq<char>> {
    match previous {
        Some(p) => p.last_known_endpoint,
        None => None,
    }
}

pub open spec fn previous_status(previous: Option<PeerStateView>) -> Option<bool> {
    match previous {
        Some(p) => Some(p.is_disconnected),
        None => None,
    }
}

/// What is remembered of a peer after a cycle that saw `record` at `now`.
pub open spec fn next_state(previous: Option<PeerStateView>, record: ClientDataView, now: u64)
    -> PeerStateView {
    PeerStateView {
        last_handshake: record.latest_handshake,
        last_known_endpoint: effective_endpoint(record.endpoint, remembered_endpoint(previous)),
        is_disconnected: is_stale(record.latest_handshake, record.persistent_keepalive, now),
    }
}

/// The name a peer is shown under: its display name with the key in
/// brackets, or the key alone.
pub open spec fn friendly_name_of(names: Seq<(String, String)>, key: Seq<char>) -> Seq<char> {
    match lookup(names, key) {
        Some(name) => name@ + " ("@ + key + ")"@,
        None => key,
    }
}

/// The text of an endpoint in a message; `?` where none is known.
pub open spec fn endpoint_text(endpoint: Option<Seq<char>>) -> Seq<char> {
    match endpoint {
        Some(e) => e,
        None => "?"@,
    }
}

pub open spec fn message_of(name: Seq<char>, endpoint: Option<Seq<char>>, event: Event) -> Seq<
    char,
> {
    "Client "@ + name + " using endpoint "@ + endpoint_text(endpoint) + match event {
        Event::Disconnect => " has disconnected"@,
        Event::Connect => " has connected"@,
    }
}

/// The transition that a sighting of `record` at `now` raises, with its
/// message, given what was remembered of the peer.
pub open spec fn event_of(
    names: Seq<(String, String)>,
    previous: Option<PeerStateView>,
    record: ClientDataView,
    now: u64,
) -> Option<(Event, Seq<char>)> {
    match transition(
        previous_status(previous),
        is_stale(record.latest_handshake, record.persistent_keepalive, now),
    ) {
        None => None,
        Some(event) => Some(
            (
                event,
                message_of(
                    friendly_name_of(names, record.public_key),
                    effective_endpoint(record.endpoint, remembered_endpoint(previous)),
                    event,
                ),
            ),
        ),
    }
}

/// The transition that is handed on for delivery: none where the record's
/// endpoint lies in an ignored range.
pub open spec fn delivered_of(
    conf: Config,
    previous: Option<PeerStateView>,
    record: ClientDataView,
    now: u64,
) -> Option<(Event, Seq<char>)> {
    if ignored(conf.ignore_ipv4s@, record.endpoint) {
        None
    } else {
        event_of(conf.friendly_names@, previous, record, now)
    }
}

/// Whether `r` tells of exactly the transition `model`.
pub open spec fn tells(r: Option<NotificationData>, model: Option<(Event, Seq<char>)>) -> bool {
    match model {
        None => r is None,
        Some(m) => r matches Some(n) && n.event == m.0 && n.msg@ == m.1,
    }
}

/// What a map remembers of one peer.
pub open spec fn remembered(peers: Map<Seq<char>, PeerStateView>, key: Seq<char>) -> Option<
    PeerStateView,
> {
    if peers.dom().contains(key) {
        Some(peers[key])
    } else {
        None
    }
}

/// What is remembered after a cycle over `entries` at `now`: every client
/// row, in order, replaces what was remembered of its key.
pub open spec fn peers_after(
    start: Map<Seq<char>, PeerStateView>,
    entries: Seq<WgEntryView>,
    now: u64,
) -> Map<Seq<char>, PeerStateView>
    decreases entries.len(),
{
    if entries.len() == 0 {
        start
    } else {
        let peers = peers_after(start, entries.drop_last(), now);
        match entries.last() {
            WgEntryView::Client(c) => peers.insert(
                c.public_key,
                next_state(remembered(peers, c.public_key), c, now),
            ),
            WgEntryView::Server(_) => peers,
        }
    }
}

/// The transitions that a cycle over `entries` at `now` hands on for
/// delivery, in the order of the rows.
pub open spec fn deliveries_of(
    conf: Config,
    start: Map<Seq<char>, PeerStateView>,
    entries: Seq<WgEntryView>,
    now: u64,
) -> Seq<(Event, Seq<char>)>
    decreases entries.len(),
{
    if entries.len() == 0 {
        seq![]
    } else {
        let earlier = deliveries_of(conf, start, entries.drop_last(), now);
        let peers = peers_after(start, entries.drop_last(), now);
        match entries.last() {
            WgEntryView::Client(c) => match delivered_of(
                conf,
                remembered(peers, c.public_key),
                c,
                now,
            ) {
                Some(d) => earlier.push(d),
                None => earlier,
            },
            WgEntryView::Server(_) => earlier,
        }
    }
}

/// The event and text of each notification.
pub open spec fn notification_views(v: Seq<NotificationData>) -> Seq<(Event, Seq<char>)> {
    Seq::new(v.len(), |i: int| (v[i].event, v[i].msg@))
}

/// The status of a client record at `now`.
pub fn evaluate(data: &ClientData, now: u64) -> (r: Status)
    ensures
        r.is_disconnected == is_stale(data.latest_handshake, data.persistent_keepalive, now),
{
    if now <= data.latest_handshake {
        return Status { is_disconnected: false };
    }
    let elapsed: u64 = now - data.latest_handshake;
    if data.persistent_keepalive > u64::MAX / 7 {
        return Status { is_disconnected: false };
    }
    let threshold: u64 = data.persistent_keepalive * 7;
    Status { is_disconnected: elapsed > threshold }
}

pub struct Daemon {
    peers: Vec<PeerState>,
    conf: Config,
}

impl Daemon {
    /// No two remembered peers share a key.
    pub closed spec fn wf(&self) -> bool {
        forall|i: int, j: int|
            0 <= i < j < self.peers.len() ==> self.peers[i].public_key@
                != self.peers[j].public_key@
    }

    spec fn has_peer(&self, key: Seq<char>) -> bool {
        exists|i: int| 0 <= i < self.peers.len() && #[trigger] self.peers[i].public_key@ == key
    }

    spec fn peer_index(&self, key: Seq<char>) -> int {
        choose|i: int| 0 <= i < self.peers.len() && #[trigger] self.peers[i].public_key@ == key
    }

    /// What is remembered, by public key.
    pub closed spec fn peers(&self) -> Map<Seq<char>, PeerStateView> {
        Map::new(
            |key: Seq<char>| self.has_peer(key),
            |key: Seq<char>| self.peers[self.peer_index(key)]@,
        )
    }

    /// What is remembered of one peer.
    pub open spec fn peer(&self, key: Seq<char>) -> Option<PeerStateView> {
        remembered(self.peers(), key)
    }

    pub closed spec fn config(&self) -> Config {
        self.conf
    }

    pub fn new(conf: Config) -> (r: Self)
        ensures
            r.wf(),
            r.peers() == Map::<Seq<char>, PeerStateView>::empty(),
            r.config() == conf,
    {
        let r = Daemon { peers: Vec::new(), conf };
        assert(r.peers() =~= Map::<Seq<char>, PeerStateView>::empty());
        r
    }

    pub fn conf(&self) -> (r: &Config)
        ensures
            *r == self.config(),
    {
        &self.conf
    }

    /// The status of an entry at `now`. Only a client has one.
    pub fn status_of_entry(&self, entry: &WgEntry, now: u64) -> (r: Result<Status, Error>)
        ensures
            match entry {
                WgEntry::Client(data) => r matches Ok(s) && s.is_disconnected == is_stale(
                    data.latest_handshake,
                    data.persistent_keepalive,
                    now,
                ),
                WgEntry::Server(_) => r matches Err(Error::UnableToGetStatusOfEntry),
            },
    {
        match entry {
            WgEntry::Client(data) => Ok(evaluate(data, now)),
            WgEntry::Server(_) => Err(Error::UnableToGetStatusOfEntry),
        }
    }

    pub fn get_friendly_name(&self, pub_key: &str) -> (r: String)
        ensures
            r@ == friendly_name_of(self.config().friendly_names@, pub_key@),
    {
        let key = String::from_str(pub_key);
        match find_key(&self.conf.friendly_names, &key) {
            None => key,
            Some(i) => {
                let mut out = self.conf.friendly_names[i].1.clone();
                out.append(" (");
                out.append(pub_key);
                out.append(")");
                out
            },
        }
    }

    proof fn lemma_peer_at(&self, i: int)
        requires
            self.wf(),
            0 <= i < self.peers.len(),
        ensures
            self.has_peer(self.peers[i].public_key@),
            self.peer_index(self.peers[i].public_key@) == i,
            self.peer(self.peers[i].public_key@) == Some(self.peers[i]@),
    {
        let key = self.peers[i].public_key@;
        assert(self.has_peer(key));
        let c = self.peer_index(key);
        assert(0 <= c < self.peers.len() && self.peers[c].public_key@ == key);
        if c < i {
            assert(self.peers[c].public_key@ != self.peers[i].public_key@);
        }
        if i < c {
            assert(self.peers[i].public_key@ != self.peers[c].public_key@);
        }
    }

    /// What is remembered of one peer, if it was ever seen.
    pub fn peer_state(&self, key: &str) -> (r: Option<&PeerState>)
        requires
            self.wf(),
        ensures
            match self.peer(key@) {
                Some(p) => r matches Some(s) && s@ == p && s.public_key@ == key@,
                None => r is None,
            },
    {
        let k = String::from_str(key);
        match self.find_peer(&k) {
            Some(i) => Some(&self.peers[i]),
            None => None,
        }
    }

    fn find_peer(&self, key: &String) -> (r: Option<usize>)
        requires
            self.wf(),
        ensures
            match r {
                Some(i) => i < self.peers.len() && self.peers[i as int].public_key@ == key@
                    && self.peer(key@) == Some(self.peers[i as int]@),
                None => self.peer(key@) is None,
            },
    {
        let mut j: usize = 0;
        while j < self.peers.len()
            invariant
                self.wf(),
                j <= self.peers.len(),
                forall|i: int| 0 <= i < j ==> self.peers[i].public_key@ != key@,
            decreases self.peers.len() - j,
        {
            if self.peers[j].public_key == *key {
                proof {
                    self.lemma_peer_at(j as int);
                }
                return Some(j);
            }
            j = j + 1;
        }
        None
    }

    /// Putting one peer's state at `at`, in place of the state of the same key
    /// or behind all others where the key is new, changes the map at that key
    /// alone.
    proof fn lemma_put(before: &Daemon, after: &Daemon, at: int)
        requires
            before.wf(),
            0 <= at < after.peers.len(),
            at <= before.peers.len(),
            after.peers.len() == if at == before.peers.len() {
                before.peers.len() + 1
            } else {
                before.peers.len() as int
            },
            forall|i: int|
                0 <= i < before.peers.len() && i != at ==> after.peers[i] == before.peers[i],
            at < before.peers.len() ==> after.peers[at].public_key@
                == before.peers[at].public_key@,
            at == before.peers.len() ==> !before.has_peer(after.peers[at].public_key@),
        ensures
            after.wf(),
            after.peers() == before.peers().insert(
                after.peers[at].public_key@,
                after.peers[at]@,
            ),
    {
        let key = after.peers[at].public_key@;
        assert forall|i: int| 0 <= i < after.peers.len() implies (#[trigger] after.peers[i].public_key@
            == key) == (i == at) by {
            if i != at {
                if at < before.peers.len() {
                    if i < at {
                        assert(before.peers[i].public_key@ != before.peers[at].public_key@);
                    } else {
                        assert(before.peers[at].public_key@ != before.peers[i].public_key@);
                    }
                } else {
                    assert(before.peers[i].public_key@ != key);
                }
            }
        }
        assert forall|i: int, j: int| 0 <= i < j < after.peers.len() implies after.peers[i].public_key@
            != after.peers[j].public_key@ by {
            if i != at && j != at {
                assert(before.peers[i].public_key@ != before.peers[j].public_key@);
            }
        }
        assert(after.wf());
        let target = before.peers().insert(key, after.peers[at]@);
        assert forall|k: Seq<char>| after.peers().dom().contains(k) == target.dom().contains(
            k,
        ) by {
            if after.has_peer(k) {
                let c = after.peer_index(k);
                if c != at {
                    assert(before.peers[c].public_key@ == k);
                }
            }
            if before.has_peer(k) {
                let c = before.peer_index(k);
                if c != at {
                    assert(after.peers[c].public_key@ == k);
                } else {
                    assert(after.peers[at].public_key@ == k);
                }
            }
            if k == key {
                assert(after.peers[at].public_key@ == k);
            }
        }
        assert forall|k: Seq<char>| after.peers().dom().contains(k) implies after.peers()[k]
            == target[k] by {
            let c = after.peer_index(k);
            after.lemma_peer_at(c);
            if c != at {
                before.lemma_peer_at(c);
            }
        }
        assert(after.peers() =~= target);
    }

    /// Records one sighting of a client at `now` and tells of the change of
    /// status, if there was one. The peer's handshake, status and endpoint are
    /// remembered whether or not anything changed; a peer seen for the first
    /// time raises nothing.
    pub fn track(&mut self, data: &ClientData, now: u64) -> (r: Option<NotificationData>)
        requires
            old(self).wf(),
        ensures
            final(self).wf(),
            final(self).config() == old(self).config(),
            final(self).peers() == old(self).peers().insert(
                data.public_key@,
                next_state(old(self).peer(data.public_key@), data@, now),
            ),
            tells(
                r,
                event_of(
                    old(self).config().friendly_names@,
                    old(self).peer(data.public_key@),
                    data@,
                    now,
                ),
            ),
    {
        let ghost before = *self;
        let current = evaluate(data, now);
        match self.find_peer(&data.public_key) {
            None => {
                let state = PeerState {
                    public_key: data.public_key.clone(),
                    last_handshake: data.latest_handshake,
                    last_known_endpoint: clone_text(&data.endpoint),
                    last_status: current,
                };
                self.peers.push(state);
                proof {
                    Self::lemma_put(&before, self, before.peers.len() as int);
                }
                None
            },
            Some(i) => {
                let previous = self.peers[i].last_status.is_disconnected;
                let endpoint = match &data.endpoint {
                    Some(e) => Some(e.clone()),
                    None => clone_text(&self.peers[i].last_known_endpoint),
                };
                let event = if previous != current.is_disconnected {
                    let kind = if current.is_disconnected {
                        Event::Disconnect
                    } else {
                        Event::Connect
                    };
                    let name = self.get_friendly_name(data.public_key.as_str());
                    Some(NotificationData { msg: render_message(&name, &endpoint, kind), event: kind })
                } else {
                    None
                };
                let state = PeerState {
                    public_key: data.public_key.clone(),
                    last_handshake: data.latest_handshake,
                    last_known_endpoint: endpoint,
                    last_status: current,
                };
                self.peers.set(i, state);
                proof {
                    Self::lemma_put(&before, self, i as int);
                }
                event
            },
        }
    }

    /// The deliveries that tell of one transition, one for each provider that
    /// is configured and switched on.
    pub fn send_notification(&self, data: &NotificationData) -> (r: Vec<
        Result<Delivery, ProviderError>,
    >)
        ensures
            r@.len() == (if active(self.config(), "discord"@) {
                1int
            } else {
                0int
            }) + (if active(self.config(), "pushover"@) {
                1int
            } else {
                0int
            }),
            active(self.config(), "discord"@) ==> is_discord_delivery(
                r@[0],
                self.config(),
                data.event,
                data.msg@,
            ),
            active(self.config(), "pushover"@) ==> is_pushover_delivery(
                r@.last(),
                self.config(),
                data.event,
                data.msg@,
            ),
    {
        dispatch(&self.conf, data)
    }

    /// Whether a peer with this endpoint raises no notification.
    pub fn should_ignore(&self, endpoint: &Option<String>) -> (r: bool)
        ensures
            r == ignored(self.config().ignore_ipv4s@, option_view(*endpoint)),
    {
        is_ignored(&self.conf.ignore_ipv4s, endpoint)
    }

    /// Records one sighting of a client, as `track` does, and hands on the
    /// transition for delivery unless the record's endpoint is ignored: then
    /// the sighting is recorded all the same and nothing is handed on.
    pub fn observe(&mut self, data: &ClientData, now: u64) -> (r: Option<NotificationData>)
        requires
            old(self).wf(),
        ensures
            final(self).wf(),
            final(self).config() == old(self).config(),
            final(self).peers() == old(self).peers().insert(
                data.public_key@,
                next_state(old(self).peer(data.public_key@), data@, now),
            ),
            tells(
                r,
                delivered_of(old(self).config(), old(self).peer(data.public_key@), data@, now),
            ),
    {
        let event = self.track(data, now);
        if self.should_ignore(&data.endpoint) {
            None
        } else {
            event
        }
    }

    /// One cycle: records every client row of a dump, in order, and returns
    /// the transitions to deliver.
    pub fn run_int(&mut self, entries: &Vec<WgEntry>, now: u64) -> (r: Vec<NotificationData>)
        requires
            old(self).wf(),
        ensures
            final(self).wf(),
            final(self).config() == old(self).config(),
            final(self).peers() == peers_after(old(self).peers(), entry_views(entries@), now),
            notification_views(r@) == deliveries_of(
                old(self).config(),
                old(self).peers(),
                entry_views(entries@),
                now,
            ),
    {
        let ghost start = self.peers();
        let ghost conf = self.config();
        let ghost all = entry_views(entries@);
        let mut out: Vec<NotificationData> = Vec::new();
        let mut k: usize = 0;
        while k < entries.len()
            invariant
                self.wf(),
                self.config() == conf,
                k <= entries.len(),
                all == entry_views(entries@),
                self.peers() == peers_after(start, all.take(k as int), now),
                notification_views(out@) =~= deliveries_of(conf, start, all.take(k as int), now),
            decreases entries.len() - k,
        {
            proof {
                assert(all.take(k + 1).drop_last() =~= all.take(k as int));
                assert(all.take(k + 1).last() == entries[k as int]@);
            }
            let ghost before = notification_views(out@);
            match &entries[k] {
                WgEntry::Client(data) => {
                    match self.observe(data, now) {
                        Some(n) => {
                            out.push(n);
                            assert(notification_views(out@) =~= before.push((n.event, n.msg@)));
                        },
                        None => {},
                    }
                },
                WgEntry::Server(_) => {},
            }
            k = k + 1;
        }
        assert(all.take(k as int) =~= all);
        out
    }
}

fn clone_text(o: &Option<String>) -> (r: Option<String>)
    ensures
        option_view(r) == option_view(*o),
{
    match o {
        Some(s) => Some(s.clone()),
        None => None,
    }
}

/// Writes the message of a transition.
pub fn render_message(name: &String, endpoint: &Option<String>, event: Event) -> (r: String)
    ensures
        r@ == message_of(name@, option_view(*endpoint), event),
{
    let mut msg = String::from_str("Client ");
    msg.append(name.as_str());
    msg.append(" using endpoint ");
    match endpoint {
        Some(e) => {
            msg.append(e.as_str());
        },
        None => {
            msg.append("?");
        },
    }
    match event {
        Event::Disconnect => {
            msg.append(" has disconnected");
        },
        Event::Connect => {
            msg.append(" has connected");
        },
    }
    msg
}

/// A cycle over one client row records that row and hands on what the row
/// raises, if it raises anything.
pub proof fn lemma_one_row_cycle(
    conf: Config,
    start: Map<Seq<char>, PeerStateView>,
    record: ClientDataView,
    now: u64,
)
    ensures
        peers_after(start, seq![WgEntryView::Client(record)], now) == start.insert(
            record.public_key,
            next_state(remembered(start, record.public_key), record, now),
        ),
        deliveries_of(conf, start, seq![WgEntryView::Client(record)], now) == match delivered_of(
            conf,
            remembered(start, record.public_key),
            record,
            now,
        ) {
            Some(d) => seq![d],
            None => seq![],
        },
{
    let row = seq![WgEntryView::Client(record)];
    assert(row.drop_last() =~= Seq::<WgEntryView>::empty());
    assert(row.last() == WgEntryView::Client(record));
    assert(peers_after(start, row.drop_last(), now) == start);
    assert(deliveries_of(conf, start, row.drop_last(), now) =~= Seq::<(Event, Seq<char>)>::empty());
    match delivered_of(conf, remembered(start, record.public_key), record, now) {
        Some(d) => {
            assert(Seq::<(Event, Seq<char>)>::empty().push(d) =~= seq![d]);
        },
        None => {},
    }
}

/// A peer that was never seen raises no event on its first sighting, whatever
/// its status then is; the sighting is remembered.
pub proof fn lemma_first_sighting_is_silent(
    conf: Config,
    start: Map<Seq<char>, PeerStateView>,
    record: ClientDataView,
    now: u64,
)
    requires
        !start.dom().contains(record.public_key),
    ensures
        event_of(conf.friendly_names@, remembered(start, record.public_key), record, now) is None,
        deliveries_of(conf, start, seq![WgEntryView::Client(record)], now) == Seq::<
            (Event, Seq<char>),
        >::empty(),
        peers_after(start, seq![WgEntryView::Client(record)], now).dom().contains(
            record.public_key,
        ),
{
    lemma_one_row_cycle(conf, start, record, now);
}

/// Two sightings of one key in consecutive cycles: the second raises one
/// disconnect event where the status went from connected to disconnected, one
/// connect event where it went the other way, and no event where the status
/// stayed.
pub proof fn lemma_one_event_per_flip(
    conf: Config,
    start: Map<Seq<char>, PeerStateView>,
    first: ClientDataView,
    second: ClientDataView,
    earlier: u64,
    later: u64,
)
    requires
        first.public_key == second.public_key,
        !ignored(conf.ignore_ipv4s@, second.endpoint),
    ensures
        ({
            let was = is_stale(first.latest_handshake, first.persistent_keepalive, earlier);
            let stale = is_stale(second.latest_handshake, second.persistent_keepalive, later);
            let seen = peers_after(start, seq![WgEntryView::Client(first)], earlier);
            let raised = deliveries_of(conf, seen, seq![WgEntryView::Client(second)], later);
            &&& !was && stale ==> raised.len() == 1 && raised[0].0 == Event::Disconnect
            &&& was && !stale ==> raised.len() == 1 && raised[0].0 == Event::Connect
            &&& was == stale ==> raised.len() == 0
        }),
{
    lemma_one_row_cycle(conf, start, first, earlier);
    let seen = peers_after(start, seq![WgEntryView::Client(first)], earlier);
    lemma_one_row_cycle(conf, seen, second, later);
}

/// An endpoint sticks: where one cycle sees a peer with an endpoint and the
/// next sees it without, the message of the second cycle names the endpoint
/// of the first, and the endpoint stays remembered.
pub proof fn lemma_endpoint_sticks(
    conf: Config,
    start: Map<Seq<char>, PeerStateView>,
    first: ClientDataView,
    second: ClientDataView,
    earlier: u64,
    later: u64,
)
    requires
        first.public_key == second.public_key,
        first.endpoint is Some,
        second.endpoint is None,
    ensures
        ({
            let key = second.public_key;
            let seen = peers_after(start, seq![WgEntryView::Client(first)], earlier);
            let after = peers_after(seen, seq![WgEntryView::Client(second)], later);
            let raised = event_of(conf.friendly_names@, remembered(seen, key), second, later);
            &&& remembered(seen, key) matches Some(p) && p.last_known_endpoint == first.endpoint
            &&& remembered(after, key) matches Some(p) && p.last_known_endpoint == first.endpoint
            &&& raised matches Some(e) ==> e.1 == message_of(
                friendly_name_of(conf.friendly_names@, key),
                first.endpoint,
                e.0,
            )
        }),
{
    lemma_one_row_cycle(conf, start, first, earlier);
    let seen = peers_after(start, seq![WgEntryView::Client(first)], earlier);
    lemma_one_row_cycle(conf, seen, second, later);
}

/// A peer whose endpoint lies in an ignored range has nothing handed on for
/// delivery, and its sighting is recorded as any other.
pub proof fn lemma_ignored_is_recorded(
    conf: Config,
    start: Map<Seq<char>, PeerStateView>,
    record: ClientDataView,
    now: u64,
)
    requires
        ignored(conf.ignore_ipv4s@, record.endpoint),
    ensures
        deliveries_of(conf, start, seq![WgEntryView::Client(record)], now) == Seq::<
            (Event, Seq<char>),
        >::empty(),
        remembered(
            peers_after(start, seq![WgEntryView::Client(record)], now),
            record.public_key,
        ) == Some(next_state(remembered(start, record.public_key), record, now)),
{
    lemma_one_row_cycle(conf, start, record, now);
}

/// Nothing is forgotten: a peer that was remembered before a cycle is
/// remembered after it, whether or not the cycle saw it.
pub proof fn lemma_peers_stay(
    start: Map<Seq<char>, PeerStateView>,
    entries: Seq<WgEntryView>,
    now: u64,
    key: Seq<char>,
)
    requires
        start.dom().contains(key),
    ensures
        peers_after(start, entries, now).dom().contains(key),
    decreases entries.len(),
{
    if entries.len() > 0 {
        lemma_peers_stay(start, entries.drop_last(), now, key);
    }
}

/// The staleness rule at its boundary: a peer whose latest handshake lies
/// exactly seven keepalive intervals back is connected, and one second more
/// makes it disconnected.
pub proof fn lemma_stale_boundary(latest_handshake: u64, keepalive: u64, now: u64)
    ensures
        now - latest_handshake == keepalive * 7 ==> !is_stale(latest_handshake, keepalive, now),
        now - latest_handshake == keepalive * 7 + 1 ==> is_stale(latest_handshake, keepalive, now),
{
}

} // verus!
