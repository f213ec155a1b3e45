//! The cache of channels to the peers: at most one channel per peer, made on
//! first use, and dropped by a reset that is debounced per peer.
//!
//! The manager decides and keeps the books; it opens no connection itself. A
//! channel is known here by its identity. Whoever drives the manager opens the
//! channel when told to connect, reports back, and keeps the channel under
//! the identity that the manager gave it.

use crate::text::{decimal, decimal_string};
use crate::util::rpc_port;
use std::collections::HashMap;
use vstd::prelude::*;
use vstd::std_specs::iter::IteratorSpec;
use vstd::string::StringExecFns;

verus! {

/// The identity of a channel. Every channel that a manager makes has its own.
pub type ChannelId = u64;

/// The debounce window of a reset where none is configured, in milliseconds.
pub const DEFAULT_DEBOUNCE_MS: u64 = 300;

/// The state of the channel cache of one node.
pub struct ChannelManager {
    current_node: u32,
    channels: HashMap<u32, ChannelId>,
    endpoints: HashMap<u32, String>,
    reset_timers: HashMap<u32, u64>,
    debounce: u64,
    issued: u64,
}

/// What a [`ChannelManager`] holds: the node's own index, the channel of each
/// peer that has one, the endpoint of each known peer, the time of each peer's
/// last effective reset, the debounce window, and how many channels it has
/// made so far.
pub struct ChannelManagerView {
    pub current_node: u32,
    pub channels: Map<u32, ChannelId>,
    pub endpoints: Map<u32, Seq<char>>,
    pub reset_timers: Map<u32, u64>,
    pub debounce: u64,
    pub issued: u64,
}

/// What a lookup found: the channel to use, or the endpoint to which one is to
/// be opened.
pub enum ChannelStep {
    Cached(ChannelId),
    Connect(String),
}

/// A [`ChannelStep`] with the endpoint as a sequence of characters.
pub enum ChannelStepView {
    Cached(ChannelId),
    Connect(Seq<char>),
}

impl View for ChannelStep {
    type V = ChannelStepView;

    open spec fn view(&self) -> ChannelStepView {
        match self {
            ChannelStep::Cached(id) => ChannelStepView::Cached(*id),
            ChannelStep::Connect(endpoint) => ChannelStepView::Connect(endpoint@),
        }
    }
}

/// The time from `since` to `now` on a clock that never runs backwards; 0
/// where `now` is the earlier one.
pub open spec fn elapsed(since: u64, now: u64) -> int {
    if now >= since {
        now - since
    } else {
        0
    }
}

/// The address of a peer's calls, or why there is none, given the peer's
/// endpoint as it was read: its host and its client port, or `None` where the
/// endpoint is no `ip:port`. The calls go to the port 80 above the client
/// port.
pub open spec fn connect_target_of(parsed: Option<(Seq<char>, u16)>) -> Result<Seq<char>, Seq<char>> {
    match parsed {
        Some((ip, port)) => if port + 80 <= u16::MAX {
            Ok("http://"@ + ip + ":"@ + decimal((port + 80) as nat))
        } else {
            Err("Invalid endpoint URL: port out of range"@)
        },
        None => Err("Invalid endpoint URL: not an ip:port address"@),
    }
}

/// The message for a peer without an endpoint.
pub open spec fn no_endpoint_message(node_id: u32) -> Seq<char> {
    "No endpoint registered for node: "@ + decimal(node_id as nat)
}

impl ChannelManagerView {
    /// A manager that has made no channel yet.
    pub open spec fn initial(current_node: u32, endpoints: Map<u32, Seq<char>>, debounce: u64) -> Self {
        ChannelManagerView {
            current_node,
            channels: Map::empty(),
            endpoints,
            reset_timers: Map::empty(),
            debounce,
            issued: 0,
        }
    }

    /// Channels are kept for known peers only, no two peers share one, and
    /// every identity in use is one that this manager has given out.
    pub open spec fn wf(self) -> bool {
        &&& forall|n: u32| #[trigger]
            self.channels.contains_key(n) ==> self.endpoints.contains_key(n) && self.channels[n]
                < self.issued
        &&& forall|n: u32, m: u32|
            #![trigger self.channels.contains_key(n), self.channels.contains_key(m)]
            self.channels.contains_key(n) && self.channels.contains_key(m) && n != m
                ==> self.channels[n] != self.channels[m]
    }

    /// Whether a reset of `node_id` at `now` falls into the debounce window of
    /// an earlier one.
    pub open spec fn debounced(self, node_id: u32, now: u64) -> bool {
        self.reset_timers.contains_key(node_id) && elapsed(self.reset_timers[node_id], now)
            < self.debounce
    }

    /// The manager after a reset of `node_id` at `now`: unchanged within the
    /// debounce window; else without a channel to that peer, and with `now` as
    /// the time of its last reset.
    pub open spec fn reset(self, node_id: u32, now: u64) -> Self {
        if self.debounced(node_id, now) {
            self
        } else {
            ChannelManagerView {
                channels: self.channels.remove(node_id),
                reset_timers: self.reset_timers.insert(node_id, now),
                ..self
            }
        }
    }

    /// What a lookup of `node_id` finds: the peer's channel where it has one,
    /// else its endpoint, else the message that it has none.
    pub open spec fn lookup(self, node_id: u32) -> Result<ChannelStepView, Seq<char>> {
        if self.channels.contains_key(node_id) {
            Ok(ChannelStepView::Cached(self.channels[node_id]))
        } else if self.endpoints.contains_key(node_id) {
            Ok(ChannelStepView::Connect(self.endpoints[node_id]))
        } else {
            Err(no_endpoint_message(node_id))
        }
    }

    /// Whether a new channel to `node_id` can be entered: the peer is known,
    /// has no channel, and an identity is left to give.
    pub open spec fn connectable(self, node_id: u32) -> bool {
        &&& self.endpoints.contains_key(node_id)
        &&& !self.channels.contains_key(node_id)
        &&& self.issued < u64::MAX
    }

    /// The manager after a new channel to `node_id` was entered, under the
    /// next identity.
    pub open spec fn connected(self, node_id: u32) -> Self {
        ChannelManagerView {
            channels: self.channels.insert(node_id, self.issued),
            issued: (self.issued + 1) as u64,
            ..self
        }
    }
}

/// A reset outside the debounce window drops the peer's channel, and the
/// channel that is made for the peer afterwards is not the one that it had
/// before, nor that of any other peer.
pub proof fn lemma_reset_renews_channel(manager: ChannelManagerView, node_id: u32, now: u64)
    requires
        manager.wf(),
        manager.channels.contains_key(node_id),
        !manager.debounced(node_id, now),
        manager.issued < u64::MAX,
    ensures
        manager.reset(node_id, now).wf(),
        !manager.reset(node_id, now).channels.contains_key(node_id),
        manager.reset(node_id, now).connectable(node_id),
        manager.reset(node_id, now).connected(node_id).wf(),
        manager.reset(node_id, now).connected(node_id).channels[node_id]
            != manager.channels[node_id],
        manager.reset(node_id, now).debounced(node_id, now) <==> manager.debounce > 0,
{
}

/// A reset within the debounce window of an earlier one changes nothing: the
/// peer keeps its channel.
pub proof fn lemma_debounced_reset_keeps_channel(manager: ChannelManagerView, node_id: u32, now: u64)
    requires
        manager.debounced(node_id, now),
    ensures
        manager.reset(node_id, now) == manager,
{
}

/// After an effective reset at `first`, every further reset of the same peer
/// before `first + debounce` is without effect.
pub proof fn lemma_later_resets_debounced(
    manager: ChannelManagerView,
    node_id: u32,
    first: u64,
    later: u64,
)
    requires
        !manager.debounced(node_id, first),
        first <= later < first + manager.debounce,
    ensures
        manager.reset(node_id, first).reset(node_id, later) == manager.reset(node_id, first),
{
}

/// Making channels and resetting them keeps the books in order.
pub proof fn lemma_steps_keep_wf(manager: ChannelManagerView, node_id: u32, now: u64)
    requires
        manager.wf(),
    ensures
        manager.reset(node_id, now).wf(),
        manager.connectable(node_id) ==> manager.connected(node_id).wf(),
{
}

impl View for ChannelManager {
    type V = ChannelManagerView;

    closed spec fn view(&self) -> ChannelManagerView {
        ChannelManagerView {
            current_node: self.current_node,
            channels: self.channels@,
            endpoints: self.endpoints@.map_values(|endpoint: String| endpoint@),
            reset_timers: self.reset_timers@,
            debounce: self.debounce,
            issued: self.issued,
        }
    }
}

impl ChannelManager {
    /// A manager for the node `current_node` and the given endpoints of the
    /// cluster, which debounces resets by `debounce`. The window is counted
    /// in the unit in which the times of the resets are given.
    pub fn new(current_node: u32, endpoints: HashMap<u32, String>, debounce: u64) -> (manager: Self)
        ensures
            manager@ == ChannelManagerView::initial(
                current_node,
                endpoints@.map_values(|endpoint: String| endpoint@),
                debounce,
            ),
            manager@.wf(),
    {
        ChannelManager {
            current_node,
            channels: HashMap::new(),
            endpoints,
            reset_timers: HashMap::new(),
            debounce,
            issued: 0,
        }
    }

    /// Looks up the channel to `node_id`: the cached one, or else the endpoint
    /// to connect to. Fails where the peer has no endpoint.
    pub fn get_or_create_lazy_channel(&self, node_id: u32) -> (r: Result<ChannelStep, String>)
        ensures
            match r {
                Ok(step) => self@.lookup(node_id) == Ok::<_, Seq<char>>(step@),
                Err(message) => self@.lookup(node_id) == Err::<ChannelStepView, _>(message@),
            },
    {
        match self.channels.get(&node_id) {
            Some(channel) => Ok(ChannelStep::Cached(*channel)),
            None => match self.endpoints.get(&node_id) {
                Some(endpoint) => Ok(ChannelStep::Connect(endpoint.clone())),
                None => {
                    let mut message = String::from_str("No endpoint registered for node: ");
                    message.append(decimal_string(node_id as usize).as_str());
                    Err(message)
                },
            },
        }
    }

    /// Enters the channel that was opened to `node_id` and returns its
    /// identity. Returns `None`, and changes nothing, where the peer is
    /// unknown or has a channel already, or where no identity is left.
    pub fn channel_connected(&mut self, node_id: u32) -> (id: Option<ChannelId>)
        requires
            old(self)@.wf(),
        ensures
            final(self)@.wf(),
            match id {
                Some(id) => {
                    &&& old(self)@.connectable(node_id)
                    &&& final(self)@ == old(self)@.connected(node_id)
                    &&& id == old(self)@.issued
                },
                None => !old(self)@.connectable(node_id) && final(self)@ == old(self)@,
            },
    {
        if self.issued == u64::MAX || self.channels.contains_key(&node_id)
            || !self.endpoints.contains_key(&node_id) {
            return None;
        }
        let id = self.issued;
        let ghost before = self@;
        self.channels.insert(node_id, id);
        self.issued = id + 1;
        proof {
            assert(self@ == before.connected(node_id));
        }
        Some(id)
    }

    /// Decides where to connect for a peer whose endpoint was read as
    /// `parsed`: its host and client port, or `None` where the endpoint is no
    /// `ip:port`. Fails where the endpoint is malformed or its port leaves no
    /// room for the port of the peer calls.
    pub fn connect_target(parsed: Option<(String, u16)>) -> (r: Result<String, String>)
        ensures
            match r {
                Ok(url) => connect_target_of(parsed.deep_view()) == Ok::<_, Seq<char>>(url@),
                Err(message) => connect_target_of(parsed.deep_view()) == Err::<Seq<char>, _>(message@),
            },
    {
        match parsed {
            Some((ip, port)) => match rpc_port(port) {
                Some(rpc) => {
                    let mut url = String::from_str("http://");
                    url.append(ip.as_str());
                    url.append(":");
                    url.append(decimal_string(rpc as usize).as_str());
                    assert(url@ =~= "http://"@ + ip@ + ":"@ + decimal((port + 80) as nat));
                    Ok(url)
                },
                None => Err(String::from_str("Invalid endpoint URL: port out of range")),
            },
            None => Err(String::from_str("Invalid endpoint URL: not an ip:port address")),
        }
    }

    /// The message for an endpoint that did not make a valid address.
    pub fn invalid_endpoint(reason: &str) -> (message: String)
        ensures
            message@ == "Invalid endpoint URL: "@ + reason@,
    {
        String::from_str("Invalid endpoint URL: ").concat(reason)
    }

    /// Resets the channel to `node_id` at the time `now`, a reading of a
    /// clock that does not run backwards, in the unit of the debounce window:
    /// the finer the unit, the sharper the window. Within the debounce window of
    /// the peer's last effective reset nothing happens. Otherwise the cached
    /// channel is dropped, so that the next lookup asks for a new one, and the
    /// window starts again. Returns whether the reset took effect.
    pub fn reset_channel(&mut self, node_id: u32, now: u64) -> (effective: bool)
        requires
            old(self)@.wf(),
        ensures
            final(self)@.wf(),
            effective == !old(self)@.debounced(node_id, now),
            final(self)@ == old(self)@.reset(node_id, now),
    {
        match self.reset_timers.get(&node_id) {
            Some(last_reset) => {
                let since: u64 = if now >= *last_reset {
                    now - *last_reset
                } else {
                    0
                };
                if since < self.debounce {
                    return false;
                }
            },
            None => {},
        }
        let ghost before = self@;
        self.channels.remove(&node_id);
        self.reset_timers.insert(node_id, now);
        proof {
            assert(self@ == before.reset(node_id, now));
        }
        true
    }

    /// The known peers that have no channel yet, each once.
    pub fn unconnected(&self) -> (peers: Vec<u32>)
        ensures
            peers@.no_duplicates(),
            forall|n: u32|
                peers@.contains(n) <==> self@.endpoints.contains_key(n)
                    && !self@.channels.contains_key(n),
    {
        proof {
            broadcast use vstd::std_specs::hash::axiom_spec_keys_iter;
        }
        let ghost keys = self.endpoints.keys().remaining();
        let mut peers: Vec<u32> = Vec::new();
        for key in it: self.endpoints.keys()
            invariant
                it.seq() == keys,
                keys.no_duplicates(),
                keys.unref().to_set() == self.endpoints@.dom(),
                peers@.no_duplicates(),
                forall|n: u32|
                    peers@.contains(n) <==> !self.channels@.contains_key(n) && exists|j: int|
                        0 <= j < it.index() && *(#[trigger] keys[j]) == n,
        {
            if !self.channels.contains_key(key) {
                let ghost before = peers@;
                let ghost index: int = it.index() as int;
                proof {
                    if before.contains(*key) {
                        let j: int = choose|j: int| 0 <= j < index && *(#[trigger] keys[j]) == *key;
                        assert(keys[j] == keys[index]);
                    }
                }
                peers.push(*key);
                proof {
                    assert forall|n: u32| peers@.contains(n) implies !self.channels@.contains_key(n)
                        && exists|j: int| 0 <= j < index + 1 && *(#[trigger] keys[j]) == n by {
                        let k: int = choose|k: int| 0 <= k < peers@.len() && peers@[k] == n;
                        if k < before.len() {
                            assert(before[k] == n);
                            assert(before.contains(n));
                        } else {
                            assert(*keys[index] == n);
                        }
                    }
                    assert forall|n: u32|
                        !self.channels@.contains_key(n) && (exists|j: int|
                            0 <= j < index + 1 && *(#[trigger] keys[j]) == n) implies peers@.contains(
                        n,
                    ) by {
                        let j: int = choose|j: int| 0 <= j < index + 1 && *(#[trigger] keys[j]) == n;
                        if j < index {
                            assert(before.contains(n));
                            let k: int = choose|k: int| 0 <= k < before.len() && before[k] == n;
                            assert(peers@[k] == n);
                        } else {
                            assert(peers@[before.len() as int] == n);
                        }
                    }
                }
            }
        }
        proof {
            assert forall|n: u32|
                peers@.contains(n) <==> self@.endpoints.contains_key(n)
                    && !self@.channels.contains_key(n) by {
                if peers@.contains(n) {
                    let j: int = choose|j: int| 0 <= j < keys.len() && *(#[trigger] keys[j]) == n;
                    assert(keys.unref()[j] == n);
                    assert(keys.unref().to_set().contains(n));
                }
                if self@.endpoints.contains_key(n) && !self@.channels.contains_key(n) {
                    assert(keys.unref().to_set().contains(n));
                    let j: int = choose|j: int| 0 <= j < keys.unref().len() && keys.unref()[j] == n;
                    assert(*keys[j] == n);
                }
            }
        }
        peers
    }

    /// This node's index and the channels that the manager holds now, per
    /// peer.
    pub fn get_all_channels(&self) -> (snapshot: (u32, HashMap<u32, ChannelId>))
        ensures
            snapshot.0 == self@.current_node,
            snapshot.1@ == self@.channels,
    {
        (self.current_node, self.channels.clone())
    }
}

} // verus!
