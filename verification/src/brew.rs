//! Brew: the messages that clients send, and what the server keeps about clients, subscribers,
//! groups, calls and SDS transfers.
//!
//! Client and call identifiers are UUIDs, held as 128-bit numbers.
use crate::addr::SocketAddress;
use crate::table::{KeySet, Table};
use vstd::prelude::*;

verus! {

/// A point in time, on the wall clock and on the monotonic clock.
#[derive(Clone, Copy)]
pub struct Now {
    /// Milliseconds since the epoch.
    pub epoch_ms: u64,
    /// Nanoseconds on a clock that never goes back.
    pub mono_ns: u128,
}

/// What a connected client is.
#[derive(Clone, Copy, Debug, PartialEq, Eq, Structural)]
pub enum ClientMode {
    /// A mobile station, or the virtual client of a SIP call.
    Terminal,
    /// A gateway for the mobile stations of one site.
    Basestation,
    /// Another server.
    Peer,
}

impl Default for ClientMode {
    fn default() -> (r: Self)
        ensures
            r == ClientMode::Basestation,
    {
        ClientMode::Basestation
    }
}

/// A connected client.
#[derive(Clone, Copy, Debug, PartialEq, Eq, Structural)]
pub struct Client {
    pub mode: ClientMode,
    /// Where the client connected from; virtual clients have no address.
    pub remote_addr: Option<SocketAddress>,
    /// The protocol version that the connection is known to speak.
    pub version: u8,
}

impl View for Client {
    type V = Client;

    open spec fn view(&self) -> Client {
        *self
    }
}

/// A registered subscriber.
pub struct Subscriber {
    /// The client through which the subscriber is reached.
    pub client_id: u128,
    pub groups: KeySet<u32>,
    pub mode: ClientMode,
}

/// The contents of a `Subscriber`.
#[verifier::ext_equal]
pub struct SubscriberView {
    pub client_id: u128,
    pub groups: Set<u32>,
    pub mode: ClientMode,
}

impl View for Subscriber {
    type V = SubscriberView;

    open spec fn view(&self) -> SubscriberView {
        SubscriberView { client_id: self.client_id, groups: self.groups@, mode: self.mode }
    }
}

/// Whether a call is between two subscribers or to a group.
#[derive(Clone, Copy, Debug, PartialEq, Eq, Structural)]
pub enum CallKind {
    Private,
    Group,
}

/// A call in progress.
pub struct ActiveCall {
    pub kind: CallKind,
    /// The client that set the call up.
    pub owner: u128,
    pub source_issi: u32,
    pub destination: u32,
    pub priority: u8,
    /// The other clients in the call.
    pub peers: KeySet<u128>,
    /// When the call started (monotonic nanoseconds).
    pub started_at: u128,
    /// When a frame or call control was last seen (milliseconds since the epoch).
    pub last_activity_ms: u64,
}

/// The contents of an `ActiveCall`.
#[verifier::ext_equal]
pub struct CallView {
    pub kind: CallKind,
    pub owner: u128,
    pub source_issi: u32,
    pub destination: u32,
    pub priority: u8,
    pub peers: Set<u128>,
    pub started_at: u128,
    pub last_activity_ms: u64,
}

impl View for ActiveCall {
    type V = CallView;

    open spec fn view(&self) -> CallView {
        CallView {
            kind: self.kind,
            owner: self.owner,
            source_issi: self.source_issi,
            destination: self.destination,
            priority: self.priority,
            peers: self.peers@,
            started_at: self.started_at,
            last_activity_ms: self.last_activity_ms,
        }
    }
}

impl CallView {
    /// The call once activity was seen at `now`.
    pub open spec fn touched(self, now: Now) -> CallView {
        CallView { last_activity_ms: now.epoch_ms, ..self }
    }

    /// Every client in the call.
    pub open spec fn participants(self) -> Set<u128> {
        self.peers.insert(self.owner)
    }
}

/// How far `later` is after `earlier`, 0 where it is not after it.
pub open spec fn since(earlier: int, later: int) -> int {
    if later > earlier {
        later - earlier
    } else {
        0
    }
}

impl ActiveCall {
    /// Takes note of activity.
    pub fn touch(&mut self, now: Now)
        ensures
            final(self)@ == old(self)@.touched(now),
    {
        self.last_activity_ms = now.epoch_ms;
    }

    /// Milliseconds since the last activity.
    pub fn idle_ms(&self, now: Now) -> (r: u64)
        ensures
            r == since(self@.last_activity_ms as int, now.epoch_ms as int),
    {
        now.epoch_ms.saturating_sub(self.last_activity_ms)
    }

    /// Nanoseconds since the call started.
    pub fn elapsed_ns(&self, now: Now) -> (r: u128)
        ensures
            r == since(self@.started_at as int, now.mono_ns as int),
    {
        now.mono_ns.saturating_sub(self.started_at)
    }
}

/// Where the parts of one SDS go.
pub struct SdsRoute {
    pub source_client: u128,
    pub targets: KeySet<u128>,
    pub source_issi: u32,
    pub destination: u32,
    /// When the header came in (monotonic nanoseconds).
    pub created_at: u128,
}

/// The contents of an `SdsRoute`.
#[verifier::ext_equal]
pub struct SdsRouteView {
    pub source_client: u128,
    pub targets: Set<u128>,
    pub source_issi: u32,
    pub destination: u32,
    pub created_at: u128,
}

impl View for SdsRoute {
    type V = SdsRouteView;

    open spec fn view(&self) -> SdsRouteView {
        SdsRouteView {
            source_client: self.source_client,
            targets: self.targets@,
            source_issi: self.source_issi,
            destination: self.destination,
            created_at: self.created_at,
        }
    }
}

/// What the server keeps about the Brew side.
pub struct BrewState {
    pub clients: Table<u128, Client>,
    /// By ISSI.
    pub subscribers: Table<u32, Subscriber>,
    /// The clients with a subscriber in the group, by GSSI.
    pub group_clients: Table<u32, KeySet<u128>>,
    /// The call that has the floor of the group, by GSSI.
    pub group_floor: Table<u32, u128>,
    pub calls: Table<u128, ActiveCall>,
    pub sds_routes: Table<u128, SdsRoute>,
}

/// The contents of a `BrewState`.
#[verifier::ext_equal]
pub struct BrewView {
    pub clients: Map<u128, Client>,
    pub subscribers: Map<u32, SubscriberView>,
    pub group_clients: Map<u32, Set<u128>>,
    pub group_floor: Map<u32, u128>,
    pub calls: Map<u128, CallView>,
    pub sds_routes: Map<u128, SdsRouteView>,
}

impl View for BrewState {
    type V = BrewView;

    open spec fn view(&self) -> BrewView {
        BrewView {
            clients: self.clients@,
            subscribers: self.subscribers@,
            group_clients: self.group_clients@,
            group_floor: self.group_floor@,
            calls: self.calls@,
            sds_routes: self.sds_routes@,
        }
    }
}

impl BrewState {
    /// A server with no clients.
    pub fn new() -> (r: Self)
        ensures
            r@ == (BrewView {
                clients: Map::empty(),
                subscribers: Map::empty(),
                group_clients: Map::empty(),
                group_floor: Map::empty(),
                calls: Map::empty(),
                sds_routes: Map::empty(),
            }),
    {
        BrewState {
            clients: Table::new(),
            subscribers: Table::new(),
            group_clients: Table::new(),
            group_floor: Table::new(),
            calls: Table::new(),
            sds_routes: Table::new(),
        }
    }

    /// The mode of a client, Basestation where it is not connected.
    pub fn client_mode(&self, id: u128) -> (r: ClientMode)
        ensures
            r == self@.mode_of(id),
    {
        match self.clients.get(&id) {
            Some(c) => c.mode,
            None => ClientMode::default(),
        }
    }
}

impl BrewView {
    /// The mode of a client, Basestation where it is not connected.
    pub open spec fn mode_of(self, id: u128) -> ClientMode {
        if self.clients.contains_key(id) {
            self.clients[id].mode
        } else {
            ClientMode::Basestation
        }
    }

    /// The clients that have a subscriber in the group.
    pub open spec fn affiliated(self, gssi: u32) -> Set<u128> {
        if self.group_clients.contains_key(gssi) {
            self.group_clients[gssi]
        } else {
            Set::empty()
        }
    }

    /// Those of `ids` that are connected.
    pub open spec fn connected(self, ids: Set<u128>) -> Set<u128> {
        ids.intersect(self.clients.dom())
    }

    /// The servers among the clients, but for `source`.
    pub open spec fn other_peers(self, source: u128) -> Set<u128> {
        Set::new(
            |id: u128|
                self.clients.contains_key(id) && self.clients[id].mode == ClientMode::Peer && id
                    != source,
        )
    }

    /// The virtual clients of SIP calls: terminals without an address.
    pub open spec fn bridged(self) -> Set<u128> {
        Set::new(
            |id: u128|
                self.clients.contains_key(id) && self.clients[id].mode == ClientMode::Terminal
                    && self.clients[id].remote_addr is None,
        )
    }
}

/// What a subscriber message announces.
#[derive(Clone, Copy, Debug, PartialEq, Eq, Structural)]
pub enum SubscriberKind {
    Register,
    Reregister,
    Deregister,
    Affiliate,
    Deaffiliate,
    /// A type that the server does not know.
    Other(u8),
}

/// What a call control message says.
#[derive(Clone, Copy, Debug, PartialEq, Eq, Structural)]
pub enum CallState {
    GroupTx,
    GroupIdle,
    SetupRequest,
    SetupAccept,
    SetupReject,
    Alert,
    ConnectRequest,
    ConnectConfirm,
    SimplexGranted,
    SimplexIdle,
    Release,
    ShortTransfer,
    /// A state that the server does not know.
    Other(u8),
}

/// What a call control message carries.
pub enum CallPayload {
    GroupTransmission { source: u32, destination: u32, priority: u8 },
    ShortTransfer { source: u32, destination: u32 },
    CircularCall { source: u32, destination: u32, number: String },
    /// Anything else, with the source and destination pair that its bytes begin with.
    Raw { pair: Option<(u32, u32)> },
}

/// The contents of a `CallPayload`.
#[verifier::ext_equal]
pub enum PayloadView {
    GroupTransmission { source: u32, destination: u32, priority: u8 },
    ShortTransfer { source: u32, destination: u32 },
    CircularCall { source: u32, destination: u32, number: Seq<char> },
    Raw { pair: Option<(u32, u32)> },
}

impl View for CallPayload {
    type V = PayloadView;

    open spec fn view(&self) -> PayloadView {
        match self {
            CallPayload::GroupTransmission { source, destination, priority } => {
                PayloadView::GroupTransmission {
                    source: *source,
                    destination: *destination,
                    priority: *priority,
                }
            },
            CallPayload::ShortTransfer { source, destination } => PayloadView::ShortTransfer {
                source: *source,
                destination: *destination,
            },
            CallPayload::CircularCall { source, destination, number } => PayloadView::CircularCall {
                source: *source,
                destination: *destination,
                number: number@,
            },
            CallPayload::Raw { pair } => PayloadView::Raw { pair: *pair },
        }
    }
}

/// What a frame carries.
#[derive(Clone, Copy, Debug, PartialEq, Eq, Structural)]
pub enum FrameKind {
    Traffic,
    SdsTransfer,
    SdsReport,
    Dtmf,
    /// A type that the server does not know.
    Other(u8),
}

/// A message from a client.
pub enum BrewMessage {
    Subscriber { kind: SubscriberKind, issi: u32, groups: Vec<u32> },
    CallControl { state: CallState, id: u128, payload: CallPayload },
    Frame { frame: FrameKind, id: u128 },
    /// A service message; `rssi` tells signal reports from the others.
    Service { rssi: bool, json: String },
    Error,
}

/// The contents of a `BrewMessage`.
#[verifier::ext_equal]
pub enum MessageView {
    Subscriber { kind: SubscriberKind, issi: u32, groups: Seq<u32> },
    CallControl { state: CallState, id: u128, payload: PayloadView },
    Frame { frame: FrameKind, id: u128 },
    Service { rssi: bool, json: Seq<char> },
    Error,
}

impl View for BrewMessage {
    type V = MessageView;

    open spec fn view(&self) -> MessageView {
        match self {
            BrewMessage::Subscriber { kind, issi, groups } => MessageView::Subscriber {
                kind: *kind,
                issi: *issi,
                groups: groups@,
            },
            BrewMessage::CallControl { state, id, payload } => MessageView::CallControl {
                state: *state,
                id: *id,
                payload: payload@,
            },
            BrewMessage::Frame { frame, id } => MessageView::Frame { frame: *frame, id: *id },
            BrewMessage::Service { rssi, json } => MessageView::Service { rssi: *rssi, json: json@ },
            BrewMessage::Error => MessageView::Error,
        }
    }
}

/// A packet that the server sends.
pub enum Frame {
    /// The packet that is being handled, as it came in.
    Verbatim,
    /// A call control message with a cause.
    CallCause { state: CallState, call: u128, cause: u8 },
    /// A call control message without a payload.
    Control { state: CallState, call: u128 },
    /// The set-up of a private call.
    CircularSetup { call: u128, source: u32, destination: u32, priority: u8 },
    /// The start of a group transmission.
    GroupTx { call: u128, source: u32, destination: u32, priority: u8 },
    /// A request to connect a private call.
    ConnectRequest { call: u128, source: u32, destination: u32, priority: u8 },
    /// The confirmation that a private call is connected.
    ConnectConfirm { call: u128, grant: u8, permission: u8 },
    /// A subscriber message.
    Subscriber { kind: SubscriberKind, issi: u32, groups: Vec<u32> },
}

/// The contents of a `Frame`.
#[verifier::ext_equal]
pub enum FrameView {
    Verbatim,
    CallCause { state: CallState, call: u128, cause: u8 },
    Control { state: CallState, call: u128 },
    CircularSetup { call: u128, source: u32, destination: u32, priority: u8 },
    GroupTx { call: u128, source: u32, destination: u32, priority: u8 },
    ConnectRequest { call: u128, source: u32, destination: u32, priority: u8 },
    ConnectConfirm { call: u128, grant: u8, permission: u8 },
    Subscriber { kind: SubscriberKind, issi: u32, groups: Seq<u32> },
}

impl View for Frame {
    type V = FrameView;

    open spec fn view(&self) -> FrameView {
        match self {
            Frame::Verbatim => FrameView::Verbatim,
            Frame::CallCause { state, call, cause } => FrameView::CallCause {
                state: *state,
                call: *call,
                cause: *cause,
            },
            Frame::Control { state, call } => FrameView::Control { state: *state, call: *call },
            Frame::CircularSetup { call, source, destination, priority } => {
                FrameView::CircularSetup {
                    call: *call,
                    source: *source,
                    destination: *destination,
                    priority: *priority,
                }
            },
            Frame::GroupTx { call, source, destination, priority } => FrameView::GroupTx {
                call: *call,
                source: *source,
                destination: *destination,
                priority: *priority,
            },
            Frame::ConnectRequest { call, source, destination, priority } => {
                FrameView::ConnectRequest {
                    call: *call,
                    source: *source,
                    destination: *destination,
                    priority: *priority,
                }
            },
            Frame::ConnectConfirm { call, grant, permission } => FrameView::ConnectConfirm {
                call: *call,
                grant: *grant,
                permission: *permission,
            },
            Frame::Subscriber { kind, issi, groups } => FrameView::Subscriber {
                kind: *kind,
                issi: *issi,
                groups: groups@,
            },
        }
    }
}

/// A geographic position; the coordinates are the bits of double-precision numbers.
#[derive(Clone, Copy, Debug, PartialEq, Eq, Structural)]
pub struct LatLon {
    pub lat: u64,
    pub lon: u64,
}

/// What is to be done, in order, after a message was handled.
pub enum Action {
    /// Send the frame to each of these clients.
    Send { to: KeySet<u128>, frame: Frame },
    /// Tell the monitor that a call has started.
    CallStarted { id: u128, kind: CallKind, source: u32, destination: u32, priority: u8 },
    /// Tell the monitor that a call has ended.
    CallEnded { id: u128 },
    /// Tell the monitor that a voice frame went by.
    VoiceFrame { id: u128 },
    /// Tell the monitor of an SDS.
    Sds { id: u128, source: u32, destination: u32 },
    /// Tell the monitor that an SDS was reported delivered.
    SdsReport { id: u128 },
    /// End the SIP leg that is bridged to the Brew call, if there is one.
    TeardownBridge { id: u128 },
    /// Offer a private call to the SIP side, under the dialled string.
    OfferToSip { id: u128, client: u128, source: u32, destination: u32, dialled: String },
    /// Record and report the position of a mobile station.
    Position { issi: u32, at: LatLon, note: String },
    /// Record the registration (or, where false, the deregistration) of a mobile station.
    Registration { issi: u32, registered: bool },
    /// Decode and record a signal report.
    Rssi { json: String },
}

/// The contents of an `Action`.
#[verifier::ext_equal]
pub enum ActionView {
    Send { to: Set<u128>, frame: FrameView },
    CallStarted { id: u128, kind: CallKind, source: u32, destination: u32, priority: u8 },
    CallEnded { id: u128 },
    VoiceFrame { id: u128 },
    Sds { id: u128, source: u32, destination: u32 },
    SdsReport { id: u128 },
    TeardownBridge { id: u128 },
    OfferToSip { id: u128, client: u128, source: u32, destination: u32, dialled: Seq<char> },
    Position { issi: u32, at: LatLon, note: Seq<char> },
    Registration { issi: u32, registered: bool },
    Rssi { json: Seq<char> },
}

impl View for Action {
    type V = ActionView;

    open spec fn view(&self) -> ActionView {
        match self {
            Action::Send { to, frame } => ActionView::Send { to: to@, frame: frame@ },
            Action::CallStarted { id, kind, source, destination, priority } => {
                ActionView::CallStarted {
                    id: *id,
                    kind: *kind,
                    source: *source,
                    destination: *destination,
                    priority: *priority,
                }
            },
            Action::CallEnded { id } => ActionView::CallEnded { id: *id },
            Action::VoiceFrame { id } => ActionView::VoiceFrame { id: *id },
            Action::Sds { id, source, destination } => ActionView::Sds {
                id: *id,
                source: *source,
                destination: *destination,
            },
            Action::SdsReport { id } => ActionView::SdsReport { id: *id },
            Action::TeardownBridge { id } => ActionView::TeardownBridge { id: *id },
            Action::OfferToSip { id, client, source, destination, dialled } => {
                ActionView::OfferToSip {
                    id: *id,
                    client: *client,
                    source: *source,
                    destination: *destination,
                    dialled: dialled@,
                }
            },
            Action::Position { issi, at, note } => ActionView::Position {
                issi: *issi,
                at: *at,
                note: note@,
            },
            Action::Registration { issi, registered } => ActionView::Registration {
                issi: *issi,
                registered: *registered,
            },
            Action::Rssi { json } => ActionView::Rssi { json: json@ },
        }
    }
}

/// The contents of a list of actions.
pub open spec fn actions_view(v: Seq<Action>) -> Seq<ActionView> {
    Seq::new(v.len(), |i: int| v[i]@)
}

/// The clients of the table.
pub fn client_ids(clients: &Table<u128, Client>) -> (r: KeySet<u128>)
    ensures
        r@ == clients@.dom(),
{
    let mut r: KeySet<u128> = KeySet::new();
    let n = clients.len();
    let mut i: usize = 0;
    while i < n
        invariant
            i <= n,
            n == clients.items().len(),
            crate::table::lists(clients.items(), clients@),
            forall|id: u128| #[trigger]
                r@.contains(id) <==> exists|j: int| 0 <= j < i && #[trigger] clients.items()[j].0 == id,
        decreases n - i,
    {
        let ghost before = r@;
        let id = *clients.key_at(i);
        r.insert(id);
        assert(clients.items()[i as int].0 == id);
        i += 1;
    }
    assert(r@ =~= clients@.dom()) by {
        assert forall|id: u128| r@.contains(id) == clients@.dom().contains(id) by {
            if clients@.contains_key(id) {
                assert(crate::table::has_key(clients.items(), id));
            }
        }
    }
    r
}

/// Those of `ids` that are connected.
pub fn connected(clients: &Table<u128, Client>, ids: &KeySet<u128>) -> (r: KeySet<u128>)
    ensures
        r@ == ids@.intersect(clients@.dom()),
{
    let mut r: KeySet<u128> = KeySet::new();
    let n = ids.len();
    let mut i: usize = 0;
    while i < n
        invariant
            i <= n,
            n == ids.items().len(),
            ids.items().to_set() == ids@,
            forall|id: u128| #[trigger]
                r@.contains(id) <==> clients@.contains_key(id) && exists|j: int|
                    0 <= j < i && #[trigger] ids.items()[j] == id,
        decreases n - i,
    {
        let id = *ids.at(i);
        assert(ids.items()[i as int] == id);
        if clients.contains_key(&id) {
            r.insert(id);
        }
        i += 1;
    }
    assert(r@ =~= ids@.intersect(clients@.dom())) by {
        assert forall|id: u128| r@.contains(id) == ids@.intersect(clients@.dom()).contains(id) by {
            if ids@.contains(id) {
                assert(ids.items().to_set().contains(id));
                let j = choose|j: int| 0 <= j < ids.items().len() && ids.items()[j] == id;
                assert(ids.items()[j] == id);
            }
            if r@.contains(id) {
                let j = choose|j: int| 0 <= j < n && #[trigger] ids.items()[j] == id;
                assert(ids.items().to_set().contains(ids.items()[j]));
            }
        }
    }
    r
}

/// The servers among the clients, but for `source`.
pub fn other_peers(clients: &Table<u128, Client>, source: u128) -> (r: KeySet<u128>)
    ensures
        forall|id: u128| #[trigger]
            r@.contains(id) <==> clients@.contains_key(id) && clients@[id].mode == ClientMode::Peer
                && id != source,
{
    let mut r: KeySet<u128> = KeySet::new();
    let n = clients.len();
    let mut i: usize = 0;
    while i < n
        invariant
            i <= n,
            n == clients.items().len(),
            crate::table::lists(clients.items(), clients@),
            forall|id: u128| #[trigger]
                r@.contains(id) <==> exists|j: int|
                    0 <= j < i && #[trigger] clients.items()[j].0 == id && clients.items()[j].1.mode
                        == ClientMode::Peer && id != source,
        decreases n - i,
    {
        let id = *clients.key_at(i);
        let c = clients.value_at(i);
        assert(clients.items()[i as int].0 == id);
        if c.mode == ClientMode::Peer && id != source {
            r.insert(id);
        }
        i += 1;
    }
    assert forall|id: u128| #[trigger]
        r@.contains(id) <==> clients@.contains_key(id) && clients@[id].mode == ClientMode::Peer && id
            != source by {
        if clients@.contains_key(id) {
            assert(crate::table::has_key(clients.items(), id));
            let j = choose|j: int| 0 <= j < n && #[trigger] clients.items()[j].0 == id;
            assert(clients.items()[j].0 == id);
        }
    }
    r
}

/// The virtual clients of SIP calls: terminals without an address.
pub fn bridged_clients(clients: &Table<u128, Client>) -> (r: KeySet<u128>)
    ensures
        forall|id: u128| #[trigger]
            r@.contains(id) <==> clients@.contains_key(id) && clients@[id].mode
                == ClientMode::Terminal && clients@[id].remote_addr is None,
{
    let mut r: KeySet<u128> = KeySet::new();
    let n = clients.len();
    let mut i: usize = 0;
    while i < n
        invariant
            i <= n,
            n == clients.items().len(),
            crate::table::lists(clients.items(), clients@),
            forall|id: u128| #[trigger]
                r@.contains(id) <==> exists|j: int|
                    0 <= j < i && #[trigger] clients.items()[j].0 == id && clients.items()[j].1.mode
                        == ClientMode::Terminal && clients.items()[j].1.remote_addr is None,
        decreases n - i,
    {
        let id = *clients.key_at(i);
        let c = clients.value_at(i);
        assert(clients.items()[i as int].0 == id);
        if c.mode == ClientMode::Terminal && c.remote_addr.is_none() {
            r.insert(id);
        }
        i += 1;
    }
    assert forall|id: u128| #[trigger]
        r@.contains(id) <==> clients@.contains_key(id) && clients@[id].mode == ClientMode::Terminal
            && clients@[id].remote_addr is None by {
        if clients@.contains_key(id) {
            assert(crate::table::has_key(clients.items(), id));
            let j = choose|j: int| 0 <= j < n && #[trigger] clients.items()[j].0 == id;
            assert(clients.items()[j].0 == id);
        }
    }
    r
}

} // verus!
