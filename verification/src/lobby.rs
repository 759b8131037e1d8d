//! The lobby: finding opponents, inviting them, being invited, and gathering a
//! room until a match starts.
//!
//! Whoever invites hosts the room; whoever accepts is a guest in it. The lobby
//! decides; sending, connecting and reading is done by its caller, who tells it
//! what came of it. Times are in milliseconds.
use vstd::arithmetic::div_mod::{
    lemma_fundamental_div_mod, lemma_mod_multiples_vanish, lemma_mod_self_0, lemma_small_mod,
};
use vstd::prelude::*;

use crate::agreement::{check_protocol_version, BattleConfig, Expected, NetError, PROTOCOL_VERSION};
use crate::battle::{battle_world, new_game_from_battle_config};
use crate::constants::minus;
use crate::discovery::{
    DiscoveryPacket, Packet, PacketType, PeerId, INVITE_TIMEOUT_MS, TCP_CONNECT_TIMEOUT_MS,
};
use crate::game::{Game, InputAction};
use crate::messages::{GameMessage, HandshakeResult, PeerAddr, PeerHost, RoomMember};
use crate::screens::cycled;

verus! {

/// How long a notice is on show.
pub const NOTICE_DISPLAY_MS: u64 = 1500;

/// How many ports in a row are tried for a match.
pub const TCP_PORT_SEARCH_COUNT: u16 = 16;

/// The most players in a room, the host among them.
pub const ROOM_MAX_PLAYERS: usize = 4;

/// A player who has been heard of.
#[derive(Debug)]
pub struct DiscoveredPeer {
    pub sender_id: PeerId,
    pub player_name: String,
    pub addr: PeerHost,
    /// The port on which they wait for a match.
    pub tcp_port: u16,
}

/// The mathematical counterpart of a player who has been heard of.
#[verifier::ext_equal]
pub struct Peer {
    pub id: Seq<u8>,
    pub name: Seq<char>,
    pub addr: PeerHost,
    pub port: u16,
}

impl View for DiscoveredPeer {
    type V = Peer;

    open spec fn view(&self) -> Peer {
        Peer { id: self.sender_id@, name: self.player_name@, addr: self.addr, port: self.tcp_port }
    }
}

impl Clone for DiscoveredPeer {
    fn clone(&self) -> (copy: Self)
        ensures
            copy@ == self@,
    {
        DiscoveredPeer {
            sender_id: self.sender_id,
            player_name: self.player_name.clone(),
            addr: self.addr,
            tcp_port: self.tcp_port,
        }
    }
}

/// A guest who has joined the room.
#[derive(Debug)]
pub struct HostedGuest {
    /// The number of the connection to them.
    pub connection: u64,
    pub name: String,
    /// Where the other guests can reach them.
    pub mesh_addr: PeerAddr,
}

/// The mathematical counterpart of a guest.
#[verifier::ext_equal]
pub struct Guest {
    pub connection: u64,
    pub name: Seq<char>,
    pub addr: PeerAddr,
}

impl View for HostedGuest {
    type V = Guest;

    open spec fn view(&self) -> Guest {
        Guest { connection: self.connection, name: self.name@, addr: self.mesh_addr }
    }
}

impl HostedGuest {
    /// The name of the guest.
    pub fn name(&self) -> (name: &str)
        ensures
            name@ == self.name@,
    {
        self.name.as_str()
    }
}

/// How far things have come.
#[derive(Debug)]
pub enum LobbyPhase {
    /// Looking around. With guests, the room is open and others can be invited.
    Discovering { guests: Vec<HostedGuest> },
    /// An invitation waits for its answer.
    AwaitingInviteResponse { target: DiscoveredPeer, sent_at_ms: u64, guests: Vec<HostedGuest> },
    /// An invitation has come in.
    IncomingInvite { from: DiscoveredPeer },
    /// A guest has accepted and is about to connect.
    AcceptingGuestConnection { guest_name: String, started_ms: u64, guests: Vec<HostedGuest> },
    /// About to connect to the host whose invitation was accepted.
    ConnectingToHost { addr: PeerAddr, host_name: String },
    /// Connected, and waiting for the host to start.
    WaitingForRoomStart,
    /// Something went wrong. The guests stay in the room.
    Notice { message: String, shown_at_ms: u64, guests: Vec<HostedGuest> },
}

/// The mathematical counterpart of a phase.
#[verifier::ext_equal]
pub enum Phase {
    Discovering { guests: Seq<Guest> },
    Awaiting { target: Peer, sent_at_ms: u64, guests: Seq<Guest> },
    Incoming { from: Peer },
    Accepting { guest_name: Seq<char>, started_ms: u64, guests: Seq<Guest> },
    Connecting { addr: PeerAddr, host_name: Seq<char> },
    Waiting,
    Notice { message: Seq<char>, shown_at_ms: u64, guests: Seq<Guest> },
}

/// Guests without their representation.
pub open spec fn guest_list(guests: Seq<HostedGuest>) -> Seq<Guest> {
    guests.map_values(|g: HostedGuest| g@)
}

impl View for LobbyPhase {
    type V = Phase;

    open spec fn view(&self) -> Phase {
        match self {
            LobbyPhase::Discovering { guests } => Phase::Discovering { guests: guest_list(guests@) },
            LobbyPhase::AwaitingInviteResponse { target, sent_at_ms, guests } => Phase::Awaiting {
                target: target@,
                sent_at_ms: *sent_at_ms,
                guests: guest_list(guests@),
            },
            LobbyPhase::IncomingInvite { from } => Phase::Incoming { from: from@ },
            LobbyPhase::AcceptingGuestConnection { guest_name, started_ms, guests } => Phase::Accepting {
                guest_name: guest_name@,
                started_ms: *started_ms,
                guests: guest_list(guests@),
            },
            LobbyPhase::ConnectingToHost { addr, host_name } => Phase::Connecting {
                addr: *addr,
                host_name: host_name@,
            },
            LobbyPhase::WaitingForRoomStart => Phase::Waiting,
            LobbyPhase::Notice { message, shown_at_ms, guests } => Phase::Notice {
                message: message@,
                shown_at_ms: *shown_at_ms,
                guests: guest_list(guests@),
            },
        }
    }
}

/// The lobby.
#[derive(Debug)]
pub struct LobbyState {
    /// Whom one could invite.
    pub peers: Vec<DiscoveredPeer>,
    pub my_name: String,
    /// Which of them is chosen.
    pub selection: usize,
    pub phase: LobbyPhase,
}

/// The mathematical lobby.
#[verifier::ext_equal]
pub struct Lobby {
    pub peers: Seq<Peer>,
    pub my_name: Seq<char>,
    pub selection: usize,
    pub phase: Phase,
}

impl View for LobbyState {
    type V = Lobby;

    open spec fn view(&self) -> Lobby {
        Lobby {
            peers: self.peers@.map_values(|p: DiscoveredPeer| p@),
            my_name: self.my_name@,
            selection: self.selection,
            phase: self.phase@,
        }
    }
}

/// What has to be sent before an action can take effect.
#[derive(Debug)]
pub enum LobbyRequest {
    Nothing,
    SendInvite(DiscoveredPeer),
    /// Accept the invitation and, if that can be sent, stop announcing oneself.
    SendAccept(DiscoveredPeer),
    SendDecline(DiscoveredPeer),
    /// Stop announcing oneself.
    SendBye,
}

/// The mathematical counterpart of a request.
#[verifier::ext_equal]
pub enum Request {
    Nothing,
    Invite(Peer),
    Accept(Peer),
    Decline(Peer),
    Bye,
}

impl View for LobbyRequest {
    type V = Request;

    open spec fn view(&self) -> Request {
        match self {
            LobbyRequest::Nothing => Request::Nothing,
            LobbyRequest::SendInvite(p) => Request::Invite(p@),
            LobbyRequest::SendAccept(p) => Request::Accept(p@),
            LobbyRequest::SendDecline(p) => Request::Decline(p@),
            LobbyRequest::SendBye => Request::Bye,
        }
    }
}

/// What came of the connections since the last frame.
#[derive(Debug)]
pub enum LobbyProgress {
    Nothing,
    /// A guest has connected and joined.
    GuestJoined(HostedGuest),
    /// A guest has failed to.
    GuestFailed,
    /// The host has been reached.
    HostReached,
    /// The host cannot be reached.
    HostFailed,
    /// The host has started the match, with these other players.
    RoomStarted { other_names: Vec<String>, handshake: HandshakeResult },
    /// The match cannot be started.
    RoomFailed,
}

/// A match that is about to start. The first player is oneself.
#[derive(Debug)]
pub struct BattleStart {
    pub games: Vec<Game>,
    pub player_names: Vec<String>,
    pub config: BattleConfig,
}

/// What a frame in the lobby leads to.
#[derive(Debug)]
pub enum LobbyOutcome {
    Stay,
    Leave,
    /// The host starts the match with these guests.
    StartRoom { guests: Vec<HostedGuest> },
    Battle(Box<BattleStart>),
}

/// The guests of a phase.
pub open spec fn guests_of(phase: Phase) -> Seq<Guest> {
    match phase {
        Phase::Discovering { guests } => guests,
        Phase::Awaiting { guests, .. } => guests,
        Phase::Accepting { guests, .. } => guests,
        Phase::Notice { guests, .. } => guests,
        _ => Seq::empty(),
    }
}

/// What a notice says when a connection has failed.
pub open spec fn connect_failed() -> Seq<char> {
    "接続できませんでした"@
}

/// What a notice says when an invitation was declined.
pub open spec fn declined() -> Seq<char> {
    "相手に断られました"@
}

/// What a notice says when an invitation was not answered.
pub open spec fn unanswered() -> Seq<char> {
    "応答がありませんでした"@
}

/// There is room for one more, and the room is never overfull.
pub open spec fn room_fits(phase: Phase) -> bool {
    match phase {
        Phase::Awaiting { guests, .. } => guests.len() + 2 <= ROOM_MAX_PLAYERS,
        Phase::Accepting { guests, .. } => guests.len() + 2 <= ROOM_MAX_PLAYERS,
        _ => guests_of(phase).len() + 1 <= ROOM_MAX_PLAYERS,
    }
}

/// The time since a moment.
pub open spec fn since(now_ms: u64, then_ms: u64) -> int {
    minus(now_ms as int, then_ms as int)
}

/// The first of the players with an id.
pub open spec fn known(peers: Seq<Peer>, id: Seq<u8>) -> Option<Peer>
    decreases peers.len(),
{
    if peers.len() == 0 {
        None
    } else {
        match known(peers.drop_last(), id) {
            Some(p) => Some(p),
            None => if peers.last().id == id {
                Some(peers.last())
            } else {
                None
            },
        }
    }
}

/// What a packet does. An invitation counts only while one looks around, from
/// somebody who has been heard of, and is turned down if the room is open. An
/// answer counts only if it comes from whom was invited. The second part is
/// whom to send a refusal to.
pub open spec fn packet_taken(l: Lobby, packet: Packet, now_ms: u64) -> (Lobby, Option<Peer>) {
    match l.phase {
        Phase::Discovering { guests } => if packet.packet_type == PacketType::Invite {
            match known(l.peers, packet.sender_id) {
                None => (l, None),
                Some(from) => if guests.len() == 0 {
                    (Lobby { phase: Phase::Incoming { from }, ..l }, None)
                } else {
                    (l, Some(from))
                },
            }
        } else {
            (l, None)
        },
        Phase::Awaiting { target, guests, .. } => if packet.sender_id != target.id {
            (l, None)
        } else if packet.packet_type == PacketType::Accept {
            (
                Lobby {
                    phase: Phase::Accepting { guest_name: target.name, started_ms: now_ms, guests },
                    ..l
                },
                None,
            )
        } else if packet.packet_type == PacketType::Decline {
            (
                Lobby {
                    phase: Phase::Notice { message: declined(), shown_at_ms: now_ms, guests },
                    ..l
                },
                None,
            )
        } else {
            (l, None)
        },
        _ => (l, None),
    }
}

/// What a series of packets does, one after the other, and whom to send a
/// refusal to.
pub open spec fn packets_taken(l: Lobby, packets: Seq<DiscoveryPacket>, now_ms: u64) -> (Lobby, Seq<Peer>)
    decreases packets.len(),
{
    if packets.len() == 0 {
        (l, Seq::empty())
    } else {
        let (before, refused) = packets_taken(l, packets.drop_last(), now_ms);
        let (after, refuse) = packet_taken(before, packets.last()@, now_ms);
        (
            after,
            match refuse {
                Some(p) => refused.push(p),
                None => refused,
            },
        )
    }
}

/// The selection once it is brought back into the list.
pub open spec fn clamped_selection(selection: int, len: int) -> int {
    if selection >= len {
        minus(len, 1)
    } else {
        selection
    }
}

/// The selection after a step through the list.
pub open spec fn moved_selection(selection: int, len: int, forward: bool) -> int {
    if len == 0 {
        0
    } else if forward {
        (selection + 1) % len
    } else {
        (selection + len - 1) % len
    }
}

/// A step from a place is a step from where that place is on the ring.
proof fn lemma_ring(selection: int, len: int)
    requires
        0 <= selection,
        0 < len,
    ensures
        0 <= selection % len < len,
        (selection + 1) % len == (if selection % len + 1 == len { 0 } else { selection % len + 1 }),
        (selection + len - 1) % len == (if selection % len == 0 { len - 1 } else { selection % len - 1 }),
{
    let at = selection % len;
    let rounds = selection / len;
    lemma_fundamental_div_mod(selection, len);
    lemma_mod_multiples_vanish(rounds, at + 1, len);
    lemma_mod_multiples_vanish(rounds, at + len - 1, len);
    if at + 1 == len {
        lemma_mod_self_0(len);
    } else {
        lemma_small_mod((at + 1) as nat, len as nat);
    }
    if at == 0 {
        lemma_small_mod((len - 1) as nat, len as nat);
    } else {
        lemma_mod_multiples_vanish(1, at - 1, len);
        lemma_small_mod((at - 1) as nat, len as nat);
    }
}

/// Whom the choice would invite: nobody if the room is full or nobody is
/// chosen.
pub open spec fn invitee(l: Lobby) -> Option<Peer> {
    if guests_of(l.phase).len() + 1 >= ROOM_MAX_PLAYERS || l.selection >= l.peers.len() {
        None
    } else {
        Some(l.peers[l.selection as int])
    }
}

/// What has to be sent before an action can take effect.
pub open spec fn request_of(l: Lobby, action: InputAction) -> Request {
    match l.phase {
        Phase::Discovering { guests } => match action {
            InputAction::Confirm => match invitee(l) {
                Some(p) => Request::Invite(p),
                None => Request::Nothing,
            },
            InputAction::StartRoom => if guests.len() > 0 {
                Request::Bye
            } else {
                Request::Nothing
            },
            InputAction::Quit => Request::Bye,
            _ => Request::Nothing,
        },
        Phase::Incoming { from } => match action {
            InputAction::Confirm => Request::Accept(from),
            InputAction::Quit => Request::Decline(from),
            _ => Request::Nothing,
        },
        _ => Request::Nothing,
    }
}

/// The lobby after an action, of which the sending has or has not succeeded.
pub open spec fn action_taken(l: Lobby, action: InputAction, sent: bool, now_ms: u64) -> Lobby {
    match l.phase {
        Phase::Discovering { guests } => match action {
            InputAction::FaceUp => Lobby {
                selection: moved_selection(l.selection as int, l.peers.len() as int, false) as usize,
                ..l
            },
            InputAction::FaceDown => Lobby {
                selection: moved_selection(l.selection as int, l.peers.len() as int, true) as usize,
                ..l
            },
            InputAction::Confirm => match invitee(l) {
                Some(target) => if sent {
                    Lobby { phase: Phase::Awaiting { target, sent_at_ms: now_ms, guests }, ..l }
                } else {
                    l
                },
                None => l,
            },
            InputAction::StartRoom => if guests.len() > 0 {
                Lobby { phase: Phase::Discovering { guests: Seq::empty() }, ..l }
            } else {
                l
            },
            _ => l,
        },
        Phase::Awaiting { guests, .. } => if action == InputAction::Quit {
            Lobby { phase: Phase::Discovering { guests }, ..l }
        } else {
            l
        },
        Phase::Incoming { from } => match action {
            InputAction::Confirm => if sent {
                Lobby {
                    phase: Phase::Connecting {
                        addr: PeerAddr { host: from.addr, port: from.port },
                        host_name: from.name,
                    },
                    ..l
                }
            } else {
                Lobby {
                    phase: Phase::Notice {
                        message: connect_failed(),
                        shown_at_ms: now_ms,
                        guests: Seq::empty(),
                    },
                    ..l
                }
            },
            InputAction::Quit => Lobby { phase: Phase::Discovering { guests: Seq::empty() }, ..l },
            _ => l,
        },
        _ => l,
    }
}

/// The outcome of an action, if it leads out of the lobby.
pub open spec fn action_leads(l: Lobby, action: InputAction, outcome: Option<LobbyOutcome>) -> bool {
    match l.phase {
        Phase::Discovering { guests } => if action == InputAction::Quit {
            outcome == Some(LobbyOutcome::Leave)
        } else if action == InputAction::StartRoom && guests.len() > 0 {
            outcome matches Some(LobbyOutcome::StartRoom { guests: taken }) && guest_list(taken@) == guests
        } else {
            outcome is None
        },
        _ => outcome is None,
    }
}

/// The phase in which a failure is on show.
pub open spec fn failure(message: Seq<char>, now_ms: u64, guests: Seq<Guest>) -> Phase {
    Phase::Notice { message, shown_at_ms: now_ms, guests }
}

/// The phase after some time, and after what came of the connections.
pub open spec fn phase_advanced(phase: Phase, now_ms: u64, progress: LobbyProgress) -> Phase {
    match phase {
        Phase::Discovering { .. } | Phase::Incoming { .. } => phase,
        Phase::Awaiting { sent_at_ms, guests, .. } => if since(now_ms, sent_at_ms) >= INVITE_TIMEOUT_MS {
            failure(unanswered(), now_ms, guests)
        } else {
            phase
        },
        Phase::Accepting { started_ms, guests, .. } => match progress {
            LobbyProgress::GuestJoined(guest) => Phase::Discovering { guests: guests.push(guest@) },
            LobbyProgress::GuestFailed => failure(connect_failed(), now_ms, guests),
            _ => if since(now_ms, started_ms) >= TCP_CONNECT_TIMEOUT_MS {
                failure(connect_failed(), now_ms, guests)
            } else {
                phase
            },
        },
        Phase::Connecting { .. } => match progress {
            LobbyProgress::HostReached => Phase::Waiting,
            LobbyProgress::HostFailed => failure(connect_failed(), now_ms, Seq::empty()),
            _ => phase,
        },
        Phase::Waiting => match progress {
            LobbyProgress::RoomFailed => failure(connect_failed(), now_ms, Seq::empty()),
            _ => phase,
        },
        Phase::Notice { shown_at_ms, guests, .. } => if since(now_ms, shown_at_ms) >= NOTICE_DISPLAY_MS {
            Phase::Discovering { guests }
        } else {
            phase
        },
    }
}

/// Everyone in the match has a game of their own on the field that was agreed
/// on, and oneself comes first.
pub open spec fn match_of(start: BattleStart, my_name: Seq<char>, other_names: Seq<String>, handshake: HandshakeResult) -> bool {
    &&& start.games@.len() == other_names.len() + 1
    &&& start.player_names@.len() == other_names.len() + 1
    &&& start.config == handshake.config
    &&& forall|i: int|
        0 <= i < start.games@.len() ==> (#[trigger] start.games@[i])@ == battle_world(
            handshake.seed,
            handshake.config,
        )
    &&& start.player_names@[0]@ == my_name
    &&& forall|i: int|
        0 <= i < other_names.len() ==> (#[trigger] start.player_names@[i + 1])@ == other_names[i]@
}

impl LobbyState {
    /// No room holds more than it may.
    pub open spec fn wf(&self) -> bool {
        room_fits(self@.phase)
    }

    /// A lobby in which one looks around, and nobody has been heard of yet.
    pub fn new(my_name: String) -> (l: Self)
        ensures
            l.wf(),
            l@ == (Lobby {
                peers: Seq::empty(),
                my_name: my_name@,
                selection: 0,
                phase: Phase::Discovering { guests: Seq::empty() },
            }),
    {
        let l = LobbyState {
            peers: Vec::new(),
            my_name,
            selection: 0,
            phase: LobbyPhase::Discovering { guests: Vec::new() },
        };
        assert(l@.peers =~= Seq::<Peer>::empty());
        assert(guests_of(l@.phase) =~= Seq::<Guest>::empty());
        l
    }

    /// How far things have come.
    pub fn phase(&self) -> (phase: &LobbyPhase)
        ensures
            *phase == self.phase,
    {
        &self.phase
    }

    /// Whom one could invite.
    pub fn peers(&self) -> (peers: &[DiscoveredPeer])
        ensures
            peers@ == self.peers@,
    {
        self.peers.as_slice()
    }

    /// Which of them is chosen.
    pub fn selection(&self) -> (n: usize)
        ensures
            n == self.selection,
    {
        self.selection
    }

    /// One's own name.
    pub fn my_name(&self) -> (name: &str)
        ensures
            name@ == self.my_name@,
    {
        self.my_name.as_str()
    }

    /// The guests in the room, for display. A notice does not hide them.
    pub fn hosted_guests(&self) -> (guests: Vec<&HostedGuest>)
        ensures
            guests@.map_values(|g: &HostedGuest| g@) == guests_of(self@.phase),
    {
        let mut list: Vec<&HostedGuest> = Vec::new();
        match &self.phase {
            LobbyPhase::Discovering { guests } => {
                collect(guests, &mut list);
            },
            LobbyPhase::AwaitingInviteResponse { guests, .. } => {
                collect(guests, &mut list);
            },
            LobbyPhase::AcceptingGuestConnection { guests, .. } => {
                collect(guests, &mut list);
            },
            LobbyPhase::Notice { guests, .. } => {
                collect(guests, &mut list);
            },
            _ => {},
        }
        assert(list@.map_values(|g: &HostedGuest| g@) =~= guests_of(self@.phase));
        list
    }

    /// How many guests are in the room.
    fn guest_count(&self) -> (n: usize)
        ensures
            n == guests_of(self@.phase).len(),
    {
        match &self.phase {
            LobbyPhase::Discovering { guests } => guests.len(),
            LobbyPhase::AwaitingInviteResponse { guests, .. } => guests.len(),
            LobbyPhase::AcceptingGuestConnection { guests, .. } => guests.len(),
            LobbyPhase::Notice { guests, .. } => guests.len(),
            _ => 0,
        }
    }

    /// Takes the guests out of the phase, which is left without meaning.
    fn take_guests(&mut self) -> (guests: Vec<HostedGuest>)
        ensures
            guest_list(guests@) == guests_of(old(self)@.phase),
            final(self).peers == old(self).peers,
            final(self).my_name == old(self).my_name,
            final(self).selection == old(self).selection,
    {
        let mut phase: LobbyPhase = LobbyPhase::WaitingForRoomStart;
        std::mem::swap(&mut phase, &mut self.phase);
        match phase {
            LobbyPhase::Discovering { guests } => guests,
            LobbyPhase::AwaitingInviteResponse { guests, .. } => guests,
            LobbyPhase::AcceptingGuestConnection { guests, .. } => guests,
            LobbyPhase::Notice { guests, .. } => guests,
            _ => {
                let none: Vec<HostedGuest> = Vec::new();
                assert(guest_list(none@) =~= Seq::<Guest>::empty());
                none
            },
        }
    }

    /// Finds the first player with an id.
    fn find_peer(&self, id: &PeerId) -> (found: Option<usize>)
        ensures
            match found {
                Some(i) => i < self.peers@.len() && known(self@.peers, id@) == Some(self.peers@[i as int]@),
                None => known(self@.peers, id@) is None,
            },
    {
        let ghost all = self@.peers;
        let mut found: Option<usize> = None;
        let mut i: usize = 0;
        assert(all.take(0) =~= Seq::<Peer>::empty());
        while i < self.peers.len()
            invariant
                all == self@.peers,
                i <= self.peers@.len(),
                match found {
                    Some(k) => k < i && known(all.take(i as int), id@) == Some(self.peers@[k as int]@),
                    None => known(all.take(i as int), id@) is None,
                },
            decreases self.peers@.len() - i,
        {
            proof {
                let t = all.take(i + 1);
                assert(t.drop_last() =~= all.take(i as int));
                assert(t.last() == self.peers@[i as int]@);
            }
            if found.is_none() && self.peers[i].sender_id.same(id) {
                found = Some(i);
            }
            i = i + 1;
        }
        assert(all.take(all.len() as int) =~= all);
        found
    }

    /// Takes in a packet. Returns whom to send a refusal to, if anybody.
    pub fn apply_packet(&mut self, packet: &DiscoveryPacket, now_ms: u64) -> (refuse: Option<DiscoveredPeer>)
        requires
            old(self).wf(),
        ensures
            final(self).wf(),
            final(self)@ == packet_taken(old(self)@, packet@, now_ms).0,
            match packet_taken(old(self)@, packet@, now_ms).1 {
                Some(p) => refuse matches Some(r) && r@ == p,
                None => refuse is None,
            },
    {
        let kind: PacketType = packet.packet_type;
        let ghost before = self@;
        match &self.phase {
            LobbyPhase::Discovering { guests } => {
                if kind != PacketType::Invite {
                    return None;
                }
                let hosting: bool = guests.len() > 0;
                match self.find_peer(&packet.sender_id) {
                    None => None,
                    Some(i) => {
                        let from: DiscoveredPeer = self.peers[i].clone();
                        if hosting {
                            return Some(from);
                        }
                        self.phase = LobbyPhase::IncomingInvite { from };
                        None
                    },
                }
            },
            LobbyPhase::AwaitingInviteResponse { target, .. } => {
                if !target.sender_id.same(&packet.sender_id) {
                    return None;
                }
                if kind == PacketType::Accept {
                    let guest_name: String = target.player_name.clone();
                    let guests: Vec<HostedGuest> = self.take_guests();
                    self.phase = LobbyPhase::AcceptingGuestConnection { guest_name, started_ms: now_ms, guests };
                } else if kind == PacketType::Decline {
                    let guests: Vec<HostedGuest> = self.take_guests();
                    self.phase = LobbyPhase::Notice {
                        message: "相手に断られました".to_owned(),
                        shown_at_ms: now_ms,
                        guests,
                    };
                }
                None
            },
            _ => None,
        }
    }

    /// Takes in what has arrived. Returns whom to send a refusal to.
    pub fn apply_packets(&mut self, packets: &Vec<DiscoveryPacket>, now_ms: u64) -> (refuse: Vec<DiscoveredPeer>)
        requires
            old(self).wf(),
        ensures
            final(self).wf(),
            final(self)@ == packets_taken(old(self)@, packets@, now_ms).0,
            refuse@.map_values(|p: DiscoveredPeer| p@) == packets_taken(old(self)@, packets@, now_ms).1,
    {
        let ghost start = self@;
        let mut refuse: Vec<DiscoveredPeer> = Vec::new();
        let mut i: usize = 0;
        assert(packets@.take(0) =~= Seq::<DiscoveryPacket>::empty());
        assert(refuse@.map_values(|p: DiscoveredPeer| p@) =~= Seq::<Peer>::empty());
        while i < packets.len()
            invariant
                self.wf(),
                i <= packets@.len(),
                self@ == packets_taken(start, packets@.take(i as int), now_ms).0,
                refuse@.map_values(|p: DiscoveredPeer| p@) == packets_taken(
                    start,
                    packets@.take(i as int),
                    now_ms,
                ).1,
            decreases packets@.len() - i,
        {
            let ghost refused = refuse@;
            proof {
                let t = packets@.take(i + 1);
                assert(t.drop_last() =~= packets@.take(i as int));
                assert(t.last() == packets@[i as int]);
            }
            match self.apply_packet(&packets[i], now_ms) {
                Some(peer) => {
                    refuse.push(peer);
                    assert(refuse@.map_values(|p: DiscoveredPeer| p@) =~= refused.map_values(
                        |p: DiscoveredPeer| p@,
                    ).push(peer@));
                },
                None => {},
            }
            i = i + 1;
        }
        assert(packets@.take(packets@.len() as int) =~= packets@);
        refuse
    }

    /// Brings the selection back into the list.
    pub fn clamp_selection(&mut self)
        requires
            old(self).wf(),
        ensures
            final(self).wf(),
            final(self)@ == (Lobby {
                selection: clamped_selection(
                    old(self).selection as int,
                    old(self).peers@.len() as int,
                ) as usize,
                ..old(self)@
            }),
    {
        let len: usize = self.peers.len();
        if self.selection >= len {
            self.selection = if len > 0 { len - 1 } else { 0 };
        }
    }

    /// Steps through the list, which is a ring.
    fn move_selection(&mut self, forward: bool)
        requires
            old(self).wf(),
        ensures
            final(self).wf(),
            final(self)@ == (Lobby {
                selection: moved_selection(
                    old(self).selection as int,
                    old(self).peers@.len() as int,
                    forward,
                ) as usize,
                ..old(self)@
            }),
    {
        let len: usize = self.peers.len();
        if len == 0 {
            self.selection = 0;
            return;
        }
        let at: usize = self.selection % len;
        proof {
            lemma_ring(self.selection as int, len as int);
        }
        self.selection = if forward {
            if at + 1 == len { 0 } else { at + 1 }
        } else {
            if at == 0 { len - 1 } else { at - 1 }
        };
    }

    /// Whom the choice would invite.
    fn invitee(&self) -> (target: Option<usize>)
        ensures
            match target {
                Some(i) => i == self.selection && i < self.peers@.len() && invitee(self@) == Some(
                    self.peers@[i as int]@,
                ),
                None => invitee(self@) is None,
            },
    {
        if self.guest_count() >= ROOM_MAX_PLAYERS - 1 || self.selection >= self.peers.len() {
            None
        } else {
            Some(self.selection)
        }
    }

    /// What has to be sent before an action can take effect.
    pub fn request_for(&self, action: InputAction) -> (request: LobbyRequest)
        requires
            self.wf(),
        ensures
            request@ == request_of(self@, action),
    {
        match &self.phase {
            LobbyPhase::Discovering { guests } => match action {
                InputAction::Confirm => match self.invitee() {
                    Some(i) => LobbyRequest::SendInvite(self.peers[i].clone()),
                    None => LobbyRequest::Nothing,
                },
                InputAction::StartRoom => {
                    if guests.len() > 0 {
                        LobbyRequest::SendBye
                    } else {
                        LobbyRequest::Nothing
                    }
                },
                InputAction::Quit => LobbyRequest::SendBye,
                _ => LobbyRequest::Nothing,
            },
            LobbyPhase::IncomingInvite { from } => match action {
                InputAction::Confirm => LobbyRequest::SendAccept(from.clone()),
                InputAction::Quit => LobbyRequest::SendDecline(from.clone()),
                _ => LobbyRequest::Nothing,
            },
            _ => LobbyRequest::Nothing,
        }
    }

    /// Lets an action take effect, given whether what had to be sent for it was
    /// sent. Returns an outcome if the action leads out of the lobby.
    pub fn apply_action(&mut self, action: InputAction, sent: bool, now_ms: u64) -> (outcome: Option<LobbyOutcome>)
        requires
            old(self).wf(),
        ensures
            final(self).wf(),
            final(self)@ == action_taken(old(self)@, action, sent, now_ms),
            action_leads(old(self)@, action, outcome),
    {
        let ghost before = self@;
        match &self.phase {
            LobbyPhase::Discovering { guests } => match action {
                InputAction::FaceUp => {
                    self.move_selection(false);
                    None
                },
                InputAction::FaceDown => {
                    self.move_selection(true);
                    None
                },
                InputAction::Confirm => {
                    match self.invitee() {
                        Some(i) => {
                            if sent {
                                let target: DiscoveredPeer = self.peers[i].clone();
                                let kept: Vec<HostedGuest> = self.take_guests();
                                self.phase = LobbyPhase::AwaitingInviteResponse {
                                    target,
                                    sent_at_ms: now_ms,
                                    guests: kept,
                                };
                            }
                        },
                        None => {},
                    }
                    None
                },
                InputAction::StartRoom => {
                    if guests.len() > 0 {
                        let taken: Vec<HostedGuest> = self.take_guests();
                        self.phase = LobbyPhase::Discovering { guests: Vec::new() };
                        assert(guests_of(self@.phase) =~= Seq::<Guest>::empty());
                        Some(LobbyOutcome::StartRoom { guests: taken })
                    } else {
                        None
                    }
                },
                InputAction::Quit => Some(LobbyOutcome::Leave),
                _ => None,
            },
            LobbyPhase::AwaitingInviteResponse { .. } => {
                if action == InputAction::Quit {
                    let guests: Vec<HostedGuest> = self.take_guests();
                    self.phase = LobbyPhase::Discovering { guests };
                }
                None
            },
            LobbyPhase::IncomingInvite { from } => {
                match action {
                    InputAction::Confirm => {
                        if sent {
                            let addr = PeerAddr { host: from.addr, port: from.tcp_port };
                            let host_name: String = from.player_name.clone();
                            self.phase = LobbyPhase::ConnectingToHost { addr, host_name };
                        } else {
                            self.fail("接続できませんでした", now_ms);
                        }
                    },
                    InputAction::Quit => {
                        self.phase = LobbyPhase::Discovering { guests: Vec::new() };
                        assert(guests_of(self@.phase) =~= Seq::<Guest>::empty());
                    },
                    _ => {},
                }
                None
            },
            _ => None,
        }
    }

    /// Puts a failure on show, with no guests in the room.
    fn fail(&mut self, message: &str, now_ms: u64)
        ensures
            final(self).wf(),
            final(self)@ == (Lobby {
                phase: failure(message@, now_ms, Seq::empty()),
                ..old(self)@
            }),
    {
        self.phase = LobbyPhase::Notice {
            message: message.to_owned(),
            shown_at_ms: now_ms,
            guests: Vec::new(),
        };
        assert(guests_of(self@.phase) =~= Seq::<Guest>::empty());
    }

    /// Puts a failure on show. The guests stay in the room.
    fn fail_with_guests(&mut self, message: &str, now_ms: u64)
        requires
            old(self).wf(),
        ensures
            final(self).wf(),
            final(self)@ == (Lobby {
                phase: failure(message@, now_ms, guests_of(old(self)@.phase)),
                ..old(self)@
            }),
    {
        let guests: Vec<HostedGuest> = self.take_guests();
        self.phase = LobbyPhase::Notice { message: message.to_owned(), shown_at_ms: now_ms, guests };
    }

    /// The room could not be started after all.
    pub fn room_failed(&mut self, now_ms: u64)
        ensures
            final(self).wf(),
            final(self)@ == (Lobby {
                phase: failure(connect_failed(), now_ms, Seq::empty()),
                ..old(self)@
            }),
    {
        self.fail("接続できませんでした", now_ms);
    }

    /// Goes on with time and with what came of the connections.
    pub fn advance_phase(&mut self, now_ms: u64, progress: LobbyProgress) -> (outcome: LobbyOutcome)
        requires
            old(self).wf(),
            progress matches LobbyProgress::RoomStarted { handshake, other_names }
                ==> handshake.config.depth_goal_m > 0 && other_names@.len() < usize::MAX,
        ensures
            final(self).wf(),
            final(self)@ == (Lobby {
                phase: phase_advanced(old(self)@.phase, now_ms, progress),
                ..old(self)@
            }),
            match (old(self)@.phase, progress) {
                (Phase::Waiting, LobbyProgress::RoomStarted { other_names, handshake }) => outcome matches LobbyOutcome::Battle(
                    start,
                ) && match_of(*start, old(self).my_name@, other_names@, handshake),
                _ => outcome is Stay,
            },
    {
        let ghost before = self@;
        match &self.phase {
            LobbyPhase::Discovering { .. } | LobbyPhase::IncomingInvite { .. } => LobbyOutcome::Stay,
            LobbyPhase::AwaitingInviteResponse { sent_at_ms, .. } => {
                let sent_at: u64 = *sent_at_ms;
                if now_ms >= sent_at && now_ms - sent_at >= INVITE_TIMEOUT_MS {
                    self.fail_with_guests("応答がありませんでした", now_ms);
                }
                LobbyOutcome::Stay
            },
            LobbyPhase::AcceptingGuestConnection { started_ms, .. } => {
                let started: u64 = *started_ms;
                self.accept_guest(started, now_ms, progress);
                LobbyOutcome::Stay
            },
            LobbyPhase::ConnectingToHost { .. } => {
                match progress {
                    LobbyProgress::HostReached => {
                        self.phase = LobbyPhase::WaitingForRoomStart;
                    },
                    LobbyProgress::HostFailed => {
                        self.fail("接続できませんでした", now_ms);
                    },
                    _ => {},
                }
                LobbyOutcome::Stay
            },
            LobbyPhase::WaitingForRoomStart => match progress {
                LobbyProgress::RoomStarted { other_names, handshake } => {
                    let start: BattleStart = self.battle_from_room(other_names, handshake);
                    LobbyOutcome::Battle(Box::new(start))
                },
                LobbyProgress::RoomFailed => {
                    self.fail("接続できませんでした", now_ms);
                    LobbyOutcome::Stay
                },
                _ => LobbyOutcome::Stay,
            },
            LobbyPhase::Notice { shown_at_ms, .. } => {
                let shown_at: u64 = *shown_at_ms;
                if now_ms >= shown_at && now_ms - shown_at >= NOTICE_DISPLAY_MS {
                    let guests: Vec<HostedGuest> = self.take_guests();
                    self.phase = LobbyPhase::Discovering { guests };
                }
                LobbyOutcome::Stay
            },
        }
    }

    /// Welcomes a guest who has joined, or gives up waiting for one.
    fn accept_guest(&mut self, started: u64, now_ms: u64, progress: LobbyProgress)
        requires
            old(self).wf(),
            old(self)@.phase matches Phase::Accepting { started_ms, .. } && started_ms == started,
        ensures
            final(self).wf(),
            final(self)@ == (Lobby {
                phase: phase_advanced(old(self)@.phase, now_ms, progress),
                ..old(self)@
            }),
    {
        match progress {
            LobbyProgress::GuestJoined(guest) => {
                let mut guests: Vec<HostedGuest> = self.take_guests();
                let ghost kept = guests@;
                guests.push(guest);
                assert(guest_list(guests@) =~= guest_list(kept).push(guest@));
                self.phase = LobbyPhase::Discovering { guests };
            },
            LobbyProgress::GuestFailed => {
                self.fail_with_guests("接続できませんでした", now_ms);
            },
            _ => {
                if now_ms >= started && now_ms - started >= TCP_CONNECT_TIMEOUT_MS {
                    self.fail_with_guests("接続できませんでした", now_ms);
                }
            },
        }
    }

    /// Sets up the match: a game for everyone on the field that was agreed on,
    /// oneself first.
    pub fn battle_from_room(&self, other_names: Vec<String>, handshake: HandshakeResult) -> (start: BattleStart)
        requires
            handshake.config.depth_goal_m > 0,
            other_names@.len() < usize::MAX,
        ensures
            match_of(start, self.my_name@, other_names@, handshake),
    {
        let mut games: Vec<Game> = Vec::new();
        let mut player_names: Vec<String> = Vec::new();
        games.push(new_game_from_battle_config(handshake.seed, &handshake.config));
        player_names.push(self.my_name.clone());
        let mut i: usize = 0;
        while i < other_names.len()
            invariant
                handshake.config.depth_goal_m > 0,
                i <= other_names@.len(),
                games@.len() == i + 1,
                player_names@.len() == i + 1,
                forall|k: int|
                    0 <= k < games@.len() ==> (#[trigger] games@[k])@ == battle_world(
                        handshake.seed,
                        handshake.config,
                    ),
                player_names@[0]@ == self.my_name@,
                forall|k: int| 0 <= k < i ==> (#[trigger] player_names@[k + 1])@ == other_names@[k]@,
            decreases other_names@.len() - i,
        {
            games.push(new_game_from_battle_config(handshake.seed, &handshake.config));
            player_names.push(other_names[i].clone());
            i = i + 1;
        }
        BattleStart { games, player_names, config: handshake.config }
    }
}

/// Whether whoever has connected may join, given the first thing they said: a
/// request to join, in the same version. Others reach them at the port they
/// name, on the computer they called from.
pub fn read_join_room(connection: u64, from: PeerHost, msg: GameMessage) -> (r: Result<HostedGuest, NetError>)
    ensures
        match msg {
            GameMessage::JoinRoom { name, mesh_port, protocol_version } => if protocol_version
                == PROTOCOL_VERSION {
                r matches Ok(guest) && guest@ == (Guest {
                    connection,
                    name: name@,
                    addr: PeerAddr { host: from, port: mesh_port },
                })
            } else {
                r == Err::<HostedGuest, NetError>(NetError::VersionMismatch { peer: protocol_version })
            },
            _ => r == Err::<HostedGuest, NetError>(
                NetError::UnexpectedMessage { expected: Expected::JoinRoom },
            ),
        },
{
    match msg {
        GameMessage::JoinRoom { name, mesh_port, protocol_version } => {
            match check_protocol_version(protocol_version) {
                Ok(()) => Ok(
                    HostedGuest { connection, name, mesh_addr: PeerAddr { host: from, port: mesh_port } },
                ),
                Err(e) => Err(e),
            }
        },
        _ => Err(NetError::UnexpectedMessage { expected: Expected::JoinRoom }),
    }
}

/// The names of the members of a room.
pub open spec fn member_names(members: Seq<RoomMember>) -> Seq<Seq<char>> {
    members.map_values(|m: RoomMember| m.name@)
}

/// The names of the others in a room, in the order of the room, for the member
/// at an index.
pub fn names_of_others(members: &Vec<RoomMember>, your_index: usize) -> (names: Vec<String>)
    requires
        your_index < members@.len(),
    ensures
        names@.map_values(|n: String| n@) == member_names(members@).remove(your_index as int),
{
    let mut names: Vec<String> = Vec::new();
    let ghost all = member_names(members@);
    let mut i: usize = 0;
    while i < members.len()
        invariant
            i <= members@.len(),
            your_index < members@.len(),
            all == member_names(members@),
            names@.len() == (if i <= your_index {
                i as int
            } else {
                i - 1
            }),
            forall|k: int|
                0 <= k < names@.len() ==> (#[trigger] names@[k])@ == all.remove(your_index as int)[k],
        decreases members@.len() - i,
    {
        if i != your_index {
            names.push(members[i].name.clone());
        }
        i = i + 1;
    }
    assert(names@.map_values(|n: String| n@) =~= all.remove(your_index as int));
    names
}

/// Lists references to the elements.
fn collect<'a>(guests: &'a Vec<HostedGuest>, list: &mut Vec<&'a HostedGuest>)
    requires
        old(list)@.len() == 0,
    ensures
        final(list)@.map_values(|g: &HostedGuest| g@) =~= guest_list(guests@),
{
    let mut i: usize = 0;
    while i < guests.len()
        invariant
            i <= guests@.len(),
            list@.len() == i,
            forall|k: int| 0 <= k < i ==> (#[trigger] list@[k])@ == guests@[k]@,
        decreases guests@.len() - i,
    {
        list.push(&guests[i]);
        i = i + 1;
    }
}

/// No guest is lost: an invitation that fails, or is taken back, and a notice
/// leave the room as it was.
pub proof fn law_guests_stay(l: Lobby, packet: Packet, action: InputAction, sent: bool, progress: LobbyProgress, now_ms: u64)
    ensures
        guests_of(packet_taken(l, packet, now_ms).0.phase) == guests_of(l.phase),
        action != InputAction::StartRoom ==> guests_of(action_taken(l, action, sent, now_ms).phase)
            == guests_of(l.phase),
        !(progress is GuestJoined) ==> guests_of(phase_advanced(l.phase, now_ms, progress)) == guests_of(
            l.phase,
        ),
{
}

/// A notice goes back to looking around once it has been on show for long
/// enough, with the same guests.
pub proof fn law_notices_pass(message: Seq<char>, shown_at_ms: u64, guests: Seq<Guest>, now_ms: u64, progress: LobbyProgress)
    requires
        since(now_ms, shown_at_ms) >= NOTICE_DISPLAY_MS,
    ensures
        phase_advanced(Phase::Notice { message, shown_at_ms, guests }, now_ms, progress) == (
        Phase::Discovering { guests }),
{
}

/// Stepping through the list goes round: a step and a step back cancel out.
pub proof fn law_selection_goes_round(selection: int, len: int, forward: bool)
    requires
        0 <= selection < len,
    ensures
        0 <= moved_selection(selection, len, forward) < len,
        moved_selection(selection, len, forward) == cycled(selection, len, forward),
        moved_selection(moved_selection(selection, len, forward), len, !forward) == selection,
{
    lemma_small_mod(selection as nat, len as nat);
    lemma_ring(selection, len);
    let next = moved_selection(selection, len, forward);
    lemma_small_mod(next as nat, len as nat);
    lemma_ring(next, len);
}

} // verus!
