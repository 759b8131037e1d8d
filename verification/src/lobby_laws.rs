//! What the lobby does, told from the outside: whom one hears of, invites,
//! refuses and gathers, and how every wait comes to an end.
use vstd::prelude::*;

use crate::discovery::{DiscoveryPacket, Packet, PacketType};
use crate::game::InputAction;
use crate::lobby::{
    action_leads, action_taken, clamped_selection, guest_list, guests_of, known, packet_taken,
    packets_taken, phase_advanced, request_of, room_fits, Guest, Lobby, LobbyOutcome, LobbyProgress,
    Peer, Phase, Request,
};

verus! {

/// One looks around, with the guests who have joined so far.
pub open spec fn looks_around(phase: Phase, guests: Seq<Guest>) -> bool {
    phase matches Phase::Discovering { guests: g } && g == guests
}

/// A failure is on show, from now on, and the guests are still there.
pub open spec fn shows_failure(phase: Phase, message: Seq<char>, now_ms: u64, guests: Seq<Guest>) -> bool {
    phase matches Phase::Notice { message: m, shown_at_ms, guests: g } && m == message && shown_at_ms == now_ms && g
        == guests
}

/// Only the phase may be another.
pub open spec fn only_phase(before: Lobby, after: Lobby) -> bool {
    before.peers == after.peers && before.my_name == after.my_name && before.selection == after.selection
}

/// An invitation that waits for its answer is taken back with Quit, and only
/// with it: one looks around again, with the same guests. An answer that comes
/// later has no effect.
pub proof fn law_invitations_can_be_taken_back(
    l: Lobby,
    action: InputAction,
    sent: bool,
    now_ms: u64,
    packet: Packet,
    later_ms: u64,
)
    requires
        l.phase is Awaiting,
    ensures
        ({
            let after = action_taken(l, action, sent, now_ms);
            &&& action == InputAction::Quit ==> {
                &&& only_phase(l, after)
                &&& looks_around(after.phase, l.phase->Awaiting_guests)
                &&& packet.packet_type != PacketType::Invite ==> packet_taken(after, packet, later_ms) == (
                    after,
                    None::<Peer>,
                )
            }
            &&& action != InputAction::Quit ==> after == l
            &&& request_of(l, action) is Nothing
        }),
{
}

/// An invitation goes to who is chosen, if there is room for one more. Once it
/// is sent one waits for the answer, from that moment; otherwise nothing changes.
pub proof fn law_invitations(l: Lobby, sent: bool, now_ms: u64)
    requires
        l.phase is Discovering,
    ensures
        ({
            let guests = l.phase->Discovering_guests;
            let can = guests.len() < 3 && l.selection < l.peers.len();
            let after = action_taken(l, InputAction::Confirm, sent, now_ms);
            &&& can ==> request_of(l, InputAction::Confirm) == Request::Invite(l.peers[l.selection as int])
            &&& !can ==> request_of(l, InputAction::Confirm) is Nothing
            &&& can && sent ==> only_phase(l, after) && (after.phase matches Phase::Awaiting {
                target,
                sent_at_ms,
                guests: g,
            } && target == l.peers[l.selection as int] && sent_at_ms == now_ms && g == guests)
            &&& !(can && sent) ==> after == l
        }),
{
}

/// Looking around, the arrows step through the list, the host starts the match
/// only with guests, and Quit leaves. All else does nothing.
pub proof fn law_looking_around(l: Lobby, action: InputAction, sent: bool, now_ms: u64, outcome: Option<LobbyOutcome>)
    requires
        l.phase is Discovering,
        l.peers.len() <= usize::MAX,
        action_leads(l, action, outcome),
    ensures
        ({
            let guests = l.phase->Discovering_guests;
            let after = action_taken(l, action, sent, now_ms);
            &&& action == InputAction::Quit ==> outcome == Some(LobbyOutcome::Leave) && request_of(l, action) is Bye
                && after == l
            &&& action == InputAction::StartRoom && guests.len() > 0 ==> {
                &&& request_of(l, action) is Bye
                &&& outcome matches Some(LobbyOutcome::StartRoom { guests: taken }) && taken@.len() == guests.len()
                    && forall|i: int| 0 <= i < guests.len() ==> (#[trigger] taken@[i])@ == guests[i]
                &&& only_phase(l, after) && after.phase is Discovering && guests_of(after.phase).len() == 0
            }
            &&& action == InputAction::StartRoom && guests.len() == 0 ==> after == l && outcome is None && request_of(
                l,
                action,
            ) is Nothing
            &&& action == InputAction::FaceUp || action == InputAction::FaceDown ==> {
                &&& after.peers == l.peers && after.my_name == l.my_name && after.phase == l.phase
                &&& outcome is None
                &&& l.peers.len() == 0 ==> after.selection == 0
                &&& l.selection < l.peers.len() && action == InputAction::FaceDown && l.selection + 1 < l.peers.len()
                    ==> after.selection == l.selection + 1
                &&& l.selection < l.peers.len() && action == InputAction::FaceDown && l.selection + 1 == l.peers.len()
                    ==> after.selection == 0
                &&& l.selection < l.peers.len() && action == InputAction::FaceUp && l.selection > 0 ==> after.selection
                    == l.selection - 1
                &&& l.selection < l.peers.len() && action == InputAction::FaceUp && l.selection == 0
                    ==> after.selection == l.peers.len() - 1
            }
            &&& !(action == InputAction::Quit || action == InputAction::StartRoom || action == InputAction::FaceUp
                || action == InputAction::FaceDown || action == InputAction::Confirm) ==> after == l && outcome is None
                && request_of(l, action) is Nothing
            &&& action == InputAction::Confirm ==> outcome is None
        }),
{
    let len = l.peers.len() as int;
    let at = l.selection as int;
    if at < len {
        vstd::arithmetic::div_mod::lemma_small_mod(at as nat, len as nat);
        if at + 1 < len {
            vstd::arithmetic::div_mod::lemma_small_mod((at + 1) as nat, len as nat);
        } else {
            vstd::arithmetic::div_mod::lemma_mod_self_0(len);
        }
        if at > 0 {
            assert((at + len - 1) % len == at - 1) by (nonlinear_arith)
                requires
                    0 < at < len,
            ;
        } else {
            vstd::arithmetic::div_mod::lemma_small_mod((len - 1) as nat, len as nat);
        }
    }
    if action == InputAction::StartRoom && l.phase->Discovering_guests.len() > 0 {
        let taken = outcome->0->StartRoom_guests;
        assert forall|i: int| 0 <= i < l.phase->Discovering_guests.len() implies (#[trigger] taken@[i])@
            == l.phase->Discovering_guests[i] by {
            assert(guest_list(taken@)[i] == taken@[i]@);
        }
    }
}

/// An invitation that has come in is accepted with Confirm: one connects to its
/// sender, or a failure is on show if that cannot be sent. Quit declines it, and
/// all else leaves it open.
pub proof fn law_invitations_are_answered(l: Lobby, action: InputAction, sent: bool, now_ms: u64)
    requires
        l.phase is Incoming,
    ensures
        ({
            let from = l.phase->Incoming_from;
            let after = action_taken(l, action, sent, now_ms);
            &&& only_phase(l, after)
            &&& action == InputAction::Confirm ==> request_of(l, action) == Request::Accept(from)
            &&& action == InputAction::Confirm && sent ==> (after.phase matches Phase::Connecting { addr, host_name }
                && addr.host == from.addr && addr.port == from.port && host_name == from.name)
            &&& action == InputAction::Confirm && !sent ==> shows_failure(
                after.phase,
                "接続できませんでした"@,
                now_ms,
                Seq::empty(),
            )
            &&& action == InputAction::Quit ==> request_of(l, action) == Request::Decline(from) && looks_around(
                after.phase,
                Seq::empty(),
            )
            &&& action != InputAction::Confirm && action != InputAction::Quit ==> after == l && request_of(
                l,
                action,
            ) is Nothing
        }),
{
}

/// While a guest connects, while one connects or waits oneself, and while a
/// notice is on show, no input does anything, and none leads out of the lobby but
/// from looking around.
pub proof fn law_inputs_wait(l: Lobby, action: InputAction, sent: bool, now_ms: u64, outcome: Option<LobbyOutcome>)
    ensures
        l.phase is Accepting || l.phase is Connecting || l.phase is Waiting || l.phase is Notice ==> action_taken(
            l,
            action,
            sent,
            now_ms,
        ) == l && request_of(l, action) is Nothing,
        !(l.phase is Discovering) && action_leads(l, action, outcome) ==> outcome is None,
{
}

/// The first of the known players with an id.
pub proof fn law_known(peers: Seq<Peer>, id: Seq<u8>, i: int)
    ensures
        0 <= i < peers.len() && peers[i].id == id && (forall|j: int| 0 <= j < i ==> (#[trigger] peers[j]).id != id)
            ==> known(peers, id) == Some(peers[i]),
        (forall|j: int| 0 <= j < peers.len() ==> (#[trigger] peers[j]).id != id) ==> known(peers, id) is None,
    decreases peers.len(),
{
    if peers.len() > 0 {
        let init = peers.drop_last();
        law_known(init, id, i);
        if 0 <= i < peers.len() && peers[i].id == id && (forall|j: int|
            0 <= j < i ==> (#[trigger] peers[j]).id != id) {
            if i < init.len() {
                assert(init[i] == peers[i]);
                assert forall|j: int| 0 <= j < i implies (#[trigger] init[j]).id != id by {
                    assert(init[j] == peers[j]);
                }
            } else {
                assert forall|j: int| 0 <= j < init.len() implies (#[trigger] init[j]).id != id by {
                    assert(init[j] == peers[j]);
                }
            }
        }
        if forall|j: int| 0 <= j < peers.len() ==> (#[trigger] peers[j]).id != id {
            assert forall|j: int| 0 <= j < init.len() implies (#[trigger] init[j]).id != id by {
                assert(init[j] == peers[j]);
            }
            assert(peers[peers.len() - 1].id != id);
        }
    }
}

/// An invitation from somebody known is put to the player if they look around
/// alone; a host of guests turns it down. From a stranger, or at any other time,
/// it counts for nothing.
pub proof fn law_invitations_come_in(l: Lobby, packet: Packet, now_ms: u64)
    requires
        packet.packet_type == PacketType::Invite,
    ensures
        ({
            let (after, refuse) = packet_taken(l, packet, now_ms);
            let from = known(l.peers, packet.sender_id);
            let alone = l.phase matches Phase::Discovering { guests } && guests.len() == 0;
            let host = l.phase matches Phase::Discovering { guests } && guests.len() > 0;
            &&& alone && from is Some ==> only_phase(l, after) && (after.phase matches Phase::Incoming { from: f } && f
                == from->0) && refuse is None
            &&& host && from is Some ==> after == l && refuse == from
            &&& from is None || !(alone || host) ==> after == l && refuse is None
        }),
{
}

/// An answer counts if one waits for it and it comes from whom was invited: who
/// accepts is waited for from now on, and who declines is reported. No other
/// packet does anything then.
pub proof fn law_answers(l: Lobby, packet: Packet, now_ms: u64)
    requires
        packet.packet_type != PacketType::Invite,
    ensures
        ({
            let (after, refuse) = packet_taken(l, packet, now_ms);
            let awaited = l.phase is Awaiting && packet.sender_id == l.phase->Awaiting_target.id;
            &&& refuse is None
            &&& only_phase(l, after)
            &&& awaited && packet.packet_type == PacketType::Accept ==> (after.phase matches Phase::Accepting {
                guest_name,
                started_ms,
                guests,
            } && guest_name == l.phase->Awaiting_target.name && started_ms == now_ms && guests
                == l.phase->Awaiting_guests)
            &&& awaited && packet.packet_type == PacketType::Decline ==> shows_failure(
                after.phase,
                "相手に断られました"@,
                now_ms,
                l.phase->Awaiting_guests,
            )
            &&& !awaited || (packet.packet_type != PacketType::Accept && packet.packet_type != PacketType::Decline)
                ==> after == l
        }),
{
}

/// Packets are taken one after the other, and whoever is refused by one of them
/// is refused, in order.
pub proof fn law_packets_in_order(l: Lobby, packets: Seq<DiscoveryPacket>, packet: DiscoveryPacket, now_ms: u64)
    ensures
        ({
            let (before, refused) = packets_taken(l, packets, now_ms);
            let (after, one) = packet_taken(before, packet@, now_ms);
            let (all, both) = packets_taken(l, packets.push(packet), now_ms);
            &&& all == after
            &&& both == (if one is Some { refused.push(one->0) } else { refused })
            &&& packets_taken(l, Seq::empty(), now_ms) == (l, Seq::<Peer>::empty())
        }),
{
    assert(packets.push(packet).drop_last() =~= packets);
}

/// An invitation is given up after its time, and not before.
pub proof fn law_invitations_time_out(phase: Phase, now_ms: u64, progress: LobbyProgress)
    requires
        phase is Awaiting,
    ensures
        ({
            let after = phase_advanced(phase, now_ms, progress);
            let waited = now_ms - phase->sent_at_ms;
            &&& waited >= crate::discovery::INVITE_TIMEOUT_MS ==> shows_failure(
                after,
                "応答がありませんでした"@,
                now_ms,
                phase->Awaiting_guests,
            )
            &&& waited < crate::discovery::INVITE_TIMEOUT_MS && crate::discovery::INVITE_TIMEOUT_MS > 0 ==> after == phase
        }),
{
}

/// A guest who joins is the last of the guests, and others can be invited. One
/// who fails, or takes too long, is reported, and the others stay.
pub proof fn law_guests_join(phase: Phase, now_ms: u64, progress: LobbyProgress)
    requires
        phase is Accepting,
    ensures
        ({
            let after = phase_advanced(phase, now_ms, progress);
            let guests = phase->Accepting_guests;
            let late = now_ms - phase->started_ms >= crate::discovery::TCP_CONNECT_TIMEOUT_MS;
            &&& progress matches LobbyProgress::GuestJoined(guest) ==> looks_around(after, guests.push(guest@))
            &&& progress is GuestFailed || (!(progress is GuestJoined) && late) ==> shows_failure(
                after,
                "接続できませんでした"@,
                now_ms,
                guests,
            )
            &&& !(progress is GuestJoined || progress is GuestFailed) && !late
                && crate::discovery::TCP_CONNECT_TIMEOUT_MS > 0 ==> after == phase
        }),
{
}

/// A guest waits for the match once the host is reached; a host that cannot be
/// reached, and a match that cannot start, are reported.
pub proof fn law_guests_wait(phase: Phase, now_ms: u64, progress: LobbyProgress)
    requires
        phase is Connecting || phase is Waiting,
    ensures
        ({
            let after = phase_advanced(phase, now_ms, progress);
            let failed = (phase is Connecting && progress is HostFailed) || (phase is Waiting && progress is RoomFailed);
            &&& phase is Connecting && progress is HostReached ==> after is Waiting
            &&& failed ==> shows_failure(after, "接続できませんでした"@, now_ms, Seq::empty())
            &&& !failed && !(phase is Connecting && progress is HostReached) ==> after == phase
        }),
{
}

/// A notice is on show for one and a half seconds. Who looks around, or has been
/// invited, is not hurried.
pub proof fn law_waiting_is_free(phase: Phase, now_ms: u64, progress: LobbyProgress)
    ensures
        ({
            let after = phase_advanced(phase, now_ms, progress);
            &&& phase is Discovering || phase is Incoming ==> after == phase
            &&& phase is Notice && now_ms - phase->shown_at_ms >= 1500 ==> looks_around(after, phase->Notice_guests)
            &&& phase is Notice && now_ms - phase->shown_at_ms < 1500 ==> after == phase
        }),
{
}

/// The choice is brought back onto the list when the list has shrunk, and is
/// left alone otherwise.
pub proof fn law_the_choice_stays_on_the_list(selection: int, len: int)
    requires
        0 <= selection,
        0 <= len,
    ensures
        selection < len ==> clamped_selection(selection, len) == selection,
        selection >= len && len > 0 ==> clamped_selection(selection, len) == len - 1,
        len == 0 ==> clamped_selection(selection, len) == 0,
{
}

/// Which phases hold guests.
pub proof fn law_where_guests_are(phase: Phase)
    ensures
        phase matches Phase::Discovering { guests } ==> guests_of(phase) == guests,
        phase matches Phase::Awaiting { guests, .. } ==> guests_of(phase) == guests,
        phase matches Phase::Accepting { guests, .. } ==> guests_of(phase) == guests,
        phase matches Phase::Notice { guests, .. } ==> guests_of(phase) == guests,
        phase is Incoming || phase is Connecting || phase is Waiting ==> guests_of(phase).len() == 0,
        room_fits(phase) ==> guests_of(phase).len() <= 3,
        room_fits(phase) && (phase is Awaiting || phase is Accepting) ==> guests_of(phase).len() <= 2,
{
}

} // verus!
