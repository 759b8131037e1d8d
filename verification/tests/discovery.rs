//! The packets by which players find and invite each other.
use misterdrillerterm::discovery::{
    decode_player_name, truncate_on_char_boundary, DiscoveryPacket, PacketType, PeerId,
};
use uuid::Uuid;

fn peer(id: u128) -> PeerId {
    PeerId { bytes: *Uuid::from_u128(id).as_bytes() }
}

fn discovery_packet(packet_type: PacketType, target_id: PeerId) -> DiscoveryPacket {
    DiscoveryPacket {
        packet_type,
        sender_id: peer(0x1122_3344_5566_7788_99aa_bbcc_ddee_ff00),
        target_id,
        player_name: "Player-1a2b".to_string(),
        tcp_port: 39395,
    }
}

#[test]
fn every_discovery_packet_kind_round_trips_through_the_fixed_layout() {
    for packet_type in [
        PacketType::Hello,
        PacketType::Invite,
        PacketType::Accept,
        PacketType::Decline,
        PacketType::Bye,
        PacketType::RequestStart,
    ] {
        let target_id = match packet_type {
            PacketType::Hello | PacketType::Bye => PeerId::nil(),
            _ => peer(0x0102_0304_0506_0708_090a_0b0c_0d0e_0f10),
        };
        let packet = discovery_packet(packet_type, target_id);

        let restored = DiscoveryPacket::decode(&packet.encode()).unwrap();

        assert_eq!(restored, packet);
    }
}

#[test]
fn the_encoded_packet_follows_the_byte_layout_in_the_spec() {
    let packet = discovery_packet(PacketType::Invite, peer(1));
    let bytes = packet.encode();

    assert_eq!(bytes.len(), 60);
    assert_eq!(&bytes[0..4], b"MDT1");
    assert_eq!(bytes[4], 0x02);
    assert_eq!(bytes[5], 1);
    assert_eq!(&bytes[6..22], &packet.sender_id.bytes);
    assert_eq!(&bytes[22..38], &packet.target_id.bytes);
    assert_eq!(&bytes[38..49], b"Player-1a2b");
    assert_eq!(&bytes[49..54], &[0, 0, 0, 0, 0]);
    assert_eq!(&bytes[54..56], &39395u16.to_le_bytes());
    assert_eq!(&bytes[56..60], &[0, 0, 0, 0]);
}

#[test]
fn a_player_name_longer_than_the_field_is_truncated_at_a_char_boundary() {
    let packet = DiscoveryPacket {
        player_name: "あいうえおかきくけこ".to_string(),
        ..discovery_packet(PacketType::Hello, PeerId::nil())
    };

    let restored = DiscoveryPacket::decode(&packet.encode()).unwrap();

    assert_eq!(restored.player_name, "あいうえお");
    assert_eq!(packet.encode()[53], 0);
}

#[test]
fn a_player_name_that_exactly_fills_the_field_is_kept_whole() {
    let packet = DiscoveryPacket {
        player_name: "0123456789abcdef".to_string(),
        ..discovery_packet(PacketType::Hello, PeerId::nil())
    };

    assert_eq!(
        DiscoveryPacket::decode(&packet.encode()).unwrap().player_name,
        "0123456789abcdef"
    );
}

#[test]
fn decoding_rejects_short_foreign_and_unknown_packets() {
    let packet = discovery_packet(PacketType::Hello, PeerId::nil());

    assert_eq!(DiscoveryPacket::decode(&packet.encode()[..59]), None);

    let mut foreign = packet.encode();
    foreign[0] = b'X';
    assert_eq!(DiscoveryPacket::decode(&foreign), None);

    let mut unknown_kind = packet.encode();
    unknown_kind[4] = 0x09;
    assert_eq!(DiscoveryPacket::decode(&unknown_kind), None);
}

#[test]
fn decoding_ignores_the_protocol_version_and_the_reserved_bytes() {
    let packet = discovery_packet(PacketType::Hello, PeerId::nil());
    let mut bytes = packet.encode();
    bytes[5] = 9;
    bytes[56..60].copy_from_slice(&[1, 2, 3, 4]);

    assert_eq!(DiscoveryPacket::decode(&bytes), Some(packet));
}

#[test]
fn bytes_that_are_no_text_become_replacement_characters() {
    assert_eq!(decode_player_name(&[b'a', 0xff, b'b', 0, b'c']), "a\u{fffd}b");
    assert_eq!(decode_player_name(&[]), "");
    assert_eq!(decode_player_name("あ".as_bytes()), "あ");
}

#[test]
fn a_name_is_cut_before_the_character_that_does_not_fit() {
    assert_eq!(truncate_on_char_boundary("aあ", 3), "a");
    assert_eq!(truncate_on_char_boundary("aあ", 4), "aあ");
    assert_eq!(truncate_on_char_boundary("あ", 0), "");
}
