use simcore::codec::{decode, encode};
use simcore::components::{Action, Dir, Player, SendAction, Terrain};
use simcore::math::V2;
use simcore::message::Message;

fn roundtrip(m: Message) {
    let bytes = encode(&m);
    let back = decode(&bytes).expect("a frame that encode produced must decode");
    assert_eq!(back, m);
}

#[test]
fn roundtrip_login_request() {
    roundtrip(Message::LoginRequest { class: 7 });
}

#[test]
fn roundtrip_login_response() {
    roundtrip(Message::LoginResponse {
        player: Player { id: 42, class: 3 },
        spawn: V2 { x: 10000, y: -250 },
    });
}

#[test]
fn roundtrip_terrain_request() {
    roundtrip(Message::TerrainRequest);
}

#[test]
fn roundtrip_terrain_response() {
    roundtrip(Message::TerrainResponse { blocks: vec![] });
    roundtrip(Message::TerrainResponse {
        blocks: vec![
            Terrain { pos: V2 { x: 0, y: 10000 }, size: V2 { x: 50000, y: 2000 } },
            Terrain { pos: V2 { x: -300, y: 0 }, size: V2 { x: 100, y: 100 } },
        ],
    });
}

#[test]
fn roundtrip_player_state() {
    roundtrip(Message::PlayerState {
        state: SendAction {
            player: Player { id: 1, class: 0 },
            pos: V2 { x: 100, y: -200 },
            vel: V2 { x: 500, y: 0 },
            acc: V2 { x: 0, y: -15 },
            dir: Dir { facing: -1 },
            action: Action { update: true, jump: false, right: false, left: true, take: true },
        },
    });
}

#[test]
fn login_request_exact_bytes() {
    let bytes = encode(&Message::LoginRequest { class: 7 });
    assert_eq!(bytes, vec![0u8, 7, 0, 0, 0, 0, 0, 0, 0]);
}

#[test]
fn terrain_request_exact_bytes() {
    assert_eq!(encode(&Message::TerrainRequest), vec![2u8]);
}

#[test]
fn decode_rejects_empty_frame() {
    assert!(decode(&vec![]).is_err());
}

#[test]
fn decode_rejects_ragged_length() {
    // A tag with a body that is not a whole number of words.
    assert!(decode(&vec![0u8, 1, 2, 3]).is_err());
}

#[test]
fn decode_rejects_unknown_tag() {
    assert!(decode(&vec![9u8, 0, 0, 0, 0, 0, 0, 0, 0]).is_err());
}

#[test]
fn decode_rejects_wrong_word_count() {
    // LoginRequest takes exactly one word, not two.
    let mut bytes = encode(&Message::LoginRequest { class: 7 });
    bytes.extend_from_slice(&[0u8; 8]);
    assert!(decode(&bytes).is_err());
}

#[test]
fn decode_rejects_bad_terrain_count() {
    // A terrain response whose count word does not match its payload.
    let mut bytes = encode(&Message::TerrainResponse {
        blocks: vec![Terrain { pos: V2 { x: 1, y: 2 }, size: V2 { x: 3, y: 4 } }],
    });
    // Corrupt the count from one to two.
    bytes[1] = 2;
    assert!(decode(&bytes).is_err());
}

#[test]
fn encode_is_injective_on_distinct_messages() {
    let a = encode(&Message::LoginRequest { class: 1 });
    let b = encode(&Message::LoginRequest { class: 2 });
    assert_ne!(a, b);
}
