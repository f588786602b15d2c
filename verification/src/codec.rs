//! Binary codec of the message envelope.
//!
//! A frame is one tag byte followed by a run of 64-bit little-endian
//! words: every numeric field is one word (signed values in two's
//! complement), every flag is one word (zero or one), and the terrain
//! batch is its length followed by four words per block. Decoding is
//! the exact inverse of encoding for every message.

use vstd::prelude::*;
use crate::components::{Action, Dir, Player, SendAction, Terrain};
use crate::math::V2;
use crate::message::{DecodeError, Message, MessageModel};

verus! {

/// The eight little-endian bytes of a word.
pub open spec fn u64_bytes(x: u64) -> Seq<u8> {
    seq![
        (x & 0xff) as u8,
        ((x >> 8) & 0xff) as u8,
        ((x >> 16) & 0xff) as u8,
        ((x >> 24) & 0xff) as u8,
        ((x >> 32) & 0xff) as u8,
        ((x >> 40) & 0xff) as u8,
        ((x >> 48) & 0xff) as u8,
        ((x >> 56) & 0xff) as u8,
    ]
}

/// The word read back from eight little-endian bytes.
pub open spec fn u64_of(s: Seq<u8>) -> u64
    recommends
        s.len() == 8,
{
    (s[0] as u64) | ((s[1] as u64) << 8) | ((s[2] as u64) << 16) | ((s[3] as u64) << 24) | ((
    s[4] as u64) << 32) | ((s[5] as u64) << 40) | ((s[6] as u64) << 48) | ((s[7] as u64) << 56)
}

/// Serializing a word and reading it back is the identity.
pub proof fn lemma_u64_rt(x: u64)
    ensures
        u64_of(u64_bytes(x)) == x,
{
    let s = u64_bytes(x);
    let b0 = s[0];
    let b1 = s[1];
    let b2 = s[2];
    let b3 = s[3];
    let b4 = s[4];
    let b5 = s[5];
    let b6 = s[6];
    let b7 = s[7];
    assert(((b0 as u64) | ((b1 as u64) << 8) | ((b2 as u64) << 16) | ((b3 as u64) << 24) | ((
    b4 as u64) << 32) | ((b5 as u64) << 40) | ((b6 as u64) << 48) | ((b7 as u64) << 56)) == x)
        by (bit_vector)
        requires
            b0 == (x & 0xff) as u8,
            b1 == ((x >> 8) & 0xff) as u8,
            b2 == ((x >> 16) & 0xff) as u8,
            b3 == ((x >> 24) & 0xff) as u8,
            b4 == ((x >> 32) & 0xff) as u8,
            b5 == ((x >> 40) & 0xff) as u8,
            b6 == ((x >> 48) & 0xff) as u8,
            b7 == ((x >> 56) & 0xff) as u8,
    ;
}

/// A signed value survives the trip through its two's-complement word.
pub proof fn lemma_i64_rt(v: i64)
    ensures
        ((v as u64) as i64) == v,
{
    assert(((v as u64) as i64) == v) by (bit_vector);
}

/// The bytes of a run of words.
pub open spec fn words_bytes(ws: Seq<u64>) -> Seq<u8>
    decreases ws.len(),
{
    if ws.len() == 0 {
        Seq::empty()
    } else {
        u64_bytes(ws[0]) + words_bytes(ws.drop_first())
    }
}

/// The words read back from a byte run whose length is a multiple of
/// eight.
pub open spec fn parse_words(s: Seq<u8>) -> Seq<u64>
    decreases s.len(),
{
    if s.len() < 8 {
        Seq::empty()
    } else {
        seq![u64_of(s.take(8))] + parse_words(s.skip(8))
    }
}

pub proof fn lemma_words_bytes_len(ws: Seq<u64>)
    ensures
        words_bytes(ws).len() == 8 * ws.len(),
    decreases ws.len(),
{
    if ws.len() > 0 {
        lemma_words_bytes_len(ws.drop_first());
    }
}

/// Serializing a run of words and reading it back is the identity.
pub proof fn lemma_words_rt(ws: Seq<u64>)
    ensures
        parse_words(words_bytes(ws)) == ws,
    decreases ws.len(),
{
    if ws.len() == 0 {
        assert(parse_words(words_bytes(ws)) =~= ws);
    } else {
        let s = words_bytes(ws);
        lemma_words_bytes_len(ws.drop_first());
        assert(s.take(8) =~= u64_bytes(ws[0]));
        assert(s.skip(8) =~= words_bytes(ws.drop_first()));
        lemma_u64_rt(ws[0]);
        lemma_words_rt(ws.drop_first());
        assert(parse_words(s) =~= ws);
    }
}

/// Appending one word appends its eight bytes.
pub proof fn lemma_words_bytes_snoc(ws: Seq<u64>, x: u64)
    ensures
        words_bytes(ws.push(x)) == words_bytes(ws) + u64_bytes(x),
    decreases ws.len(),
{
    let p = ws.push(x);
    if ws.len() == 0 {
        assert(p.len() == 1);
        assert(p[0] == x);
        assert(p.drop_first() =~= Seq::<u64>::empty());
        assert(words_bytes(p.drop_first()) == Seq::<u8>::empty());
        assert(words_bytes(p) == u64_bytes(p[0]) + words_bytes(p.drop_first()));
        assert(words_bytes(ws) == Seq::<u8>::empty());
        assert(words_bytes(p) =~= words_bytes(ws) + u64_bytes(x));
    } else {
        assert(ws.push(x)[0] == ws[0]);
        assert(ws.push(x).drop_first() =~= ws.drop_first().push(x));
        lemma_words_bytes_snoc(ws.drop_first(), x);
        assert(words_bytes(ws.push(x)) == u64_bytes(ws[0]) + words_bytes(ws.drop_first().push(x)));
        assert(words_bytes(ws.push(x)) =~= words_bytes(ws) + u64_bytes(x));
    }
}

/// The word at index `k` of a parsed byte run.
pub proof fn lemma_parse_words_index(s: Seq<u8>, k: int)
    requires
        s.len() % 8 == 0,
        0 <= k,
        8 * k < s.len(),
    ensures
        parse_words(s).len() == s.len() / 8,
        parse_words(s)[k] == u64_of(s.subrange(8 * k, 8 * k + 8)),
    decreases s.len(),
{
    assert(s.len() >= 8);
    if k == 0 {
        assert(s.take(8) =~= s.subrange(0, 8));
        if s.len() > 8 {
            lemma_parse_words_index(s.skip(8), 0);
        }
        lemma_parse_words_len(s);
    } else {
        lemma_parse_words_index(s.skip(8), k - 1);
        assert(s.skip(8).subrange(8 * (k - 1), 8 * (k - 1) + 8) =~= s.subrange(8 * k, 8 * k + 8));
        lemma_parse_words_len(s);
    }
}

pub proof fn lemma_parse_words_len(s: Seq<u8>)
    requires
        s.len() % 8 == 0,
    ensures
        parse_words(s).len() == s.len() / 8,
    decreases s.len(),
{
    if s.len() >= 8 {
        lemma_parse_words_len(s.skip(8));
    }
}

/// One as true, zero as false.
pub open spec fn bool_word(b: bool) -> u64 {
    if b {
        1u64
    } else {
        0u64
    }
}

/// The four words of one terrain block.
pub open spec fn terrain_words(t: Terrain) -> Seq<u64> {
    seq![t.pos.x as u64, t.pos.y as u64, t.size.x as u64, t.size.y as u64]
}

/// The words of a terrain batch, four per block.
pub open spec fn words_of_terrains(bs: Seq<Terrain>) -> Seq<u64>
    decreases bs.len(),
{
    if bs.len() == 0 {
        Seq::empty()
    } else {
        terrain_words(bs[0]) + words_of_terrains(bs.drop_first())
    }
}

/// The terrain block described by the four words at group `k`.
pub open spec fn terrain_at(ws: Seq<u64>, k: int) -> Terrain {
    Terrain {
        pos: V2 { x: ws[4 * k] as i64, y: ws[4 * k + 1] as i64 },
        size: V2 { x: ws[4 * k + 2] as i64, y: ws[4 * k + 3] as i64 },
    }
}

/// The terrain batch read back from `cnt` groups of four words.
pub open spec fn terrains_of_words(ws: Seq<u64>, cnt: nat) -> Seq<Terrain>
    decreases cnt,
{
    if cnt == 0 {
        Seq::empty()
    } else {
        seq![terrain_at(ws, 0)] + terrains_of_words(ws.skip(4), (cnt - 1) as nat)
    }
}

pub proof fn lemma_words_of_terrains_len(bs: Seq<Terrain>)
    ensures
        words_of_terrains(bs).len() == 4 * bs.len(),
    decreases bs.len(),
{
    if bs.len() > 0 {
        lemma_words_of_terrains_len(bs.drop_first());
    }
}

/// Appending one block appends its four words.
pub proof fn lemma_terrain_words_snoc(bs: Seq<Terrain>, t: Terrain)
    ensures
        words_of_terrains(bs.push(t)) == words_of_terrains(bs) + terrain_words(t),
    decreases bs.len(),
{
    let p = bs.push(t);
    if bs.len() == 0 {
        assert(p.len() == 1);
        assert(p[0] == t);
        assert(p.drop_first() =~= Seq::<Terrain>::empty());
        assert(words_of_terrains(p.drop_first()) == Seq::<u64>::empty());
        assert(words_of_terrains(p) == terrain_words(p[0]) + words_of_terrains(p.drop_first()));
        assert(words_of_terrains(bs) == Seq::<u64>::empty());
        assert(words_of_terrains(p) =~= words_of_terrains(bs) + terrain_words(t));
    } else {
        assert(bs.push(t)[0] == bs[0]);
        assert(bs.push(t).drop_first() =~= bs.drop_first().push(t));
        lemma_terrain_words_snoc(bs.drop_first(), t);
        assert(words_of_terrains(bs.push(t)) == terrain_words(bs[0]) + words_of_terrains(
            bs.drop_first().push(t),
        ));
        assert(words_of_terrains(bs.push(t)) =~= words_of_terrains(bs) + terrain_words(t));
    }
}

pub proof fn lemma_terrains_of_words_len(ws: Seq<u64>, cnt: nat)
    ensures
        terrains_of_words(ws, cnt).len() == cnt,
    decreases cnt,
{
    if cnt > 0 {
        lemma_terrains_of_words_len(ws.skip(4), (cnt - 1) as nat);
    }
}

/// The block at index `k` of a parsed terrain batch.
pub proof fn lemma_terrains_of_words_index(ws: Seq<u64>, cnt: nat, k: int)
    requires
        0 <= k < cnt,
        4 * cnt <= ws.len(),
    ensures
        terrains_of_words(ws, cnt)[k] == terrain_at(ws, k),
    decreases cnt,
{
    lemma_terrains_of_words_len(ws.skip(4), (cnt - 1) as nat);
    if k > 0 {
        lemma_terrains_of_words_index(ws.skip(4), (cnt - 1) as nat, k - 1);
        assert(terrain_at(ws.skip(4), k - 1) == terrain_at(ws, k));
    }
}

/// Serializing a terrain batch and reading it back is the identity.
pub proof fn lemma_terrains_rt(bs: Seq<Terrain>)
    ensures
        terrains_of_words(words_of_terrains(bs), bs.len()) == bs,
    decreases bs.len(),
{
    if bs.len() > 0 {
        let ws = words_of_terrains(bs);
        lemma_words_of_terrains_len(bs.drop_first());
        assert(ws.skip(4) =~= words_of_terrains(bs.drop_first()));
        lemma_i64_rt(bs[0].pos.x);
        lemma_i64_rt(bs[0].pos.y);
        lemma_i64_rt(bs[0].size.x);
        lemma_i64_rt(bs[0].size.y);
        assert(terrain_at(ws, 0) == bs[0]);
        lemma_terrains_rt(bs.drop_first());
        assert(terrains_of_words(ws, bs.len()) =~= bs);
    }
}

/// The tag byte of each variant.
pub open spec fn tag_of(m: MessageModel) -> u8 {
    match m {
        MessageModel::LoginRequest { .. } => 0u8,
        MessageModel::LoginResponse { .. } => 1u8,
        MessageModel::TerrainRequest => 2u8,
        MessageModel::TerrainResponse { .. } => 3u8,
        MessageModel::PlayerState { .. } => 4u8,
    }
}

/// The word run of each variant.
pub open spec fn words_of(m: MessageModel) -> Seq<u64> {
    match m {
        MessageModel::LoginRequest { class } => seq![class],
        MessageModel::LoginResponse { player, spawn } => seq![
            player.id,
            player.class,
            spawn.x as u64,
            spawn.y as u64,
        ],
        MessageModel::TerrainRequest => Seq::empty(),
        MessageModel::TerrainResponse { blocks } => seq![blocks.len() as u64]
            + words_of_terrains(blocks),
        MessageModel::PlayerState { state } => seq![
            state.player.id,
            state.player.class,
            state.pos.x as u64,
            state.pos.y as u64,
            state.vel.x as u64,
            state.vel.y as u64,
            state.acc.x as u64,
            state.acc.y as u64,
            state.dir.facing as u64,
            bool_word(state.action.update),
            bool_word(state.action.jump),
            bool_word(state.action.right),
            bool_word(state.action.left),
            bool_word(state.action.take),
        ],
    }
}

/// The frame of a message: its tag byte and its word run.
pub open spec fn spec_encode(m: MessageModel) -> Seq<u8> {
    seq![tag_of(m)] + words_bytes(words_of(m))
}

/// The message a word run describes under a tag, if any.
pub open spec fn decode_words(tag: u8, ws: Seq<u64>) -> Option<MessageModel> {
    if tag == 0 {
        if ws.len() == 1 {
            Some(MessageModel::LoginRequest { class: ws[0] })
        } else {
            None
        }
    } else if tag == 1 {
        if ws.len() == 4 {
            Some(
                MessageModel::LoginResponse {
                    player: Player { id: ws[0], class: ws[1] },
                    spawn: V2 { x: ws[2] as i64, y: ws[3] as i64 },
                },
            )
        } else {
            None
        }
    } else if tag == 2 {
        if ws.len() == 0 {
            Some(MessageModel::TerrainRequest)
        } else {
            None
        }
    } else if tag == 3 {
        if ws.len() >= 1 && ws.len() - 1 == 4 * ws[0] {
            Some(
                MessageModel::TerrainResponse {
                    blocks: terrains_of_words(ws.skip(1), ws[0] as nat),
                },
            )
        } else {
            None
        }
    } else if tag == 4 {
        if ws.len() == 14 {
            Some(
                MessageModel::PlayerState {
                    state: SendAction {
                        player: Player { id: ws[0], class: ws[1] },
                        pos: V2 { x: ws[2] as i64, y: ws[3] as i64 },
                        vel: V2 { x: ws[4] as i64, y: ws[5] as i64 },
                        acc: V2 { x: ws[6] as i64, y: ws[7] as i64 },
                        dir: Dir { facing: ws[8] as i64 },
                        action: Action {
                            update: ws[9] != 0,
                            jump: ws[10] != 0,
                            right: ws[11] != 0,
                            left: ws[12] != 0,
                            take: ws[13] != 0,
                        },
                    },
                },
            )
        } else {
            None
        }
    } else {
        None
    }
}

/// The message a frame describes, if any.
pub open spec fn spec_decode(s: Seq<u8>) -> Option<MessageModel> {
    if s.len() < 1 {
        None
    } else if (s.len() - 1) % 8 != 0 {
        None
    } else {
        decode_words(s[0], parse_words(s.skip(1)))
    }
}

/// Decoding is the exact inverse of encoding for every message whose
/// terrain batch fits a word-sized count.
pub proof fn lemma_round_trip(m: MessageModel)
    requires
        m matches MessageModel::TerrainResponse { blocks } ==> blocks.len()
            < 0x1_0000_0000_0000_0000,
    ensures
        spec_decode(spec_encode(m)) == Some(m),
{
    let ws = words_of(m);
    let s = spec_encode(m);
    lemma_words_bytes_len(ws);
    assert(s.skip(1) =~= words_bytes(ws));
    lemma_words_rt(ws);
    match m {
        MessageModel::LoginRequest { class } => {
        },
        MessageModel::LoginResponse { player, spawn } => {
            lemma_i64_rt(spawn.x);
            lemma_i64_rt(spawn.y);
        },
        MessageModel::TerrainRequest => {
        },
        MessageModel::TerrainResponse { blocks } => {
            lemma_words_of_terrains_len(blocks);
            assert(ws.skip(1) =~= words_of_terrains(blocks));
            lemma_terrains_rt(blocks);
            assert(ws[0] == blocks.len() as u64);
            assert(ws[0] as nat == blocks.len());
        },
        MessageModel::PlayerState { state } => {
            lemma_i64_rt(state.pos.x);
            lemma_i64_rt(state.pos.y);
            lemma_i64_rt(state.vel.x);
            lemma_i64_rt(state.vel.y);
            lemma_i64_rt(state.acc.x);
            lemma_i64_rt(state.acc.y);
            lemma_i64_rt(state.dir.facing);
            assert(decode_words(4u8, ws) == Some(m));
        },
    }
}

/// The low byte of a word.
fn low_byte(x: u64) -> (r: u8)
    ensures
        r == (x & 0xff) as u8,
{
    proof {
        assert(x & 0xff < 256) by (bit_vector);
    }
    (x & 0xff) as u8
}

/// Append the eight little-endian bytes of one word.
fn push_u64(out: &mut Vec<u8>, x: u64)
    ensures
        final(out)@ == old(out)@ + u64_bytes(x),
{
    out.push(low_byte(x));
    out.push(low_byte(x >> 8));
    out.push(low_byte(x >> 16));
    out.push(low_byte(x >> 24));
    out.push(low_byte(x >> 32));
    out.push(low_byte(x >> 40));
    out.push(low_byte(x >> 48));
    out.push(low_byte(x >> 56));
    proof {
        assert(out@ =~= old(out)@ + u64_bytes(x));
    }
}

/// Read the word at byte offset `off`.
fn read_u64(s: &Vec<u8>, off: usize) -> (r: u64)
    requires
        off + 8 <= s@.len(),
    ensures
        r == u64_of(s@.subrange(off as int, off as int + 8)),
{
    let n = s.len();
    proof {
        assert(off + 8 <= n);
    }
    let b0 = s[off];
    let b1 = s[off + 1];
    let b2 = s[off + 2];
    let b3 = s[off + 3];
    let b4 = s[off + 4];
    let b5 = s[off + 5];
    let b6 = s[off + 6];
    let b7 = s[off + 7];
    let r = (b0 as u64) | ((b1 as u64) << 8) | ((b2 as u64) << 16) | ((b3 as u64) << 24) | ((
    b4 as u64) << 32) | ((b5 as u64) << 40) | ((b6 as u64) << 48) | ((b7 as u64) << 56);
    proof {
        let sub = s@.subrange(off as int, off as int + 8);
        assert(sub[0] == b0 && sub[1] == b1 && sub[2] == b2 && sub[3] == b3 && sub[4] == b4
            && sub[5] == b5 && sub[6] == b6 && sub[7] == b7);
    }
    r
}

/// Append a whole word run as bytes.
fn push_words(out: &mut Vec<u8>, ws: &Vec<u64>)
    ensures
        final(out)@ == old(out)@ + words_bytes(ws@),
{
    let mut k: usize = 0;
    let n = ws.len();
    while k < n
        invariant
            n == ws@.len(),
            0 <= k <= n,
            out@ == old(out)@ + words_bytes(ws@.take(k as int)),
        decreases n - k,
    {
        push_u64(out, ws[k]);
        proof {
            lemma_words_bytes_snoc(ws@.take(k as int), ws@[k as int]);
            assert(ws@.take(k as int + 1) =~= ws@.take(k as int).push(ws@[k as int]));
            assert(out@ =~= old(out)@ + words_bytes(ws@.take(k as int + 1)));
        }
        k = k + 1;
    }
    proof {
        assert(ws@.take(n as int) =~= ws@);
    }
}

/// Serialize a message into a frame.
pub fn encode(m: &Message) -> (r: Vec<u8>)
    ensures
        r@ == spec_encode(m.model()),
{
    let mut ws: Vec<u64> = Vec::new();
    let tag: u8;
    match m {
        Message::LoginRequest { class } => {
            tag = 0;
            ws.push(*class);
            proof {
                assert(ws@ =~= words_of(m.model()));
            }
        },
        Message::LoginResponse { player, spawn } => {
            tag = 1;
            ws.push(player.id);
            ws.push(player.class);
            proof {
                lemma_i64_rt(spawn.x);
                lemma_i64_rt(spawn.y);
            }
            ws.push(spawn.x as u64);
            ws.push(spawn.y as u64);
            proof {
                assert(ws@ =~= words_of(m.model()));
            }
        },
        Message::TerrainRequest => {
            tag = 2;
            proof {
                assert(ws@ =~= words_of(m.model()));
            }
        },
        Message::TerrainResponse { blocks } => {
            tag = 3;
            ws.push(blocks.len() as u64);
            let cnt = blocks.len();
            let mut k: usize = 0;
            while k < cnt
                invariant
                    cnt == blocks@.len(),
                    0 <= k <= cnt,
                    ws@ == seq![blocks@.len() as u64] + words_of_terrains(
                        blocks@.take(k as int),
                    ),
                decreases cnt - k,
            {
                let t = blocks[k];
                ws.push(t.pos.x as u64);
                ws.push(t.pos.y as u64);
                ws.push(t.size.x as u64);
                ws.push(t.size.y as u64);
                proof {
                    lemma_terrain_words_snoc(blocks@.take(k as int), blocks@[k as int]);
                    assert(blocks@.take(k as int + 1) =~= blocks@.take(k as int).push(
                        blocks@[k as int],
                    ));
                    assert(ws@ =~= seq![blocks@.len() as u64] + words_of_terrains(
                        blocks@.take(k as int + 1),
                    ));
                }
                k = k + 1;
            }
            proof {
                assert(blocks@.take(cnt as int) =~= blocks@);
                assert(ws@ =~= words_of(m.model()));
            }
        },
        Message::PlayerState { state } => {
            tag = 4;
            ws.push(state.player.id);
            ws.push(state.player.class);
            ws.push(state.pos.x as u64);
            ws.push(state.pos.y as u64);
            ws.push(state.vel.x as u64);
            ws.push(state.vel.y as u64);
            ws.push(state.acc.x as u64);
            ws.push(state.acc.y as u64);
            ws.push(state.dir.facing as u64);
            ws.push(if state.action.update { 1 } else { 0 });
            ws.push(if state.action.jump { 1 } else { 0 });
            ws.push(if state.action.right { 1 } else { 0 });
            ws.push(if state.action.left { 1 } else { 0 });
            ws.push(if state.action.take { 1 } else { 0 });
            proof {
                assert(ws@ =~= words_of(m.model()));
            }
        },
    }
    let mut out: Vec<u8> = Vec::new();
    out.push(tag);
    push_words(&mut out, &ws);
    proof {
        assert(out@ =~= spec_encode(m.model()));
    }
    out
}

/// Parse a frame back into a message; a frame that no message encodes
/// to is rejected.
pub fn decode(s: &Vec<u8>) -> (r: Result<Message, DecodeError>)
    ensures
        r matches Ok(m) ==> spec_decode(s@) == Some(m.model()),
        r is Err ==> spec_decode(s@) is None,
{
    let len = s.len();
    if len < 1 {
        return Err(DecodeError);
    }
    if (len - 1) % 8 != 0 {
        return Err(DecodeError);
    }
    let tag = s[0];
    let nw = (len - 1) / 8;
    proof {
        assert(8 * ((len - 1) as int / 8) <= (len - 1) as int);
    }
    let mut ws: Vec<u64> = Vec::new();
    let ghost body = s@.skip(1);
    proof {
        lemma_parse_words_len(body);
    }
    let mut k: usize = 0;
    while k < nw
        invariant
            s@.len() >= 1,
            (s@.len() - 1) % 8 == 0,
            body == s@.skip(1),
            nw == body.len() / 8,
            8 * nw <= s@.len() - 1,
            s@.len() <= usize::MAX,
            0 <= k <= nw,
            ws@.len() == k,
            forall|i: int| 0 <= i < k ==> ws@[i] == u64_of(
                body.subrange(8 * i, 8 * i + 8),
            ),
        decreases nw - k,
    {
        let w = read_u64(s, 1 + 8 * k);
        proof {
            assert(s@.subrange(1 + 8 * k as int, 1 + 8 * k as int + 8) =~= body.subrange(
                8 * k as int,
                8 * k as int + 8,
            ));
        }
        ws.push(w);
        k = k + 1;
    }
    proof {
        assert forall|i: int| 0 <= i < nw implies ws@[i] == parse_words(body)[i] by {
            lemma_parse_words_index(body, i);
        }
        lemma_parse_words_len(body);
        assert(ws@ =~= parse_words(body));
    }
    if tag == 0 {
        if ws.len() == 1 {
            Ok(Message::LoginRequest { class: ws[0] })
        } else {
            Err(DecodeError)
        }
    } else if tag == 1 {
        if ws.len() == 4 {
            Ok(
                Message::LoginResponse {
                    player: Player { id: ws[0], class: ws[1] },
                    spawn: V2 { x: ws[2] as i64, y: ws[3] as i64 },
                },
            )
        } else {
            Err(DecodeError)
        }
    } else if tag == 2 {
        if ws.len() == 0 {
            Ok(Message::TerrainRequest)
        } else {
            Err(DecodeError)
        }
    } else if tag == 3 {
        if ws.len() < 1 {
            return Err(DecodeError);
        }
        let cnt64 = ws[0];
        let rem = ws.len() - 1;
        if cnt64 > (rem as u64) {
            proof {
                assert(4 * (cnt64 as int) >= cnt64 as int);
            }
            return Err(DecodeError);
        }
        let cnt = cnt64 as usize;
        if rem / 4 != cnt || rem % 4 != 0 {
            return Err(DecodeError);
        }
        let wlen = ws.len();
        proof {
            assert(wlen as int == ws@.len());
        }
        let mut blocks: Vec<Terrain> = Vec::new();
        let mut b: usize = 0;
        while b < cnt
            invariant
                ws@.len() >= 1,
                ws@.len() <= usize::MAX,
                cnt < ws@.len(),
                ws@.len() - 1 == 4 * cnt,
                0 <= b <= cnt,
                blocks@.len() == b,
                forall|i: int| 0 <= i < b ==> blocks@[i] == terrain_at(ws@.skip(1), i),
            decreases cnt - b,
        {
            let t = Terrain {
                pos: V2 { x: ws[1 + 4 * b] as i64, y: ws[2 + 4 * b] as i64 },
                size: V2 { x: ws[3 + 4 * b] as i64, y: ws[4 + 4 * b] as i64 },
            };
            proof {
                assert(ws@.skip(1)[4 * b as int] == ws@[1 + 4 * b as int]);
                assert(ws@.skip(1)[4 * b as int + 1] == ws@[2 + 4 * b as int]);
                assert(ws@.skip(1)[4 * b as int + 2] == ws@[3 + 4 * b as int]);
                assert(ws@.skip(1)[4 * b as int + 3] == ws@[4 + 4 * b as int]);
            }
            blocks.push(t);
            b = b + 1;
        }
        let r = Message::TerrainResponse { blocks };
        proof {
            lemma_terrains_of_words_len(ws@.skip(1), cnt as nat);
            assert forall|i: int| 0 <= i < cnt implies terrains_of_words(ws@.skip(1), cnt as nat)[i]
                == terrain_at(ws@.skip(1), i) by {
                lemma_terrains_of_words_index(ws@.skip(1), cnt as nat, i);
            }
            assert(r.model() matches MessageModel::TerrainResponse { blocks: bb } && bb
                =~= terrains_of_words(ws@.skip(1), cnt as nat));
        }
        Ok(r)
    } else if tag == 4 {
        if ws.len() == 14 {
            Ok(
                Message::PlayerState {
                    state: SendAction {
                        player: Player { id: ws[0], class: ws[1] },
                        pos: V2 { x: ws[2] as i64, y: ws[3] as i64 },
                        vel: V2 { x: ws[4] as i64, y: ws[5] as i64 },
                        acc: V2 { x: ws[6] as i64, y: ws[7] as i64 },
                        dir: Dir { facing: ws[8] as i64 },
                        action: Action {
                            update: ws[9] != 0,
                            jump: ws[10] != 0,
                            right: ws[11] != 0,
                            left: ws[12] != 0,
                            take: ws[13] != 0,
                        },
                    },
                },
            )
        } else {
            Err(DecodeError)
        }
    } else {
        Err(DecodeError)
    }
}

} // verus!
