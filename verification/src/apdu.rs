//! APDU command framing for the Ledger Ethereum application.
//!
//! Each operation is an ordered sequence of frames, every frame carrying at
//! most 255 payload bytes. Message signing reserves the BIP-32 header and a
//! 4-byte big-endian message length inside the first frame and then chunks
//! the raw message in 230-byte pieces; transaction signing assembles header
//! and transaction first and chunks the whole stream in 255-byte pieces.
//! The first frame of an operation carries `p1 = 0x00`, continuations
//! `p1 = 0x80`.
use vstd::prelude::*;

use crate::path::{be_word_bytes, words_bytes};

verus! {

/// Class byte of every Ethereum-application command.
pub const CLA_ETH: u8 = 0xE0;

/// Class byte of the dashboard query used to probe the active app.
pub const CLA_DASHBOARD: u8 = 0xB0;

pub const INS_GET_ADDRESS: u8 = 0x02;

pub const INS_SIGN_TX: u8 = 0x04;

pub const INS_SIGN_MESSAGE: u8 = 0x08;

pub const INS_APP_NAME: u8 = 0x01;

pub const P1_FIRST: u8 = 0x00;

pub const P1_CONTINUE: u8 = 0x80;

/// Most payload bytes one transport frame can carry.
pub const FRAME_CAPACITY: usize = 255;

/// Message bytes carried per frame when signing a personal message; the
/// rest of the first frame is taken by the BIP-32 header and the length
/// prefix.
pub const MESSAGE_CHUNK: usize = 230;

/// One APDU command frame.
pub struct ApduCommand {
    pub cla: u8,
    pub ins: u8,
    pub p1: u8,
    pub p2: u8,
    pub data: Vec<u8>,
}

/// The mathematical value of a frame.
pub struct ApduCommandView {
    pub cla: u8,
    pub ins: u8,
    pub p1: u8,
    pub p2: u8,
    pub data: Seq<u8>,
}

impl View for ApduCommand {
    type V = ApduCommandView;

    open spec fn view(&self) -> ApduCommandView {
        ApduCommandView {
            cla: self.cla,
            ins: self.ins,
            p1: self.p1,
            p2: self.p2,
            data: self.data@,
        }
    }
}

impl ApduCommandView {
    /// A frame the transport can carry.
    pub open spec fn wf(self) -> bool {
        self.data.len() <= 255
    }
}

impl ApduCommand {
    /// A field-for-field copy of the frame.
    pub fn duplicate(&self) -> (r: ApduCommand)
        ensures
            r@ == self@,
    {
        let mut data: Vec<u8> = Vec::new();
        data.extend_from_slice(self.data.as_slice());
        proof {
            assert(data@ =~= self.data@);
        }
        ApduCommand { cla: self.cla, ins: self.ins, p1: self.p1, p2: self.p2, data }
    }
}

/// An Ethereum-application frame: constant class byte, `p2` always zero.
pub open spec fn frame_view(ins: u8, p1: u8, data: Seq<u8>) -> ApduCommandView {
    ApduCommandView { cla: CLA_ETH, ins: ins, p1: p1, p2: 0x00, data: data }
}

/// The app-name probe: dashboard class, empty payload.
pub open spec fn probe_frame_view() -> ApduCommandView {
    ApduCommandView { cla: CLA_DASHBOARD, ins: INS_APP_NAME, p1: 0x00, p2: 0x00, data: Seq::empty() }
}

/// The executable frames agree, one for one, with the specified ones.
pub open spec fn frames_match(v: Seq<ApduCommand>, fs: Seq<ApduCommandView>) -> bool {
    &&& v.len() == fs.len()
    &&& forall|k: int| 0 <= k < v.len() ==> v[k]@ == fs[k]
}

/// How many `sz`-byte chunks a `len`-byte stream splits into; a stream of
/// at most one chunk (the empty one included) is one chunk.
pub open spec fn chunk_count(len: nat, sz: nat) -> nat
    decreases len,
{
    if sz == 0 {
        0
    } else if len <= sz {
        1
    } else {
        1 + chunk_count((len - sz) as nat, sz)
    }
}

/// The `k`-th `sz`-byte chunk of `data`.
pub open spec fn chunk_at(data: Seq<u8>, sz: nat, k: nat) -> Seq<u8> {
    data.subrange(
        (k * sz) as int,
        if (k + 1) * sz <= data.len() {
            ((k + 1) * sz) as int
        } else {
            data.len() as int
        },
    )
}

/// A chunk index is valid exactly when it starts inside the stream.
pub proof fn lemma_chunk_count(len: nat, sz: nat, k: nat)
    requires
        sz > 0,
        len > 0,
    ensures
        (k * sz < len) <==> (k < chunk_count(len, sz)),
    decreases k,
{
    if k == 0 {
    } else {
        if len <= sz {
            assert(k * sz >= sz) by (nonlinear_arith)
                requires
                    k >= 1,
                    sz > 0,
            ;
        } else {
            lemma_chunk_count((len - sz) as nat, sz, (k - 1) as nat);
            assert(k * sz == (k - 1) * sz + sz) by (nonlinear_arith);
        }
    }
}

/// The BIP-32 header byte: the number of path components.
pub open spec fn bip32_count_byte(path: Seq<u8>) -> u8 {
    (path.len() / 4) as u8
}

/// The single get-address frame: component count, then the encoded path.
pub open spec fn get_address_frames(path: Seq<u8>) -> Seq<ApduCommandView> {
    seq![frame_view(INS_GET_ADDRESS, P1_FIRST, seq![bip32_count_byte(path)] + path)]
}

/// Payload of the first sign-message frame: BIP-32 header, 4-byte
/// big-endian message length, and the message's first chunk.
pub open spec fn message_first_payload(path: Seq<u8>, msg: Seq<u8>) -> Seq<u8> {
    seq![bip32_count_byte(path)] + path + be_word_bytes(msg.len() as u32) + msg.take(
        if msg.len() <= 230 {
            msg.len() as int
        } else {
            230
        },
    )
}

/// The ordered sign-message frames: a length-prefixed first frame, then one
/// continuation frame per further 230-byte chunk of the raw message.
pub open spec fn sign_message_frames(path: Seq<u8>, msg: Seq<u8>) -> Seq<ApduCommandView> {
    seq![frame_view(INS_SIGN_MESSAGE, P1_FIRST, message_first_payload(path, msg))] + (if msg.len()
        <= 230 {
        Seq::<ApduCommandView>::empty()
    } else {
        Seq::new(
            chunk_count((msg.len() - 230) as nat, 230),
            |k: int| frame_view(INS_SIGN_MESSAGE, P1_CONTINUE, chunk_at(msg.skip(230), 230, k as nat)),
        )
    })
}

/// The assembled sign-transaction stream: BIP-32 header, encoded path, and
/// the canonical transaction bytes.
pub open spec fn tx_assembled(path: Seq<u8>, tx: Seq<u8>) -> Seq<u8> {
    seq![bip32_count_byte(path)] + path + tx
}

/// The ordered sign-transaction frames: the assembled stream cut in
/// 255-byte chunks, the first frame marked first, the rest continuations.
pub open spec fn sign_tx_frames(path: Seq<u8>, tx: Seq<u8>) -> Seq<ApduCommandView> {
    Seq::new(
        chunk_count(tx_assembled(path, tx).len(), 255),
        |k: int| frame_view(
            INS_SIGN_TX,
            if k == 0 {
                P1_FIRST
            } else {
                P1_CONTINUE
            },
            chunk_at(tx_assembled(path, tx), 255, k as nat),
        ),
    )
}

/// A message of at most one chunk (230 bytes) yields exactly one frame;
/// a longer one adds one continuation frame per further chunk. Only the
/// first frame of an operation is marked first.
pub proof fn lemma_message_frame_count(path: Seq<u8>, msg: Seq<u8>)
    ensures
        msg.len() <= 230 ==> sign_message_frames(path, msg).len() == 1,
        msg.len() > 230 ==> sign_message_frames(path, msg).len() == 1 + chunk_count(
            (msg.len() - 230) as nat,
            230,
        ),
        sign_message_frames(path, msg)[0].p1 == P1_FIRST,
        forall|k: int|
            1 <= k < sign_message_frames(path, msg).len()
                ==> (#[trigger] sign_message_frames(path, msg)[k]).p1 == P1_CONTINUE,
{
}

/// Builds the one get-address frame for an encoded path.
pub fn build_get_address(path: &Vec<u8>) -> (r: Vec<ApduCommand>)
    requires
        path@.len() % 4 == 0,
        path@.len() <= 252,
    ensures
        frames_match(r@, get_address_frames(path@)),
        forall|k: int| 0 <= k < r@.len() ==> (#[trigger] r@[k])@.wf(),
{
    let mut data: Vec<u8> = Vec::new();
    data.push((path.len() / 4) as u8);
    data.extend_from_slice(path.as_slice());
    proof {
        assert(data@ =~= seq![bip32_count_byte(path@)] + path@);
    }
    let frame = ApduCommand { cla: CLA_ETH, ins: INS_GET_ADDRESS, p1: P1_FIRST, p2: 0x00, data };
    let mut r: Vec<ApduCommand> = Vec::new();
    r.push(frame);
    r
}

/// Builds the ordered sign-message frames for an encoded path and a raw
/// message.
pub fn build_sign_message(path: &Vec<u8>, msg: &[u8]) -> (r: Vec<ApduCommand>)
    requires
        path@.len() % 4 == 0,
        5 + path@.len() + (if msg@.len() <= 230 {
            msg@.len() as int
        } else {
            230
        }) <= 255,
        msg@.len() <= u32::MAX,
    ensures
        frames_match(r@, sign_message_frames(path@, msg@)),
        forall|k: int| 0 <= k < r@.len() ==> (#[trigger] r@[k])@.wf(),
{
    let ghost fs = sign_message_frames(path@, msg@);
    let mut r: Vec<ApduCommand> = Vec::new();
    let msg_len = msg.len();
    let first_take: usize = if msg_len <= 230 {
        msg_len
    } else {
        230
    };
    let len32: u32 = msg_len as u32;
    let mut data: Vec<u8> = Vec::new();
    data.push((path.len() / 4) as u8);
    data.extend_from_slice(path.as_slice());
    proof {
        assert((((len32 >> 24) & 0xff) < 256 && ((len32 >> 16) & 0xff) < 256 && ((len32 >> 8)
            & 0xff) < 256 && (len32 & 0xff) < 256)) by (bit_vector);
    }
    data.push(((len32 >> 24) & 0xff) as u8);
    data.push(((len32 >> 16) & 0xff) as u8);
    data.push(((len32 >> 8) & 0xff) as u8);
    data.push((len32 & 0xff) as u8);
    data.extend_from_slice(vstd::slice::slice_subrange(msg, 0, first_take));
    proof {
        assert(data@ =~= message_first_payload(path@, msg@));
    }
    r.push(ApduCommand { cla: CLA_ETH, ins: INS_SIGN_MESSAGE, p1: P1_FIRST, p2: 0x00, data });
    if msg_len <= 230 {
        proof {
            assert(fs =~= seq![fs[0]]);
        }
        return r;
    }
    let ghost tail = msg@.skip(230);
    let mut off: usize = 230;
    while off < msg_len
        invariant
            230 <= off <= msg_len == msg@.len() <= u32::MAX,
            tail == msg@.skip(230),
            fs == sign_message_frames(path@, msg@),
            msg@.len() > 230,
            r@.len() >= 1,
            off - 230 == (r@.len() - 1) * 230 || (off == msg_len && off - 230 < (r@.len() - 1)
                * 230 && (r@.len() - 2) * 230 < tail.len()),
            fs.len() == 1 + chunk_count((msg@.len() - 230) as nat, 230),
            r@.len() <= fs.len(),
            forall|k: int| 0 <= k < r@.len() ==> r@[k]@ == fs[k],
            forall|k: int| 0 <= k < r@.len() ==> (#[trigger] r@[k])@.wf(),
        decreases msg_len - off,
    {
        let ghost j = (r@.len() - 1) as nat;
        proof {
            assert(j * 230 == off - 230);
            lemma_chunk_count(tail.len(), 230, j);
            assert((j + 1) * 230 == off - 230 + 230);
        }
        let end: usize = if msg_len - off >= 230 {
            off + 230
        } else {
            msg_len
        };
        let chunk = vstd::slice::slice_to_vec(vstd::slice::slice_subrange(msg, off, end));
        proof {
            assert(chunk_at(tail, 230, j) =~= msg@.subrange(off as int, end as int));
        }
        r.push(
            ApduCommand { cla: CLA_ETH, ins: INS_SIGN_MESSAGE, p1: P1_CONTINUE, p2: 0x00, data: chunk },
        );
        off = end;
    }
    proof {
        let produced = (r@.len() - 1) as nat;
        lemma_chunk_count(tail.len(), 230, produced);
        if produced * 230 >= tail.len() && produced >= 1 {
            lemma_chunk_count(tail.len(), 230, (produced - 1) as nat);
        }
        assert(r@.len() == fs.len());
    }
    r
}

/// Builds the ordered sign-transaction frames for an encoded path and the
/// canonical transaction bytes.
pub fn build_sign_transaction(path: &Vec<u8>, tx: &[u8]) -> (r: Vec<ApduCommand>)
    requires
        path@.len() % 4 == 0,
        path@.len() <= 1020,
    ensures
        frames_match(r@, sign_tx_frames(path@, tx@)),
        forall|k: int| 0 <= k < r@.len() ==> (#[trigger] r@[k])@.wf(),
{
    let ghost fs = sign_tx_frames(path@, tx@);
    let mut assembled: Vec<u8> = Vec::new();
    assembled.push((path.len() / 4) as u8);
    assembled.extend_from_slice(path.as_slice());
    assembled.extend_from_slice(tx);
    proof {
        assert(assembled@ =~= tx_assembled(path@, tx@));
    }
    let ghost stream = assembled@;
    let total = assembled.len();
    let mut r: Vec<ApduCommand> = Vec::new();
    let mut off: usize = 0;
    while off < total
        invariant
            off <= total == stream.len(),
            stream == tx_assembled(path@, tx@),
            stream == assembled@,
            stream.len() >= 1,
            fs == sign_tx_frames(path@, tx@),
            off == r@.len() * 255 || (off == total && off < r@.len() * 255 && (r@.len() - 1)
                * 255 < total),
            fs.len() == chunk_count(stream.len(), 255),
            r@.len() <= fs.len(),
            forall|k: int| 0 <= k < r@.len() ==> r@[k]@ == fs[k],
            forall|k: int| 0 <= k < r@.len() ==> (#[trigger] r@[k])@.wf(),
        decreases total - off,
    {
        let ghost j = r@.len() as nat;
        proof {
            assert(j * 255 == off);
            lemma_chunk_count(stream.len(), 255, j);
            assert((j + 1) * 255 == off + 255);
        }
        let end: usize = if total - off >= 255 {
            off + 255
        } else {
            total
        };
        let chunk = vstd::slice::slice_to_vec(
            vstd::slice::slice_subrange(assembled.as_slice(), off, end),
        );
        proof {
            assert(chunk_at(stream, 255, j) =~= stream.subrange(off as int, end as int));
        }
        let p1: u8 = if r.len() == 0 {
            P1_FIRST
        } else {
            P1_CONTINUE
        };
        r.push(ApduCommand { cla: CLA_ETH, ins: INS_SIGN_TX, p1: p1, p2: 0x00, data: chunk });
        off = end;
    }
    proof {
        let produced = r@.len() as nat;
        lemma_chunk_count(stream.len(), 255, produced);
        if produced >= 1 {
            lemma_chunk_count(stream.len(), 255, (produced - 1) as nat);
        }
        assert(r@.len() == fs.len());
    }
    r
}

/// Builds the dashboard probe that asks for the active app's name.
pub fn build_probe() -> (r: ApduCommand)
    ensures
        r@ == probe_frame_view(),
        r@.wf(),
{
    let data: Vec<u8> = Vec::new();
    proof {
        assert(data@ =~= Seq::<u8>::empty());
    }
    ApduCommand { cla: CLA_DASHBOARD, ins: INS_APP_NAME, p1: 0x00, p2: 0x00, data }
}

} // verus!
