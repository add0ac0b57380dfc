//! Decoding of packed vertex buffers: level geometry arrives as an
//! ordered byte buffer in which each vertex is three little-endian 32-bit
//! lanes, twelve bytes in all.  This module frames and checks the bytes;
//! turning a lane's bit pattern into a coordinate is the caller's choice
//! of scale.

use vstd::prelude::*;

verus! {

/// The little-endian 32-bit word that starts at byte offset `off`.
pub open spec fn le_word(s: Seq<u8>, off: int) -> int {
    s[off] + 0x100 * s[off + 1] + 0x10000 * s[off + 2] + 0x1000000 * s[off + 3]
}

/// The raw bit patterns of one vertex: its three packed 32-bit lanes, in
/// buffer order.
#[derive(Clone, Copy, Debug, PartialEq, Eq, Structural)]
pub struct PointBits {
    pub x: u32,
    pub y: u32,
    pub z: u32,
}

/// Read the little-endian 32-bit word at byte offset `off`.
pub fn word_at(bytes: &Vec<u8>, off: usize) -> (w: u32)
    requires
        off + 4 <= bytes@.len(),
    ensures
        w == le_word(bytes@, off as int),
{
    let len = bytes.len();
    proof {
        assert(off + 4 <= len);
    }
    let b0 = bytes[off];
    let b1 = bytes[off + 1];
    let b2 = bytes[off + 2];
    let b3 = bytes[off + 3];
    (b0 as u32) + 0x100 * (b1 as u32) + 0x10000 * (b2 as u32) + 0x1000000 * (b3 as u32)
}

/// Split a packed vertex buffer into its vertices' bit patterns, in
/// buffer order.  Each complete twelve-byte chunk yields one vertex; a
/// trailing partial chunk is ignored.
#[verifier::loop_isolation(false)]
pub fn decode_vertex_buffer(bytes: &Vec<u8>) -> (pts: Vec<PointBits>)
    ensures
        pts@.len() == bytes@.len() / 12,
        forall|i: int| 0 <= i < pts@.len() ==> (#[trigger] pts@[i]) == (PointBits {
            x: le_word(bytes@, 12 * i) as u32,
            y: le_word(bytes@, 12 * i + 4) as u32,
            z: le_word(bytes@, 12 * i + 8) as u32,
        }),
{
    let n: usize = bytes.len() / 12;
    proof {
        vstd::arithmetic::div_mod::lemma_fundamental_div_mod(bytes@.len() as int, 12);
        vstd::arithmetic::div_mod::lemma_mod_bound(bytes@.len() as int, 12);
    }
    let mut pts: Vec<PointBits> = Vec::new();
    let mut i: usize = 0;
    while i < n
        invariant
            pts@.len() == i,
            i <= n,
            forall|j: int| 0 <= j < i ==> (#[trigger] pts@[j]) == (PointBits {
                x: le_word(bytes@, 12 * j) as u32,
                y: le_word(bytes@, 12 * j + 4) as u32,
                z: le_word(bytes@, 12 * j + 8) as u32,
            }),
        decreases n - i,
    {
        let base: usize = 12 * i;
        let p = PointBits {
            x: word_at(bytes, base),
            y: word_at(bytes, base + 4),
            z: word_at(bytes, base + 8),
        };
        proof {
            assert(le_word(bytes@, base as int) <= 0xffffffff);
            assert(le_word(bytes@, base as int + 4) <= 0xffffffff);
            assert(le_word(bytes@, base as int + 8) <= 0xffffffff);
        }
        pts.push(p);
        i = i + 1;
    }
    pts
}

} // verus!
