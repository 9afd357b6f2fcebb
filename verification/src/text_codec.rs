//! Frame codec for the text-style wire protocol.
//!
//! Wire layout inside the fixed 64-byte buffer:
//! `STX ':' category ':' cmd_id ':' payload ':' "0" ':' checksum_hex ':' ETX`,
//! zero-padded to capacity, with `STX = 0x02` and `ETX = 0x03`. The checksum
//! is the CRC-32 of every byte up to and including the literal `:0:`
//! timestamp field, rendered as 8 right-justified lowercase hex characters.
//! Decoding deliberately does not verify the timestamp or checksum fields.

use vstd::prelude::*;
use vstd::slice::{slice_subrange, slice_to_vec};
use crate::checksum::{crc32, spec_crc32};
use crate::hex::{hex8, lemma_hex8_chars, spec_hex8};

verus! {

/// Frame start byte.
pub const STX: u8 = 2;

/// Frame end byte.
pub const ETX: u8 = 3;

/// The `:` field separator.
pub const SEP: u8 = 58;

/// Largest payload that fits the 64-byte buffer next to the 19 framing bytes.
pub const TEXT_MAX_PAYLOAD: usize = 45;

/// One decoded text-family frame.
#[derive(Debug, PartialEq, Eq)]
pub struct Packet {
    pub category: u8,
    pub cmd_id: u8,
    pub data: Vec<u8>,
}

impl Default for Packet {
    /// The placeholder frame commands are built from: one `x` payload byte.
    fn default() -> (r: Self)
        ensures
            r.category == 0,
            r.cmd_id == 0,
            r.data@ =~= seq![0x78u8],
    {
        Packet { category: 0, cmd_id: 0, data: vec![0x78u8] }
    }
}

/// Index of the first occurrence of `b` in `s` at or after `i`,
/// or `s.len()` when there is none.
pub open spec fn find_from(s: Seq<u8>, b: u8, i: int) -> int
    decreases s.len() - i
        when 0 <= i <= s.len()
{
    if i >= s.len() {
        s.len() as int
    } else if s[i] == b {
        i
    } else {
        find_from(s, b, i + 1)
    }
}

pub proof fn lemma_find_from(s: Seq<u8>, b: u8, i: int)
    requires
        0 <= i <= s.len(),
    ensures
        i <= find_from(s, b, i) <= s.len(),
        find_from(s, b, i) < s.len() ==> s[find_from(s, b, i)] == b,
        forall|j: int| i <= j < find_from(s, b, i) ==> s[j] != b,
    decreases s.len() - i,
{
    if i < s.len() && s[i] != b {
        lemma_find_from(s, b, i + 1);
    }
}

/// First occurrence of `b` in `s` at or after `from`, or `s.len()`.
pub fn find_byte(s: &[u8], b: u8, from: usize) -> (r: usize)
    requires
        from <= s@.len(),
    ensures
        r == find_from(s@, b, from as int),
{
    let mut i: usize = from;
    while i < s.len()
        invariant
            from <= i <= s@.len(),
            find_from(s@, b, from as int) == find_from(s@, b, i as int),
        decreases s@.len() - i,
    {
        if s[i] == b {
            return i;
        }
        i = i + 1;
    }
    i
}

/// The decode pipeline: reject unless byte 0 is STX and an ETX exists;
/// split the interior on `:`; the first field must be empty; the second
/// and third fields supply `category` and `cmd_id` from their first byte;
/// the fourth field is the payload. Later fields are ignored.
pub open spec fn spec_text_decode(s: Seq<u8>) -> Option<(u8, u8, Seq<u8>)> {
    if s.len() == 0 || s[0] != STX {
        None
    } else {
        let etx = find_from(s, ETX, 0);
        if etx >= s.len() {
            None
        } else {
            let inner = s.subrange(1, etx);
            if inner.len() == 0 || inner[0] != SEP {
                None
            } else {
                let p2 = find_from(inner, SEP, 1);
                if p2 == 1 || p2 >= inner.len() {
                    None
                } else {
                    let p3 = find_from(inner, SEP, p2 + 1);
                    if p3 == p2 + 1 || p3 >= inner.len() {
                        None
                    } else {
                        let p4 = find_from(inner, SEP, p3 + 1);
                        Some((inner[1], inner[p2 + 1], inner.subrange(p3 + 1, p4)))
                    }
                }
            }
        }
    }
}

/// The bytes the checksum is computed over: start byte through the
/// literal `:0:` timestamp field.
pub open spec fn text_body(c: u8, k: u8, d: Seq<u8>) -> Seq<u8> {
    seq![STX, SEP, c, SEP, k, SEP] + d + seq![SEP, 48u8, SEP]
}

/// The full 64-byte encoding of a frame.
pub open spec fn spec_text_encode(c: u8, k: u8, d: Seq<u8>) -> Seq<u8>
    recommends
        d.len() <= TEXT_MAX_PAYLOAD,
{
    let body = text_body(c, k, d);
    body + spec_hex8(spec_crc32(body)) + seq![SEP, ETX] + Seq::new((45 - d.len()) as nat,
        |i: int| 0u8,
    )
}

/// A frame the codec can encode so that decoding gives it back:
/// neither identifier nor payload may hold the ETX or separator bytes,
/// and the payload must fit the buffer.
pub open spec fn text_frame_ok(c: u8, k: u8, d: Seq<u8>) -> bool {
    &&& c != ETX && c != SEP
    &&& k != ETX && k != SEP
    &&& d.len() <= TEXT_MAX_PAYLOAD
    &&& forall|i: int| 0 <= i < d.len() ==> #[trigger] d[i] != ETX && d[i] != SEP
}

impl Packet {
    /// Decode one raw 64-byte buffer. `None` means the bytes are junk.
    pub fn deserialize(data: &[u8]) -> (r: Option<Packet>)
        ensures
            match r {
                Some(p) => spec_text_decode(data@) == Some((p.category, p.cmd_id, p.data@)),
                None => spec_text_decode(data@) is None,
            },
    {
        if data.len() == 0 || data[0] != STX {
            return None;
        }
        let etx = find_byte(data, ETX, 0);
        if etx >= data.len() {
            return None;
        }
        proof {
            lemma_find_from(data@, ETX, 0);
        }
        let inner = slice_subrange(data, 1, etx);
        if inner.len() == 0 || inner[0] != SEP {
            return None;
        }
        let p2 = find_byte(inner, SEP, 1);
        if p2 == 1 || p2 >= inner.len() {
            return None;
        }
        let category = inner[1];
        let p3 = find_byte(inner, SEP, p2 + 1);
        if p3 == p2 + 1 || p3 >= inner.len() {
            return None;
        }
        let cmd_id = inner[p2 + 1];
        let p4 = find_byte(inner, SEP, p3 + 1);
        proof {
            lemma_find_from(inner@, SEP, p3 + 1);
        }
        let payload = slice_to_vec(slice_subrange(inner, p3 + 1, p4));
        Some(Packet { category, cmd_id, data: payload })
    }

    /// Encode into the fixed 64-byte buffer. `None` exactly when the
    /// payload does not fit next to the framing bytes.
    pub fn serialize(&self) -> (r: Option<Vec<u8>>)
        ensures
            self.data@.len() <= TEXT_MAX_PAYLOAD ==> (r matches Some(v) && v@ == spec_text_encode(
                self.category,
                self.cmd_id,
                self.data@,
            )),
            self.data@.len() > TEXT_MAX_PAYLOAD ==> r is None,
    {
        if self.data.len() > TEXT_MAX_PAYLOAD {
            return None;
        }
        let mut buf: Vec<u8> = Vec::new();
        buf.push(STX);
        buf.push(SEP);
        buf.push(self.category);
        buf.push(SEP);
        buf.push(self.cmd_id);
        buf.push(SEP);
        let ghost prefix = seq![STX, SEP, self.category, SEP, self.cmd_id, SEP];
        proof {
            assert(buf@ =~= prefix + self.data@.take(0));
        }
        let mut i: usize = 0;
        while i < self.data.len()
            invariant
                i <= self.data@.len(),
                buf@ =~= prefix + self.data@.take(i as int),
            decreases self.data@.len() - i,
        {
            buf.push(self.data[i]);
            proof {
                assert(self.data@.take(i + 1) =~= self.data@.take(i as int).push(
                    self.data@[i as int],
                ));
            }
            i = i + 1;
        }
        buf.push(SEP);
        buf.push(48);
        buf.push(SEP);
        proof {
            assert(self.data@.take(self.data@.len() as int) =~= self.data@);
            assert(buf@ =~= text_body(self.category, self.cmd_id, self.data@));
        }
        let crc = crc32(buf.as_slice());
        let mut cs = hex8(crc);
        buf.append(&mut cs);
        buf.push(SEP);
        buf.push(ETX);
        let ghost head = text_body(self.category, self.cmd_id, self.data@) + spec_hex8(
            spec_crc32(text_body(self.category, self.cmd_id, self.data@)),
        ) + seq![SEP, ETX];
        proof {
            lemma_hex8_chars(crc);
            assert(buf@ =~= head);
            assert(buf@ =~= head + Seq::new((buf@.len() - head.len()) as nat, |k: int| 0u8));
        }
        while buf.len() < 64
            invariant
                head.len() == 19 + self.data@.len() <= 64,
                head.len() <= buf@.len() <= 64,
                buf@ =~= head + Seq::new((buf@.len() - head.len()) as nat, |k: int| 0u8),
            decreases 64 - buf@.len(),
        {
            let ghost n = (buf@.len() - head.len()) as nat;
            buf.push(0);
            proof {
                assert(Seq::new((n + 1) as nat, |k: int| 0u8) =~= Seq::new(n, |k: int| 0u8).push(
                    0u8,
                ));
                assert(buf@ =~= head + Seq::new((buf@.len() - head.len()) as nat, |k: int| 0u8));
            }
        }
        proof {
            assert(buf@ =~= spec_text_encode(self.category, self.cmd_id, self.data@));
        }
        Some(buf)
    }
}

/// The byte standing at offset `j` of an encoded frame.
pub open spec fn encode_byte_at(c: u8, k: u8, d: Seq<u8>, j: int) -> u8
    recommends
        d.len() <= TEXT_MAX_PAYLOAD,
        0 <= j < 64,
{
    let l = d.len() as int;
    let body = text_body(c, k, d);
    if j == 0 {
        STX
    } else if j == 1 || j == 3 || j == 5 {
        SEP
    } else if j == 2 {
        c
    } else if j == 4 {
        k
    } else if j < 6 + l {
        d[j - 6]
    } else if j == 6 + l || j == 8 + l {
        SEP
    } else if j == 7 + l {
        48u8
    } else if j < 17 + l {
        spec_hex8(spec_crc32(body))[j - (9 + l)]
    } else if j == 17 + l {
        SEP
    } else if j == 18 + l {
        ETX
    } else {
        0u8
    }
}

/// Pointwise description of the encoded buffer.
pub proof fn lemma_encode_bytes(c: u8, k: u8, d: Seq<u8>)
    requires
        d.len() <= TEXT_MAX_PAYLOAD,
    ensures
        spec_text_encode(c, k, d).len() == 64,
        forall|j: int| 0 <= j < 64 ==> #[trigger] spec_text_encode(c, k, d)[j] == encode_byte_at(
            c,
            k,
            d,
            j,
        ),
{
    let body = text_body(c, k, d);
    let cs = spec_hex8(spec_crc32(body));
    let s = spec_text_encode(c, k, d);
    let l = d.len() as int;
    lemma_hex8_chars(spec_crc32(body));
    assert(body.len() == 9 + l);
    assert(s.len() == 64);
    assert forall|j: int| 0 <= j < 64 implies #[trigger] s[j] == encode_byte_at(c, k, d, j) by {
        if j < 6 {
            assert(s[j] == body[j]);
        } else if j < 6 + l {
            assert(body[j] == d[j - 6]);
            assert(s[j] == body[j]);
        } else if j < 9 + l {
            assert(s[j] == body[j]);
        } else if j < 17 + l {
            assert(s[j] == cs[j - (9 + l)]);
        } else if j < 19 + l {
            assert(s[j] == seq![SEP, ETX][j - (17 + l)]);
        } else {
            assert(s[j] == Seq::new((45 - d.len()) as nat, |i: int| 0u8)[j - (19 + l)]);
        }
    }
}

/// Round trip: decoding an encoded in-range frame gives the frame back.
pub proof fn lemma_text_round_trip(c: u8, k: u8, d: Seq<u8>)
    requires
        text_frame_ok(c, k, d),
    ensures
        spec_text_decode(spec_text_encode(c, k, d)) == Some((c, k, d)),
{
    let s = spec_text_encode(c, k, d);
    let body = text_body(c, k, d);
    let cs = spec_hex8(spec_crc32(body));
    let l = d.len() as int;
    lemma_encode_bytes(c, k, d);
    lemma_hex8_chars(spec_crc32(body));
    assert(s[0] == STX);
    // The first ETX is the closing one at offset 18 + l.
    lemma_find_from(s, ETX, 0);
    assert forall|j: int| 0 <= j < 18 + l implies s[j] != ETX by {
        assert(s[j] == encode_byte_at(c, k, d, j));
        if 9 + l <= j < 17 + l {
            assert(s[j] == cs[j - (9 + l)]);
        }
    }
    assert(s[18 + l] == ETX);
    let etx = find_from(s, ETX, 0);
    assert(etx == 18 + l);
    let inner = s.subrange(1, 18 + l);
    assert(inner.len() == 17 + l);
    assert(forall|j: int| 0 <= j < 17 + l ==> inner[j] == s[j + 1]);
    assert(inner[0] == SEP);
    // Separators stand exactly at offsets 0, 2, 4 and 5 + l of the interior.
    lemma_find_from(inner, SEP, 1);
    assert(inner[1] == c && c != SEP);
    assert(inner[2] == SEP);
    let p2 = find_from(inner, SEP, 1);
    assert(p2 == 2);
    lemma_find_from(inner, SEP, 3);
    assert(inner[3] == k && k != SEP);
    assert(inner[4] == SEP);
    let p3 = find_from(inner, SEP, 3);
    assert(p3 == 4);
    lemma_find_from(inner, SEP, 5);
    assert forall|j: int| 5 <= j < 5 + l implies inner[j] != SEP by {
        assert(inner[j] == s[j + 1]);
        assert(s[j + 1] == encode_byte_at(c, k, d, j + 1));
        assert(s[j + 1] == d[j - 5]);
    }
    assert(inner[5 + l] == SEP);
    let p4 = find_from(inner, SEP, 5);
    assert(p4 == 5 + l);
    assert(inner.subrange(5, 5 + l) =~= d);
    assert(spec_text_decode(s) == Some((c, k, d)));
}

} // verus!
