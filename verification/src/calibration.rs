//! Calibration-blob reassembly and extraction.
//!
//! Both device families store factory calibration as a JSON document
//! inside a configuration blob that is fetched in chunks.
//!
//! One family's chunks begin with a marker/subtype byte pair `2, 1` and a
//! declared-length byte; the transfer ends at the first chunk that does
//! not match. The reassembled blob holds the JSON text between a
//! `\n\n{` sentinel (scanned for after a fixed 40-byte header region)
//! and the next blank line.
//!
//! The other family announces the total length up front as a 4-byte
//! little-endian integer; chunks are appended whole until that length is
//! reached, and the entire blob is the JSON text.
//!
//! Turning the JSON text into numbers is the JSON collaborator's work and
//! happens outside this crate.

use vstd::prelude::*;
use vstd::bytes::{spec_u32_from_le_bytes, u32_from_le_bytes};
use vstd::slice::slice_subrange;

verus! {

/// First byte of a well-formed configuration chunk.
pub const CHUNK_MARKER: u8 = 2;

/// Second byte of a well-formed configuration chunk.
pub const CHUNK_SUBTYPE: u8 = 1;

/// Offset where the sentinel scan starts, past the blob's header region.
pub const CONFIG_HEADER_SKIP: usize = 0x28;

/// Whether a chunk continues the transfer: long enough for its three
/// header bytes, marked `2, 1`, and holding as many payload bytes as its
/// declared length announces.
pub open spec fn chunk_ok(part: Seq<u8>) -> bool {
    &&& part.len() >= 3
    &&& part[0] == CHUNK_MARKER
    &&& part[1] == CHUNK_SUBTYPE
    &&& 3 + part[2] <= part.len()
}

/// The payload slice a chunk contributes.
pub open spec fn chunk_payload(part: Seq<u8>) -> Seq<u8>
    recommends
        chunk_ok(part),
{
    part.subrange(3, 3 + part[2] as int)
}

/// Append one chunk's declared-length payload to the accumulation buffer.
/// Returns `false`, leaving the buffer alone, at the first chunk that
/// does not continue the transfer.
pub fn config_chunk_append(acc: &mut Vec<u8>, part: &[u8]) -> (r: bool)
    ensures
        r == chunk_ok(part@),
        r ==> final(acc)@ == old(acc)@ + chunk_payload(part@),
        !r ==> final(acc)@ == old(acc)@,
{
    if part.len() < 3 {
        return false;
    }
    if part[0] != CHUNK_MARKER || part[1] != CHUNK_SUBTYPE {
        return false;
    }
    let n = part[2] as usize;
    if 3 + n > part.len() {
        return false;
    }
    let payload = slice_subrange(part, 3, 3 + n);
    acc.extend_from_slice(payload);
    true
}

/// Whether the three sentinel bytes `\n\n{` stand at offset `i`.
pub open spec fn sentinel_at(s: Seq<u8>, i: int) -> bool
    recommends
        0 <= i,
        i + 3 <= s.len(),
{
    s[i] == 10 && s[i + 1] == 10 && s[i + 2] == 123
}

/// First offset in `[i, s.len() - 4)` where the sentinel stands, or
/// `s.len() - 4` when there is none. The scan stops four bytes short of
/// the end, as the transfer protocol's trailing bytes are never part of
/// the document.
pub open spec fn find_sentinel(s: Seq<u8>, i: int) -> int
    decreases s.len() - i
        when 0 <= i
{
    if i >= s.len() - 4 {
        s.len() - 4
    } else if sentinel_at(s, i) {
        i
    } else {
        find_sentinel(s, i + 1)
    }
}

pub proof fn lemma_find_sentinel(s: Seq<u8>, i: int)
    requires
        0 <= i,
    ensures
        i <= find_sentinel(s, i) || find_sentinel(s, i) == s.len() - 4,
        find_sentinel(s, i) <= s.len() - 4 || i > s.len() - 4,
        i <= s.len() - 4 ==> i <= find_sentinel(s, i),
        find_sentinel(s, i) < s.len() - 4 ==> sentinel_at(s, find_sentinel(s, i)),
        forall|j: int| i <= j < find_sentinel(s, i) ==> !sentinel_at(s, j),
    decreases s.len() - i,
{
    if i < s.len() - 4 && !sentinel_at(s, i) {
        lemma_find_sentinel(s, i + 1);
    }
}

/// First offset in `[i, s.len() - 1)` where a blank line (`\n\n`) starts,
/// or `s.len() - 1` when there is none.
pub open spec fn find_blank(s: Seq<u8>, i: int) -> int
    decreases s.len() - i
        when 0 <= i
{
    if i >= s.len() - 1 {
        s.len() - 1
    } else if s[i] == 10 && s[i + 1] == 10 {
        i
    } else {
        find_blank(s, i + 1)
    }
}

/// The JSON text inside a reassembled blob: everything from the byte
/// after the first two sentinel characters up to the next blank line.
/// `None` when the sentinel or the end token is missing.
pub open spec fn spec_extract_json(s: Seq<u8>) -> Option<Seq<u8>> {
    let st = find_sentinel(s, CONFIG_HEADER_SKIP as int);
    if st >= s.len() - 4 {
        None
    } else {
        let e = find_blank(s, st + 2);
        if e >= s.len() - 1 {
            None
        } else {
            Some(s.subrange(st + 2, e))
        }
    }
}

/// Scan a reassembled configuration blob for the embedded JSON document.
pub fn extract_calibration_json(config: &[u8]) -> (r: Option<Vec<u8>>)
    ensures
        match r {
            Some(v) => spec_extract_json(config@) == Some(v@),
            None => spec_extract_json(config@) is None,
        },
{
    if config.len() < 5 + CONFIG_HEADER_SKIP {
        proof {
            lemma_find_sentinel(config@, CONFIG_HEADER_SKIP as int);
        }
        return None;
    }
    let hi = config.len() - 4;
    let mut i: usize = CONFIG_HEADER_SKIP;
    while i < hi
        invariant
            CONFIG_HEADER_SKIP <= i,
            hi == config@.len() - 4,
            5 + CONFIG_HEADER_SKIP <= config@.len(),
            i <= hi,
            find_sentinel(config@, CONFIG_HEADER_SKIP as int) == find_sentinel(config@, i as int),
        decreases hi - i,
    {
        if config[i] == 10 && config[i + 1] == 10 && config[i + 2] == 123 {
            proof {
                assert(find_sentinel(config@, i as int) == i);
            }
            // Sentinel found; now find the blank line that ends the text.
            let mut j: usize = i + 2;
            let jhi = config.len() - 1;
            while j < jhi
                invariant
                    i + 2 <= j <= jhi,
                    jhi == config@.len() - 1,
                    CONFIG_HEADER_SKIP <= i < config@.len() - 4,
                    sentinel_at(config@, i as int),
                    find_sentinel(config@, CONFIG_HEADER_SKIP as int) == i,
                    find_blank(config@, i + 2) == find_blank(config@, j as int),
                decreases jhi - j,
            {
                if config[j] == 10 && config[j + 1] == 10 {
                    proof {
                        assert(find_blank(config@, j as int) == j);
                    }
                    return Some(vstd::slice::slice_to_vec(slice_subrange(config, i + 2, j)));
                }
                j = j + 1;
            }
            return None;
        }
        i = i + 1;
    }
    return None;
}

/// The total length announced ahead of a length-prefixed configuration
/// transfer: the 4-byte little-endian payload of the start command.
pub fn parse_config_length(payload: &[u8]) -> (r: Option<u32>)
    ensures
        payload@.len() == 4 ==> r == Some(spec_u32_from_le_bytes(payload@)),
        payload@.len() != 4 ==> r is None,
{
    if payload.len() != 4 {
        return None;
    }
    proof {
        assert(payload@.subrange(0, 4) =~= payload@);
    }
    Some(u32_from_le_bytes(slice_subrange(payload, 0, 4)))
}

/// A length-prefixed configuration transfer in progress.
pub struct ConfigTransfer {
    /// The announced total length.
    pub target: u32,
    /// What has arrived so far.
    pub buf: Vec<u8>,
}

impl ConfigTransfer {
    /// Begin an empty transfer toward `target` bytes.
    pub fn new(target: u32) -> (r: Self)
        ensures
            r.target == target,
            r.buf@ =~= Seq::<u8>::empty(),
    {
        ConfigTransfer { target, buf: Vec::new() }
    }

    /// Whether more chunks are needed.
    pub fn needs_more(&self) -> (r: bool)
        ensures
            r == (self.buf@.len() < self.target),
    {
        self.buf.len() < self.target as usize
    }

    /// Append one chunk whole. Returns whether the transfer is complete.
    pub fn push_chunk(&mut self, part: &[u8]) -> (r: bool)
        ensures
            final(self).target == old(self).target,
            final(self).buf@ == old(self).buf@ + part@,
            r == (final(self).buf@.len() >= final(self).target),
    {
        self.buf.extend_from_slice(part);
        self.buf.len() >= self.target as usize
    }
}

} // verus!
