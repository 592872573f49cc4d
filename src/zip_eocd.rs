//! The End Of Central Directory record and the backward search for it.
use vstd::prelude::*;
use crate::le_bytes::{
    copy_range, lemma_concat_subranges, lemma_u16_round_trip, lemma_u32_round_trip, le_u16_at, le_u32_at, push_bytes, push_u16_le, push_u32_le, read_u16_le,
    read_u32_le, u16_le_bytes, u32_le_bytes,
};
use crate::zip_error::{invalid_archive, unsupported_archive, ZipReadError, ZipReadErrorKind};

verus! {

/// `50 4B 05 06` read as a little-endian integer.
pub const EOCD_SIGNATURE: u32 = 0x06054b50;

/// Size of the record without its comment, signature included.
pub const EOCD_FIXED_SIZE: usize = 22;

/// The largest comment the 16-bit length field can declare.
pub const MAX_COMMENT_LENGTH: usize = 65535;

/// End Of Central Directory record.
pub struct ZipEOCD {
    /// Number (0-based) of the disk holding this record.
    pub eocd_disk_index: u16,
    /// Number (0-based) of the disk where the central directory starts.
    pub cd_start_disk_index: u16,
    /// Central directory entries on this disk.
    pub n_cd_entries_in_disk: u16,
    /// Central directory entries in total.
    pub n_cd_entries: u16,
    /// Size of the central directory in bytes.
    pub cd_size: u32,
    /// Absolute position of the central directory.
    pub cd_starting_position: u32,
    /// Declared length of the archive comment.
    pub comment_length: u16,
    /// The archive comment.
    pub comment: Vec<u8>,
    /// Absolute position of the record (its signature).
    pub starting_position_with_signature: u64,
    /// Absolute position just after the signature.
    pub starting_position_without_signature: u64,
}

/// A record starts at `p`: the signature is there, the fixed fields fit, and
/// the declared comment ends exactly at the end of the data.
pub open spec fn eocd_at(data: Seq<u8>, p: int) -> bool {
    &&& 0 <= p
    &&& p + EOCD_FIXED_SIZE <= data.len()
    &&& le_u32_at(data, p) == EOCD_SIGNATURE
    &&& p + EOCD_FIXED_SIZE + le_u16_at(data, p + 20) == data.len()
}

/// The first position, scanning from the start, at which a record verifies.
pub open spec fn first_eocd_at(data: Seq<u8>, p: int) -> bool {
    eocd_at(data, p) && forall|q: int| 0 <= q < p ==> !eocd_at(data, q)
}

impl ZipEOCD {
    pub open spec fn wf(&self) -> bool {
        self.comment_length == self.comment@.len()
    }

    /// The bytes of the record as it is written.
    pub open spec fn spec_bytes(&self) -> Seq<u8> {
        u32_le_bytes(EOCD_SIGNATURE) + u16_le_bytes(self.eocd_disk_index) + u16_le_bytes(
            self.cd_start_disk_index,
        ) + u16_le_bytes(self.n_cd_entries_in_disk) + u16_le_bytes(self.n_cd_entries)
            + u32_le_bytes(self.cd_size) + u32_le_bytes(self.cd_starting_position) + u16_le_bytes(
            self.comment_length,
        ) + self.comment@
    }

    /// Every field holds what the record starting at `p` in `data` stores.
    pub open spec fn parsed_from(&self, data: Seq<u8>, p: int) -> bool {
        &&& self.starting_position_with_signature == p
        &&& self.starting_position_without_signature == p + 4
        &&& self.eocd_disk_index == le_u16_at(data, p + 4)
        &&& self.cd_start_disk_index == le_u16_at(data, p + 6)
        &&& self.n_cd_entries_in_disk == le_u16_at(data, p + 8)
        &&& self.n_cd_entries == le_u16_at(data, p + 10)
        &&& self.cd_size == le_u32_at(data, p + 12)
        &&& self.cd_starting_position == le_u32_at(data, p + 16)
        &&& self.comment_length == le_u16_at(data, p + 20)
        &&& self.comment@ == data.subrange(p + EOCD_FIXED_SIZE, data.len() as int)
    }

    pub open spec fn spec_is_single_archive(&self) -> bool {
        self.eocd_disk_index == 0 && self.n_cd_entries == self.n_cd_entries_in_disk
    }

    pub open spec fn spec_is_zip64(&self) -> bool {
        self.cd_starting_position == u32::MAX || self.cd_size == u32::MAX || self.n_cd_entries
            == u16::MAX || self.n_cd_entries_in_disk == u16::MAX || self.eocd_disk_index
            == u16::MAX || self.cd_start_disk_index == u16::MAX
    }

    /// Parses the record whose signature is at `p`, if it verifies.
    fn from_reader_next_to_signature(data: &[u8], p: usize) -> (r: Option<ZipEOCD>)
        requires
            p + 4 <= data@.len(),
            le_u32_at(data@, p as int) == EOCD_SIGNATURE,
        ensures
            r is Some <==> eocd_at(data@, p as int),
            r matches Some(e) ==> e.wf() && e.parsed_from(data@, p as int),
    {
        let n = data.len();
        if n - p < EOCD_FIXED_SIZE {
            return None;
        }
        let comment_length = read_u16_le(data, p + 20);
        if n - p - EOCD_FIXED_SIZE != comment_length as usize {
            return None;
        }
        let mut eocd = ZipEOCD::empty();
        eocd.starting_position_with_signature = p as u64;
        eocd.starting_position_without_signature = (p + 4) as u64;
        eocd.eocd_disk_index = read_u16_le(data, p + 4);
        eocd.cd_start_disk_index = read_u16_le(data, p + 6);
        eocd.n_cd_entries_in_disk = read_u16_le(data, p + 8);
        eocd.n_cd_entries = read_u16_le(data, p + 10);
        eocd.cd_size = read_u32_le(data, p + 12);
        eocd.cd_starting_position = read_u32_le(data, p + 16);
        eocd.comment_length = comment_length;
        eocd.comment = copy_range(data, p + EOCD_FIXED_SIZE, comment_length as usize);
        Some(eocd)
    }

    fn empty() -> (r: ZipEOCD)
        ensures
            r.wf(),
            r.comment@.len() == 0,
    {
        ZipEOCD {
            eocd_disk_index: 0,
            cd_start_disk_index: 0,
            n_cd_entries_in_disk: 0,
            n_cd_entries: 0,
            cd_size: 0,
            cd_starting_position: 0,
            comment_length: 0,
            comment: Vec::new(),
            starting_position_with_signature: 0,
            starting_position_without_signature: 0,
        }
    }

    /// Appends the record to `out`.
    pub fn write(&self, out: &mut Vec<u8>)
        ensures
            final(out)@ == old(out)@ + self.spec_bytes(),
    {
        push_u32_le(out, EOCD_SIGNATURE);
        push_u16_le(out, self.eocd_disk_index);
        push_u16_le(out, self.cd_start_disk_index);
        push_u16_le(out, self.n_cd_entries_in_disk);
        push_u16_le(out, self.n_cd_entries);
        push_u32_le(out, self.cd_size);
        push_u32_le(out, self.cd_starting_position);
        push_u16_le(out, self.comment_length);
        push_bytes(out, self.comment.as_slice());
        assert(final(out)@ =~= old(out)@ + self.spec_bytes());
    }

    /// Finds the End Of Central Directory record of an archive.
    ///
    /// The comment has a declared length but no terminator, so the signature
    /// may also occur inside it. Every occurrence is tried, from the lowest
    /// position at which a record could still reach the end of the data; the
    /// first whose declared comment ends exactly at the end of the data wins.
    pub fn from_reader(data: &[u8]) -> (r: Result<ZipEOCD, ZipReadError>)
        ensures
            r is Ok <==> exists|p: int| eocd_at(data@, p),
            r matches Ok(e) ==> e.wf() && first_eocd_at(data@, e.starting_position_with_signature as int)
                && e.parsed_from(data@, e.starting_position_with_signature as int),
            r matches Err(e) ==> e.spec_kind() == ZipReadErrorKind::InvalidZipArchive,
    {
        let n = data.len();
        let mut pos: usize = if n > MAX_COMMENT_LENGTH + EOCD_FIXED_SIZE {
            n - (MAX_COMMENT_LENGTH + EOCD_FIXED_SIZE)
        } else {
            0
        };
        assert forall|q: int| 0 <= q < pos implies !eocd_at(data@, q) by {
            if eocd_at(data@, q) {
                assert(le_u16_at(data@, q + 20) <= 65535);
            }
        }
        while pos <= n && n - pos >= 4
            invariant
                pos <= n,
                n == data@.len(),
                forall|q: int| 0 <= q < pos ==> !eocd_at(data@, q),
            decreases n - pos,
        {
            if read_u32_le(data, pos) == EOCD_SIGNATURE {
                if let Some(eocd) = ZipEOCD::from_reader_next_to_signature(data, pos) {
                    return Ok(eocd);
                }
            }
            pos = pos + 1;
        }
        assert forall|q: int| #![auto] eocd_at(data@, q) implies false by {
            assert(q < pos);
        }
        Err(invalid_archive("valid end of central directory signature (PK\\x05\\x06) was not found"))
    }

    /// `true` unless the archive is split over several disks.
    pub fn is_single_archive(&self) -> (r: bool)
        ensures
            r == self.spec_is_single_archive(),
    {
        self.eocd_disk_index == 0 && self.n_cd_entries == self.n_cd_entries_in_disk
    }

    /// `true` if a field holds the all-ones value that announces ZIP64.
    pub fn is_zip64(&self) -> (r: bool)
        ensures
            r == self.spec_is_zip64(),
    {
        self.cd_starting_position == u32::MAX || self.cd_size == u32::MAX || self.n_cd_entries
            == u16::MAX || self.n_cd_entries_in_disk == u16::MAX || self.eocd_disk_index
            == u16::MAX || self.cd_start_disk_index == u16::MAX
    }

    /// Rejects split and ZIP64 archives.
    pub fn check_unsupported_zip_type(&self) -> (r: Result<(), ZipReadError>)
        ensures
            r is Ok <==> self.spec_is_single_archive() && !self.spec_is_zip64(),
            r matches Err(e) ==> e.spec_kind() == ZipReadErrorKind::UnsupportedZipArchive,
    {
        if !self.is_single_archive() {
            return Err(unsupported_archive("it is one of splitted arvhives"));
        }
        if self.is_zip64() {
            return Err(unsupported_archive("it is ZIP64 formatted"));
        }
        Ok(())
    }
}

/// The record read from `data` at `p` is written back as the same bytes,
/// which run to the end of the data.
pub proof fn lemma_eocd_bytes(e: ZipEOCD, data: Seq<u8>, p: int)
    requires
        e.wf(),
        e.parsed_from(data, p),
        eocd_at(data, p),
    ensures
        e.spec_bytes() == data.subrange(p, data.len() as int),
{
    let b0 = u32_le_bytes(EOCD_SIGNATURE);
    let b1 = u16_le_bytes(e.eocd_disk_index);
    let b2 = u16_le_bytes(e.cd_start_disk_index);
    let b3 = u16_le_bytes(e.n_cd_entries_in_disk);
    let b4 = u16_le_bytes(e.n_cd_entries);
    let b5 = u32_le_bytes(e.cd_size);
    let b6 = u32_le_bytes(e.cd_starting_position);
    let b7 = u16_le_bytes(e.comment_length);
    let b8 = e.comment@;
    assert(b0 == data.subrange(p, p + 4)) by {
        lemma_u32_round_trip(data, p);
    }
    assert(b0 + b1 == data.subrange(p, p + 6)) by {
        lemma_u16_round_trip(data, p + 4);
        lemma_concat_subranges(data, p, p + 4, p + 6);
    }
    assert(b0 + b1 + b2 == data.subrange(p, p + 8)) by {
        lemma_u16_round_trip(data, p + 6);
        lemma_concat_subranges(data, p, p + 6, p + 8);
    }
    assert(b0 + b1 + b2 + b3 == data.subrange(p, p + 10)) by {
        lemma_u16_round_trip(data, p + 8);
        lemma_concat_subranges(data, p, p + 8, p + 10);
    }
    assert(b0 + b1 + b2 + b3 + b4 == data.subrange(p, p + 12)) by {
        lemma_u16_round_trip(data, p + 10);
        lemma_concat_subranges(data, p, p + 10, p + 12);
    }
    assert(b0 + b1 + b2 + b3 + b4 + b5 == data.subrange(p, p + 16)) by {
        lemma_u32_round_trip(data, p + 12);
        lemma_concat_subranges(data, p, p + 12, p + 16);
    }
    assert(b0 + b1 + b2 + b3 + b4 + b5 + b6 == data.subrange(p, p + 20)) by {
        lemma_u32_round_trip(data, p + 16);
        lemma_concat_subranges(data, p, p + 16, p + 20);
    }
    assert(b0 + b1 + b2 + b3 + b4 + b5 + b6 + b7 == data.subrange(p, p + 22)) by {
        lemma_u16_round_trip(data, p + 20);
        lemma_concat_subranges(data, p, p + 20, p + 22);
    }
    assert(b0 + b1 + b2 + b3 + b4 + b5 + b6 + b7 + b8 == data.subrange(p, data.len() as int)) by {
        lemma_concat_subranges(data, p, p + 22, data.len() as int);
    }
}

} // verus!
