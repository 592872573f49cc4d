//! Central directory entries: parsing, the setters that keep their length
//! fields in step, and serialization.
use vstd::prelude::*;
use crate::le_bytes::{
    copy_range, lemma_concat_subranges, lemma_u16_round_trip, lemma_u32_round_trip, le_u16_at, le_u32_at, push_bytes, push_u16_le, push_u32_le, read_u16_le,
    read_u32_le, u16_le_bytes, u32_le_bytes,
};
use crate::zip_eocd::ZipEOCD;
use crate::zip_error::{
    invalid_archive, unexpected_end, unsupported_archive, ZipReadError, ZipReadErrorKind,
};

verus! {

/// `50 4B 01 02` read as a little-endian integer.
pub const CD_SIGNATURE: u32 = 0x02014b50;

/// Size of an entry without its name, extra field and comment.
pub const CD_FIXED_SIZE: usize = 46;

/// Bit 0 of the general purpose flags: the payload is encrypted.
pub const DATA_ENCRYPTED_FLAG_BIT: u16 = 0x0001;

/// Bit 3 of the general purpose flags: a data descriptor follows the payload.
pub const DATA_DESCRIPTOR_EXISTS_FLAG_BIT: u16 = 0x0008;

/// Bit 11 of the general purpose flags: name and comment are UTF-8.
pub const UTF8_FLAG_BIT: u16 = 0x0800;

/// One entry of the central directory.
pub struct ZipCDEntry {
    pub version_made_by: u16,
    pub version_required_to_extract: u16,
    /// General purpose flags; bit n is `1 << n`.
    pub general_purpose_flags: u16,
    pub compression_method: u16,
    /// MS-DOS time.
    pub last_mod_time: u16,
    /// MS-DOS date.
    pub last_mod_date: u16,
    pub crc32: u32,
    /// Size of the payload, without the name.
    pub compressed_size: u32,
    pub uncompressed_size: u32,
    pub file_name_length: u16,
    pub extra_field_length: u16,
    pub file_comment_length: u16,
    /// Number (0-based) of the disk holding the entry's data.
    pub disk_number_start: u16,
    pub internal_file_attributes: u16,
    pub external_file_attributes: u32,
    /// Absolute position of the entry's local file header.
    pub local_header_position: u32,
    /// Raw bytes of the name.
    pub file_name_raw: Vec<u8>,
    /// Raw bytes of the extra field.
    pub extra_field: Vec<u8>,
    /// Raw bytes of the comment, in the same encoding as the name.
    pub file_comment: Vec<u8>,
    /// Absolute position of the entry (its signature).
    pub starting_position_with_signature: u64,
    /// Absolute position just after the signature.
    pub starting_position_without_signature: u64,
}

/// The declared name, extra field and comment lengths of the entry at `pos`.
pub open spec fn cd_variable_size(data: Seq<u8>, pos: int) -> int {
    le_u16_at(data, pos + 28) as int + le_u16_at(data, pos + 30) as int + le_u16_at(
        data,
        pos + 32,
    ) as int
}

/// The whole size of the entry at `pos`.
pub open spec fn cd_entry_size(data: Seq<u8>, pos: int) -> int {
    CD_FIXED_SIZE + cd_variable_size(data, pos)
}

/// What reading an entry at `pos` gives: `None` when it succeeds, else the
/// kind of the first failure, in the order the fields are read.
pub open spec fn cd_entry_failure(data: Seq<u8>, pos: int) -> Option<ZipReadErrorKind> {
    if pos + 4 > data.len() {
        Some(ZipReadErrorKind::IOError)
    } else if le_u32_at(data, pos) != CD_SIGNATURE {
        Some(ZipReadErrorKind::InvalidZipArchive)
    } else if pos + CD_FIXED_SIZE > data.len() {
        Some(ZipReadErrorKind::IOError)
    } else if le_u16_at(data, pos + 34) != 0 || le_u16_at(data, pos + 8) & DATA_ENCRYPTED_FLAG_BIT
        != 0 {
        Some(ZipReadErrorKind::UnsupportedZipArchive)
    } else if pos + cd_entry_size(data, pos) > data.len() {
        Some(ZipReadErrorKind::InvalidZipArchive)
    } else {
        None
    }
}

/// Position of the `i`-th entry of a table that starts at `start`.
pub open spec fn cd_entry_offset(data: Seq<u8>, start: int, i: nat) -> int
    decreases i,
{
    if i == 0 {
        start
    } else {
        let p = cd_entry_offset(data, start, (i - 1) as nat);
        p + cd_entry_size(data, p)
    }
}

/// What reading entries `i .. n` of a table that starts at `start` and must
/// end at `end` gives: `None` when all succeed and the last ends at `end`.
pub open spec fn cd_table_failure(data: Seq<u8>, start: int, i: nat, n: nat, end: int) -> Option<
    ZipReadErrorKind,
>
    decreases n - i,
{
    if i >= n {
        if cd_entry_offset(data, start, n) == end {
            None
        } else {
            Some(ZipReadErrorKind::UnsupportedZipArchive)
        }
    } else {
        let failure = cd_entry_failure(data, cd_entry_offset(data, start, i));
        if failure is Some {
            failure
        } else {
            cd_table_failure(data, start, i + 1, n, end)
        }
    }
}

proof fn lemma_table_failure_step(data: Seq<u8>, start: int, i: nat, n: nat, end: int)
    requires
        i < n,
    ensures
        cd_entry_failure(data, cd_entry_offset(data, start, i)) is Some ==> cd_table_failure(
            data,
            start,
            i,
            n,
            end,
        ) == cd_entry_failure(data, cd_entry_offset(data, start, i)),
        cd_entry_failure(data, cd_entry_offset(data, start, i)) is None ==> cd_table_failure(
            data,
            start,
            i,
            n,
            end,
        ) == cd_table_failure(data, start, i + 1, n, end),
        cd_entry_offset(data, start, i + 1) == cd_entry_offset(data, start, i) + cd_entry_size(
            data,
            cd_entry_offset(data, start, i),
        ),
{
}

impl ZipCDEntry {
    /// The length fields match the raw buffers.
    pub open spec fn wf(&self) -> bool {
        &&& self.file_name_length == self.file_name_raw@.len()
        &&& self.extra_field_length == self.extra_field@.len()
        &&& self.file_comment_length == self.file_comment@.len()
    }

    pub open spec fn spec_size(&self) -> int {
        CD_FIXED_SIZE + self.file_name_length + self.extra_field_length + self.file_comment_length
    }

    /// The bytes of the entry as it is written.
    pub open spec fn spec_bytes(&self) -> Seq<u8> {
        u32_le_bytes(CD_SIGNATURE) + u16_le_bytes(self.version_made_by) + u16_le_bytes(
            self.version_required_to_extract,
        ) + u16_le_bytes(self.general_purpose_flags) + u16_le_bytes(self.compression_method)
            + u16_le_bytes(self.last_mod_time) + u16_le_bytes(self.last_mod_date) + u32_le_bytes(
            self.crc32,
        ) + u32_le_bytes(self.compressed_size) + u32_le_bytes(self.uncompressed_size)
            + u16_le_bytes(self.file_name_length) + u16_le_bytes(self.extra_field_length)
            + u16_le_bytes(self.file_comment_length) + u16_le_bytes(self.disk_number_start)
            + u16_le_bytes(self.internal_file_attributes) + u32_le_bytes(
            self.external_file_attributes,
        ) + u32_le_bytes(self.local_header_position) + self.file_name_raw@ + self.extra_field@
            + self.file_comment@
    }

    /// Every field holds what the entry starting at `pos` in `data` stores.
    pub open spec fn parsed_from(&self, data: Seq<u8>, pos: int) -> bool {
        let name_at = pos + CD_FIXED_SIZE;
        let extra_at = name_at + self.file_name_length;
        let comment_at = extra_at + self.extra_field_length;
        &&& self.starting_position_with_signature == pos
        &&& self.starting_position_without_signature == pos + 4
        &&& self.version_made_by == le_u16_at(data, pos + 4)
        &&& self.version_required_to_extract == le_u16_at(data, pos + 6)
        &&& self.general_purpose_flags == le_u16_at(data, pos + 8)
        &&& self.compression_method == le_u16_at(data, pos + 10)
        &&& self.last_mod_time == le_u16_at(data, pos + 12)
        &&& self.last_mod_date == le_u16_at(data, pos + 14)
        &&& self.crc32 == le_u32_at(data, pos + 16)
        &&& self.compressed_size == le_u32_at(data, pos + 20)
        &&& self.uncompressed_size == le_u32_at(data, pos + 24)
        &&& self.file_name_length == le_u16_at(data, pos + 28)
        &&& self.extra_field_length == le_u16_at(data, pos + 30)
        &&& self.file_comment_length == le_u16_at(data, pos + 32)
        &&& self.disk_number_start == le_u16_at(data, pos + 34)
        &&& self.internal_file_attributes == le_u16_at(data, pos + 36)
        &&& self.external_file_attributes == le_u32_at(data, pos + 38)
        &&& self.local_header_position == le_u32_at(data, pos + 42)
        &&& self.file_name_raw@ == data.subrange(name_at, extra_at)
        &&& self.extra_field@ == data.subrange(extra_at, comment_at)
        &&& self.file_comment@ == data.subrange(
            comment_at,
            comment_at + self.file_comment_length,
        )
    }

    pub open spec fn spec_is_encoded_in_utf8(&self) -> bool {
        self.general_purpose_flags & UTF8_FLAG_BIT != 0
    }

    pub open spec fn spec_is_encrypted_data(&self) -> bool {
        self.general_purpose_flags & DATA_ENCRYPTED_FLAG_BIT != 0
    }

    pub(crate) fn empty() -> (r: Self)
        ensures
            r.wf(),
            r.general_purpose_flags == 0,
    {
        ZipCDEntry {
            version_made_by: 0,
            version_required_to_extract: 0,
            general_purpose_flags: 0,
            compression_method: 0,
            last_mod_time: 0,
            last_mod_date: 0,
            crc32: 0,
            compressed_size: 0,
            uncompressed_size: 0,
            file_name_length: 0,
            extra_field_length: 0,
            file_comment_length: 0,
            disk_number_start: 0,
            internal_file_attributes: 0,
            external_file_attributes: 0,
            local_header_position: 0,
            file_name_raw: Vec::new(),
            extra_field: Vec::new(),
            file_comment: Vec::new(),
            starting_position_with_signature: 0,
            starting_position_without_signature: 0,
        }
    }

    /// Reads the fields that follow the signature of the entry at `pos`.
    fn read_from_eocd_next_signature(&mut self, data: &[u8], pos: usize) -> (r: Result<
        (),
        ZipReadError,
    >)
        requires
            pos + 4 <= data@.len(),
            le_u32_at(data@, pos as int) == CD_SIGNATURE,
        ensures
            r is Ok <==> cd_entry_failure(data@, pos as int) is None,
            r matches Err(e) ==> Some(e.spec_kind()) == cd_entry_failure(data@, pos as int),
            r is Ok ==> final(self).wf() && final(self).parsed_from(data@, pos as int),
    {
        let n = data.len();
        if n - pos < CD_FIXED_SIZE {
            return Err(unexpected_end());
        }
        self.starting_position_with_signature = pos as u64;
        self.starting_position_without_signature = (pos + 4) as u64;
        self.version_made_by = read_u16_le(data, pos + 4);
        self.version_required_to_extract = read_u16_le(data, pos + 6);
        self.general_purpose_flags = read_u16_le(data, pos + 8);
        self.compression_method = read_u16_le(data, pos + 10);
        self.last_mod_time = read_u16_le(data, pos + 12);
        self.last_mod_date = read_u16_le(data, pos + 14);
        self.crc32 = read_u32_le(data, pos + 16);
        self.compressed_size = read_u32_le(data, pos + 20);
        self.uncompressed_size = read_u32_le(data, pos + 24);
        self.file_name_length = read_u16_le(data, pos + 28);
        self.extra_field_length = read_u16_le(data, pos + 30);
        self.file_comment_length = read_u16_le(data, pos + 32);
        self.disk_number_start = read_u16_le(data, pos + 34);
        self.internal_file_attributes = read_u16_le(data, pos + 36);
        self.external_file_attributes = read_u32_le(data, pos + 38);
        self.local_header_position = read_u32_le(data, pos + 42);
        self.check_unsupported()?;
        let name_at = pos + CD_FIXED_SIZE;
        let name_len = self.file_name_length as usize;
        if n - name_at < name_len {
            return Err(invalid_archive("file name length is invalid"));
        }
        self.file_name_raw = copy_range(data, name_at, name_len);
        let extra_at = name_at + name_len;
        let extra_len = self.extra_field_length as usize;
        if n - extra_at < extra_len {
            return Err(invalid_archive("extra field length is invalid"));
        }
        self.extra_field = copy_range(data, extra_at, extra_len);
        let comment_at = extra_at + extra_len;
        let comment_len = self.file_comment_length as usize;
        if n - comment_at < comment_len {
            return Err(invalid_archive("file comment length is invalid"));
        }
        self.file_comment = copy_range(data, comment_at, comment_len);
        Ok(())
    }

    /// Sets bit 11 of the general purpose flags: name and comment are UTF-8.
    pub fn set_utf8_encoded_flag(&mut self)
        ensures
            *final(self) == (ZipCDEntry {
                general_purpose_flags: old(self).general_purpose_flags | UTF8_FLAG_BIT,
                ..*old(self)
            }),
            final(self).spec_is_encoded_in_utf8(),
            final(self).spec_is_encrypted_data() == old(self).spec_is_encrypted_data(),
    {
        let old_flags = self.general_purpose_flags;
        self.general_purpose_flags = self.general_purpose_flags | UTF8_FLAG_BIT;
        assert((old_flags | 0x0800u16) & 0x0800u16 != 0) by (bit_vector);
        assert(((old_flags | 0x0800u16) & 0x0001u16) == (old_flags & 0x0001u16)) by (bit_vector);
    }

    /// Replaces the file name, keeping its length field in step.
    pub fn set_file_name_from_slice(&mut self, name: &Vec<u8>)
        requires
            name@.len() <= u16::MAX,
        ensures
            final(self).file_name_raw@ == name@,
            final(self).file_name_length == name@.len(),
            (ZipCDEntry {
                file_name_raw: final(self).file_name_raw,
                file_name_length: final(self).file_name_length,
                ..*old(self)
            }) == *final(self),
    {
        self.file_name_length = name.len() as u16;
        self.file_name_raw = name.clone();
    }

    /// Replaces the file comment, keeping its length field in step.
    pub fn set_file_coment_from_slice(&mut self, comment: &Vec<u8>)
        requires
            comment@.len() <= u16::MAX,
        ensures
            final(self).file_comment@ == comment@,
            final(self).file_comment_length == comment@.len(),
            (ZipCDEntry {
                file_comment: final(self).file_comment,
                file_comment_length: final(self).file_comment_length,
                ..*old(self)
            }) == *final(self),
    {
        self.file_comment_length = comment.len() as u16;
        self.file_comment = comment.clone();
    }

    /// Whether name and comment are explicitly UTF-8 (bit 11).
    pub fn is_encoded_in_utf8(&self) -> (r: bool)
        ensures
            r == self.spec_is_encoded_in_utf8(),
    {
        self.general_purpose_flags & UTF8_FLAG_BIT != 0
    }

    /// Whether the payload is encrypted (bit 0).
    pub fn is_encrypted_data(&self) -> (r: bool)
        ensures
            r == self.spec_is_encrypted_data(),
    {
        self.general_purpose_flags & DATA_ENCRYPTED_FLAG_BIT != 0
    }

    /// Rejects entries of split archives and encrypted entries.
    pub fn check_unsupported(&self) -> (r: Result<(), ZipReadError>)
        ensures
            r is Ok <==> self.disk_number_start == 0 && !self.spec_is_encrypted_data(),
            r matches Err(e) ==> e.spec_kind() == ZipReadErrorKind::UnsupportedZipArchive,
    {
        if self.disk_number_start != 0 {
            return Err(unsupported_archive("it is one of splitted arvhives"));
        }
        if self.is_encrypted_data() {
            return Err(unsupported_archive("encrypted data is not supported"));
        }
        Ok(())
    }

    /// Appends the entry to `out` and returns the number of bytes written.
    pub fn write(&self, out: &mut Vec<u8>) -> (r: u64)
        ensures
            final(out)@ == old(out)@ + self.spec_bytes(),
            r == self.spec_size(),
            self.wf() ==> self.spec_bytes().len() == self.spec_size(),
    {
        push_u32_le(out, CD_SIGNATURE);
        push_u16_le(out, self.version_made_by);
        push_u16_le(out, self.version_required_to_extract);
        push_u16_le(out, self.general_purpose_flags);
        push_u16_le(out, self.compression_method);
        push_u16_le(out, self.last_mod_time);
        push_u16_le(out, self.last_mod_date);
        push_u32_le(out, self.crc32);
        push_u32_le(out, self.compressed_size);
        push_u32_le(out, self.uncompressed_size);
        push_u16_le(out, self.file_name_length);
        push_u16_le(out, self.extra_field_length);
        push_u16_le(out, self.file_comment_length);
        push_u16_le(out, self.disk_number_start);
        push_u16_le(out, self.internal_file_attributes);
        push_u32_le(out, self.external_file_attributes);
        push_u32_le(out, self.local_header_position);
        push_bytes(out, self.file_name_raw.as_slice());
        push_bytes(out, self.extra_field.as_slice());
        push_bytes(out, self.file_comment.as_slice());
        assert(final(out)@ =~= old(out)@ + self.spec_bytes());
        46 + self.file_name_length as u64 + self.extra_field_length as u64
            + self.file_comment_length as u64
    }

    /// Checks the signature at `pos` and reads the entry there.
    fn read_and_generate_from_signature(data: &[u8], pos: usize) -> (r: Result<Self, ZipReadError>)
        ensures
            r is Ok <==> cd_entry_failure(data@, pos as int) is None,
            r matches Err(e) ==> Some(e.spec_kind()) == cd_entry_failure(data@, pos as int),
            r matches Ok(e) ==> e.wf() && e.parsed_from(data@, pos as int),
    {
        let n = data.len();
        if pos > n || n - pos < 4 {
            return Err(unexpected_end());
        }
        if read_u32_le(data, pos) != CD_SIGNATURE {
            return Err(invalid_archive("assumed central directry signature doesn't appear"));
        }
        let mut result = Self::empty();
        result.read_from_eocd_next_signature(data, pos)?;
        Ok(result)
    }

    /// Reads the central directory that `eocd` points to.
    ///
    /// The table must end exactly where the End Of Central Directory record
    /// starts; trailing or missing bytes make the archive unsupported.
    pub fn all_from_eocd(data: &[u8], eocd: &ZipEOCD) -> (r: Result<Vec<Self>, ZipReadError>)
        ensures
            r is Ok <==> cd_table_failure(
                data@,
                eocd.cd_starting_position as int,
                0,
                eocd.n_cd_entries as nat,
                eocd.starting_position_with_signature as int,
            ) is None,
            r matches Err(e) ==> Some(e.spec_kind()) == cd_table_failure(
                data@,
                eocd.cd_starting_position as int,
                0,
                eocd.n_cd_entries as nat,
                eocd.starting_position_with_signature as int,
            ),
            r matches Ok(v) ==> v@.len() == eocd.n_cd_entries,
            r matches Ok(v) ==> forall|i: int|
                0 <= i < v@.len() ==> (#[trigger] v@[i]).wf() && v@[i].parsed_from(
                    data@,
                    cd_entry_offset(data@, eocd.cd_starting_position as int, i as nat),
                ),
    {
        let ghost start = eocd.cd_starting_position as int;
        let ghost n_entries = eocd.n_cd_entries as nat;
        let ghost end = eocd.starting_position_with_signature as int;
        let n = data.len();
        let mut pos: usize = eocd.cd_starting_position as usize;
        let mut result: Vec<Self> = Vec::new();
        let mut i: u16 = 0;
        while i < eocd.n_cd_entries
            invariant
                n == data@.len(),
                start == eocd.cd_starting_position,
                n_entries == eocd.n_cd_entries,
                end == eocd.starting_position_with_signature,
                i <= eocd.n_cd_entries,
                result@.len() == i,
                pos == cd_entry_offset(data@, start, i as nat),
                i > 0 ==> pos <= n,
                cd_table_failure(data@, start, 0, n_entries, end) == cd_table_failure(
                    data@,
                    start,
                    i as nat,
                    n_entries,
                    end,
                ),
                forall|j: int|
                    0 <= j < result@.len() ==> (#[trigger] result@[j]).wf() && result@[j].parsed_from(
                        data@,
                        cd_entry_offset(data@, start, j as nat),
                    ),
            decreases eocd.n_cd_entries - i,
        {
            let ghost p = pos as int;
            proof {
                lemma_table_failure_step(data@, start, i as nat, n_entries, end);
            }
            let entry = match Self::read_and_generate_from_signature(data, pos) {
                Ok(e) => e,
                Err(e) => {
                    return Err(e);
                },
            };
            assert(cd_entry_offset(data@, start, (i + 1) as nat) == p + cd_entry_size(data@, p));
            pos = pos + CD_FIXED_SIZE + entry.file_name_length as usize
                + entry.extra_field_length as usize + entry.file_comment_length as usize;
            result.push(entry);
            i = i + 1;
        }
        assert(cd_table_failure(data@, start, i as nat, n_entries, end) == if cd_entry_offset(data@, start, n_entries) == end {
            None
        } else {
            Some(ZipReadErrorKind::UnsupportedZipArchive)
        });
        if pos as u64 != eocd.starting_position_with_signature {
            return Err(
                unsupported_archive(
                    "there are extra data between central directory and end of central directory",
                ),
            );
        }
        Ok(result)
    }
}

/// The entry at `pos` has its signature and fixed fields, and its declared
/// name, extra field and comment lie within the data.
pub open spec fn cd_entry_well_formed(data: Seq<u8>, pos: int) -> bool {
    &&& 0 <= pos
    &&& pos + CD_FIXED_SIZE <= data.len()
    &&& le_u32_at(data, pos) == CD_SIGNATURE
    &&& pos + cd_entry_size(data, pos) <= data.len()
}

/// The entry at `pos` has bit 0 (encryption) of its flags set.
pub open spec fn cd_entry_encrypted(data: Seq<u8>, pos: int) -> bool {
    le_u16_at(data, pos + 8) & DATA_ENCRYPTED_FLAG_BIT != 0
}

/// A central directory whose entries are well formed but one of which is
/// encrypted is rejected as unsupported, never as invalid, and never read.
pub proof fn lemma_encrypted_entry_rejected(data: Seq<u8>, start: int, i: nat, n: nat, end: int, j: nat)
    requires
        i <= j < n,
        forall|k: nat| i <= k < n ==> cd_entry_well_formed(data, #[trigger] cd_entry_offset(data, start, k)),
        cd_entry_encrypted(data, cd_entry_offset(data, start, j)),
    ensures
        cd_table_failure(data, start, i, n, end) == Some(ZipReadErrorKind::UnsupportedZipArchive),
    decreases n - i,
{
    let p = cd_entry_offset(data, start, i);
    assert(cd_entry_well_formed(data, p));
    if cd_entry_failure(data, p) is None {
        if i == j {
            assert(false);
        }
        lemma_encrypted_entry_rejected(data, start, i + 1, n, end, j);
    }
}

/// An entry read from `data` at `pos` is written back as the same bytes.
pub proof fn lemma_cd_entry_bytes(e: ZipCDEntry, data: Seq<u8>, pos: int)
    requires
        e.wf(),
        e.parsed_from(data, pos),
        cd_entry_failure(data, pos) is None,
    ensures
        e.spec_size() == cd_entry_size(data, pos),
        e.spec_bytes() == data.subrange(pos, pos + e.spec_size()),
{
    let name_end = pos + 46 + e.file_name_length;
    let extra_end = name_end + e.extra_field_length;
    let comment_end = extra_end + e.file_comment_length;
    let b0 = u32_le_bytes(CD_SIGNATURE);
    let b1 = u16_le_bytes(e.version_made_by);
    let b2 = u16_le_bytes(e.version_required_to_extract);
    let b3 = u16_le_bytes(e.general_purpose_flags);
    let b4 = u16_le_bytes(e.compression_method);
    let b5 = u16_le_bytes(e.last_mod_time);
    let b6 = u16_le_bytes(e.last_mod_date);
    let b7 = u32_le_bytes(e.crc32);
    let b8 = u32_le_bytes(e.compressed_size);
    let b9 = u32_le_bytes(e.uncompressed_size);
    let b10 = u16_le_bytes(e.file_name_length);
    let b11 = u16_le_bytes(e.extra_field_length);
    let b12 = u16_le_bytes(e.file_comment_length);
    let b13 = u16_le_bytes(e.disk_number_start);
    let b14 = u16_le_bytes(e.internal_file_attributes);
    let b15 = u32_le_bytes(e.external_file_attributes);
    let b16 = u32_le_bytes(e.local_header_position);
    let b17 = e.file_name_raw@;
    let b18 = e.extra_field@;
    let b19 = e.file_comment@;
    assert(b0 == data.subrange(pos, pos + 4)) by {
        lemma_u32_round_trip(data, pos);
    }
    assert(b0 + b1 == data.subrange(pos, pos + 6)) by {
        lemma_u16_round_trip(data, pos + 4);
        lemma_concat_subranges(data, pos, pos + 4, pos + 6);
    }
    assert(b0 + b1 + b2 == data.subrange(pos, pos + 8)) by {
        lemma_u16_round_trip(data, pos + 6);
        lemma_concat_subranges(data, pos, pos + 6, pos + 8);
    }
    assert(b0 + b1 + b2 + b3 == data.subrange(pos, pos + 10)) by {
        lemma_u16_round_trip(data, pos + 8);
        lemma_concat_subranges(data, pos, pos + 8, pos + 10);
    }
    assert(b0 + b1 + b2 + b3 + b4 == data.subrange(pos, pos + 12)) by {
        lemma_u16_round_trip(data, pos + 10);
        lemma_concat_subranges(data, pos, pos + 10, pos + 12);
    }
    assert(b0 + b1 + b2 + b3 + b4 + b5 == data.subrange(pos, pos + 14)) by {
        lemma_u16_round_trip(data, pos + 12);
        lemma_concat_subranges(data, pos, pos + 12, pos + 14);
    }
    assert(b0 + b1 + b2 + b3 + b4 + b5 + b6 == data.subrange(pos, pos + 16)) by {
        lemma_u16_round_trip(data, pos + 14);
        lemma_concat_subranges(data, pos, pos + 14, pos + 16);
    }
    assert(b0 + b1 + b2 + b3 + b4 + b5 + b6 + b7 == data.subrange(pos, pos + 20)) by {
        lemma_u32_round_trip(data, pos + 16);
        lemma_concat_subranges(data, pos, pos + 16, pos + 20);
    }
    assert(b0 + b1 + b2 + b3 + b4 + b5 + b6 + b7 + b8 == data.subrange(pos, pos + 24)) by {
        lemma_u32_round_trip(data, pos + 20);
        lemma_concat_subranges(data, pos, pos + 20, pos + 24);
    }
    assert(b0 + b1 + b2 + b3 + b4 + b5 + b6 + b7 + b8 + b9 == data.subrange(pos, pos + 28)) by {
        lemma_u32_round_trip(data, pos + 24);
        lemma_concat_subranges(data, pos, pos + 24, pos + 28);
    }
    assert(b0 + b1 + b2 + b3 + b4 + b5 + b6 + b7 + b8 + b9 + b10 == data.subrange(pos, pos + 30)) by {
        lemma_u16_round_trip(data, pos + 28);
        lemma_concat_subranges(data, pos, pos + 28, pos + 30);
    }
    assert(b0 + b1 + b2 + b3 + b4 + b5 + b6 + b7 + b8 + b9 + b10 + b11 == data.subrange(pos, pos + 32)) by {
        lemma_u16_round_trip(data, pos + 30);
        lemma_concat_subranges(data, pos, pos + 30, pos + 32);
    }
    assert(b0 + b1 + b2 + b3 + b4 + b5 + b6 + b7 + b8 + b9 + b10 + b11 + b12 == data.subrange(pos, pos + 34)) by {
        lemma_u16_round_trip(data, pos + 32);
        lemma_concat_subranges(data, pos, pos + 32, pos + 34);
    }
    assert(b0 + b1 + b2 + b3 + b4 + b5 + b6 + b7 + b8 + b9 + b10 + b11 + b12 + b13 == data.subrange(pos, pos + 36)) by {
        lemma_u16_round_trip(data, pos + 34);
        lemma_concat_subranges(data, pos, pos + 34, pos + 36);
    }
    assert(b0 + b1 + b2 + b3 + b4 + b5 + b6 + b7 + b8 + b9 + b10 + b11 + b12 + b13 + b14 == data.subrange(pos, pos + 38)) by {
        lemma_u16_round_trip(data, pos + 36);
        lemma_concat_subranges(data, pos, pos + 36, pos + 38);
    }
    assert(b0 + b1 + b2 + b3 + b4 + b5 + b6 + b7 + b8 + b9 + b10 + b11 + b12 + b13 + b14 + b15 == data.subrange(pos, pos + 42)) by {
        lemma_u32_round_trip(data, pos + 38);
        lemma_concat_subranges(data, pos, pos + 38, pos + 42);
    }
    assert(b0 + b1 + b2 + b3 + b4 + b5 + b6 + b7 + b8 + b9 + b10 + b11 + b12 + b13 + b14 + b15 + b16 == data.subrange(pos, pos + 46)) by {
        lemma_u32_round_trip(data, pos + 42);
        lemma_concat_subranges(data, pos, pos + 42, pos + 46);
    }
    assert(b0 + b1 + b2 + b3 + b4 + b5 + b6 + b7 + b8 + b9 + b10 + b11 + b12 + b13 + b14 + b15 + b16 + b17 == data.subrange(pos, name_end)) by {
        lemma_concat_subranges(data, pos, pos + 46, name_end);
    }
    assert(b0 + b1 + b2 + b3 + b4 + b5 + b6 + b7 + b8 + b9 + b10 + b11 + b12 + b13 + b14 + b15 + b16 + b17 + b18 == data.subrange(pos, extra_end)) by {
        lemma_concat_subranges(data, pos, name_end, extra_end);
    }
    assert(b0 + b1 + b2 + b3 + b4 + b5 + b6 + b7 + b8 + b9 + b10 + b11 + b12 + b13 + b14 + b15 + b16 + b17 + b18 + b19 == data.subrange(pos, comment_end)) by {
        lemma_concat_subranges(data, pos, extra_end, comment_end);
    }
}

} // verus!
