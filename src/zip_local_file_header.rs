//! Local file headers: the per-entry header that precedes each payload.
use vstd::prelude::*;
use crate::le_bytes::{
    copy_range, le_u16_at, le_u32_at, push_bytes, push_u16_le, push_u32_le, read_u16_le,
    read_u32_le, u16_le_bytes, u32_le_bytes,
};
use crate::zip_central_directory::{ZipCDEntry, DATA_DESCRIPTOR_EXISTS_FLAG_BIT, UTF8_FLAG_BIT};
use crate::zip_error::{invalid_archive, unexpected_end, ZipReadError, ZipReadErrorKind};

verus! {

/// `50 4B 03 04` read as a little-endian integer.
pub const LOCAL_FILE_SIGNATURE: u32 = 0x04034b50;

/// Size of a local file header without its name and extra field.
pub const LOCAL_FIXED_SIZE: usize = 30;

/// Size of a data descriptor (without the optional signature).
pub const DATA_DESCRIPTOR_SIZE: usize = 12;

/// The record that follows the payload when bit 3 of the flags is set.
pub struct ZipDataDescriptor {
    pub crc32: u32,
    pub compressed_size: u32,
    pub uncompressed_size: u32,
}

/// One local file header, with the payload that follows it.
pub struct ZipLocalFileHeader {
    pub version_required_to_extract: u16,
    /// General purpose flags; bit n is `1 << n`.
    pub general_purpose_flags: u16,
    pub compression_method: u16,
    /// MS-DOS time.
    pub last_mod_time: u16,
    /// MS-DOS date.
    pub last_mod_date: u16,
    pub crc32: u32,
    /// Size of the payload, without the name.
    pub compressed_size: u32,
    pub uncompressed_size: u32,
    pub file_name_length: u16,
    pub extra_field_length: u16,
    /// Raw bytes of the name.
    pub file_name_raw: Vec<u8>,
    /// Raw bytes of the extra field.
    pub extra_field: Vec<u8>,
    /// The payload, copied verbatim.
    pub compressed_data: Vec<u8>,
    /// Present only when bit 3 of the flags is set.
    pub data_descriptor: Option<ZipDataDescriptor>,
    /// Absolute position of the header (its signature).
    pub starting_position_with_signature: u64,
    /// Absolute position just after the signature.
    pub starting_position_without_signature: u64,
}

pub open spec fn has_descriptor_flag(flags: u16) -> bool {
    flags & DATA_DESCRIPTOR_EXISTS_FLAG_BIT != 0
}

/// Size of the header at `pos`, with its name, extra field and payload,
/// but without the data descriptor.
pub open spec fn local_body_size(data: Seq<u8>, pos: int) -> int {
    LOCAL_FIXED_SIZE + le_u16_at(data, pos + 26) as int + le_u16_at(data, pos + 28) as int
        + le_u32_at(data, pos + 18) as int
}

/// What reading a header at `pos` gives: `None` when it succeeds, else the
/// kind of the first failure, in the order the fields are read.
pub open spec fn local_header_failure(data: Seq<u8>, pos: int) -> Option<ZipReadErrorKind> {
    let name_end = pos + LOCAL_FIXED_SIZE + le_u16_at(data, pos + 26);
    let extra_end = name_end + le_u16_at(data, pos + 28);
    let body_end = pos + local_body_size(data, pos);
    if pos + 4 > data.len() {
        Some(ZipReadErrorKind::IOError)
    } else if le_u32_at(data, pos) != LOCAL_FILE_SIGNATURE {
        Some(ZipReadErrorKind::InvalidZipArchive)
    } else if pos + LOCAL_FIXED_SIZE > data.len() {
        Some(ZipReadErrorKind::IOError)
    } else if name_end > data.len() || extra_end > data.len() || body_end > data.len() {
        Some(ZipReadErrorKind::InvalidZipArchive)
    } else if has_descriptor_flag(le_u16_at(data, pos + 6)) && body_end + DATA_DESCRIPTOR_SIZE
        > data.len() {
        Some(ZipReadErrorKind::IOError)
    } else {
        None
    }
}

impl ZipDataDescriptor {
    pub open spec fn spec_bytes(&self) -> Seq<u8> {
        u32_le_bytes(self.crc32) + u32_le_bytes(self.compressed_size) + u32_le_bytes(
            self.uncompressed_size,
        )
    }

    fn empty() -> (r: Self)
        ensures
            r.crc32 == 0 && r.compressed_size == 0 && r.uncompressed_size == 0,
    {
        ZipDataDescriptor { crc32: 0, compressed_size: 0, uncompressed_size: 0 }
    }

    fn from_reader(data: &[u8], pos: usize) -> (r: Result<Self, ZipReadError>)
        ensures
            r is Ok <==> pos + DATA_DESCRIPTOR_SIZE <= data@.len(),
            r matches Err(e) ==> e.spec_kind() == ZipReadErrorKind::IOError,
            r matches Ok(d) ==> d.crc32 == le_u32_at(data@, pos as int) && d.compressed_size
                == le_u32_at(data@, pos + 4) && d.uncompressed_size == le_u32_at(data@, pos + 8),
    {
        if pos > data.len() || data.len() - pos < DATA_DESCRIPTOR_SIZE {
            return Err(unexpected_end());
        }
        let mut result = Self::empty();
        result.crc32 = read_u32_le(data, pos);
        result.compressed_size = read_u32_le(data, pos + 4);
        result.uncompressed_size = read_u32_le(data, pos + 8);
        Ok(result)
    }

    fn write(&self, out: &mut Vec<u8>) -> (r: u64)
        ensures
            final(out)@ == old(out)@ + self.spec_bytes(),
            r == DATA_DESCRIPTOR_SIZE,
    {
        push_u32_le(out, self.crc32);
        push_u32_le(out, self.compressed_size);
        push_u32_le(out, self.uncompressed_size);
        assert(final(out)@ =~= old(out)@ + self.spec_bytes());
        12
    }
}

impl ZipLocalFileHeader {
    /// The length fields match the raw buffers.
    pub open spec fn wf(&self) -> bool {
        &&& self.file_name_length == self.file_name_raw@.len()
        &&& self.extra_field_length == self.extra_field@.len()
        &&& self.compressed_size == self.compressed_data@.len()
    }

    pub open spec fn descriptor_bytes(&self) -> Seq<u8> {
        match self.data_descriptor {
            Some(d) => d.spec_bytes(),
            None => Seq::empty(),
        }
    }

    /// The number of bytes `write` reports.
    pub open spec fn spec_size(&self) -> int {
        LOCAL_FIXED_SIZE + self.file_name_length + self.extra_field_length + self.compressed_size
            + if self.data_descriptor is Some {
            DATA_DESCRIPTOR_SIZE as int
        } else {
            0
        }
    }

    /// The bytes of the header, payload and descriptor as they are written.
    pub open spec fn spec_bytes(&self) -> Seq<u8> {
        u32_le_bytes(LOCAL_FILE_SIGNATURE) + u16_le_bytes(self.version_required_to_extract)
            + u16_le_bytes(self.general_purpose_flags) + u16_le_bytes(self.compression_method)
            + u16_le_bytes(self.last_mod_time) + u16_le_bytes(self.last_mod_date) + u32_le_bytes(
            self.crc32,
        ) + u32_le_bytes(self.compressed_size) + u32_le_bytes(self.uncompressed_size)
            + u16_le_bytes(self.file_name_length) + u16_le_bytes(self.extra_field_length)
            + self.file_name_raw@ + self.extra_field@ + self.compressed_data@
            + self.descriptor_bytes()
    }

    /// Every field holds what the header starting at `pos` in `data` stores.
    pub open spec fn parsed_from(&self, data: Seq<u8>, pos: int) -> bool {
        let name_at = pos + LOCAL_FIXED_SIZE;
        let extra_at = name_at + self.file_name_length;
        let payload_at = extra_at + self.extra_field_length;
        let payload_end = payload_at + self.compressed_size;
        &&& self.starting_position_with_signature == pos
        &&& self.starting_position_without_signature == pos + 4
        &&& self.version_required_to_extract == le_u16_at(data, pos + 4)
        &&& self.general_purpose_flags == le_u16_at(data, pos + 6)
        &&& self.compression_method == le_u16_at(data, pos + 8)
        &&& self.last_mod_time == le_u16_at(data, pos + 10)
        &&& self.last_mod_date == le_u16_at(data, pos + 12)
        &&& self.crc32 == le_u32_at(data, pos + 14)
        &&& self.compressed_size == le_u32_at(data, pos + 18)
        &&& self.uncompressed_size == le_u32_at(data, pos + 22)
        &&& self.file_name_length == le_u16_at(data, pos + 26)
        &&& self.extra_field_length == le_u16_at(data, pos + 28)
        &&& self.file_name_raw@ == data.subrange(name_at, extra_at)
        &&& self.extra_field@ == data.subrange(extra_at, payload_at)
        &&& self.compressed_data@ == data.subrange(payload_at, payload_end)
        &&& (self.data_descriptor is Some <==> has_descriptor_flag(self.general_purpose_flags))
        &&& (self.data_descriptor matches Some(d) ==> d.crc32 == le_u32_at(data, payload_end)
            && d.compressed_size == le_u32_at(data, payload_end + 4) && d.uncompressed_size
            == le_u32_at(data, payload_end + 8))
    }

    fn empty() -> (r: Self)
        ensures
            r.wf(),
            r.data_descriptor is None,
    {
        ZipLocalFileHeader {
            version_required_to_extract: 0,
            general_purpose_flags: 0,
            compression_method: 0,
            last_mod_time: 0,
            last_mod_date: 0,
            crc32: 0,
            compressed_size: 0,
            uncompressed_size: 0,
            file_name_length: 0,
            extra_field_length: 0,
            file_name_raw: Vec::new(),
            extra_field: Vec::new(),
            compressed_data: Vec::new(),
            data_descriptor: None,
            starting_position_with_signature: 0,
            starting_position_without_signature: 0,
        }
    }

    /// Reads the fields that follow the signature of the header at `pos`.
    fn read_without_signature(&mut self, data: &[u8], pos: usize) -> (r: Result<(), ZipReadError>)
        requires
            pos + 4 <= data@.len(),
            le_u32_at(data@, pos as int) == LOCAL_FILE_SIGNATURE,
            old(self).data_descriptor is None,
        ensures
            r is Ok <==> local_header_failure(data@, pos as int) is None,
            r matches Err(e) ==> Some(e.spec_kind()) == local_header_failure(data@, pos as int),
            r is Ok ==> final(self).wf() && final(self).parsed_from(data@, pos as int),
    {
        let n = data.len();
        if n - pos < LOCAL_FIXED_SIZE {
            return Err(unexpected_end());
        }
        self.starting_position_with_signature = pos as u64;
        self.starting_position_without_signature = (pos + 4) as u64;
        self.version_required_to_extract = read_u16_le(data, pos + 4);
        self.general_purpose_flags = read_u16_le(data, pos + 6);
        self.compression_method = read_u16_le(data, pos + 8);
        self.last_mod_time = read_u16_le(data, pos + 10);
        self.last_mod_date = read_u16_le(data, pos + 12);
        self.crc32 = read_u32_le(data, pos + 14);
        self.compressed_size = read_u32_le(data, pos + 18);
        self.uncompressed_size = read_u32_le(data, pos + 22);
        self.file_name_length = read_u16_le(data, pos + 26);
        self.extra_field_length = read_u16_le(data, pos + 28);
        let name_at = pos + LOCAL_FIXED_SIZE;
        let name_len = self.file_name_length as usize;
        if n - name_at < name_len {
            return Err(invalid_archive("file name length is invalid"));
        }
        self.file_name_raw = copy_range(data, name_at, name_len);
        let extra_at = name_at + name_len;
        let extra_len = self.extra_field_length as usize;
        if n - extra_at < extra_len {
            return Err(invalid_archive("extra field length is invalid"));
        }
        self.extra_field = copy_range(data, extra_at, extra_len);
        let payload_at = extra_at + extra_len;
        if ((n - payload_at) as u64) < self.compressed_size as u64 {
            return Err(invalid_archive("compressed size is invalid"));
        }
        let payload_len = self.compressed_size as usize;
        self.compressed_data = copy_range(data, payload_at, payload_len);
        if self.has_data_descriptor_by_flag() {
            let descriptor = ZipDataDescriptor::from_reader(data, payload_at + payload_len)?;
            self.data_descriptor = Some(descriptor);
        }
        Ok(())
    }

    /// Sets bit 11 of the general purpose flags: name is UTF-8.
    pub fn set_utf8_encoded_flag(&mut self)
        ensures
            *final(self) == (ZipLocalFileHeader {
                general_purpose_flags: old(self).general_purpose_flags | UTF8_FLAG_BIT,
                ..*old(self)
            }),
    {
        self.general_purpose_flags = self.general_purpose_flags | UTF8_FLAG_BIT;
    }

    /// Replaces the file name, keeping its length field in step.
    pub fn set_file_name_from_slice(&mut self, name: &Vec<u8>)
        requires
            name@.len() <= u16::MAX,
        ensures
            final(self).file_name_raw@ == name@,
            final(self).file_name_length == name@.len(),
            (ZipLocalFileHeader {
                file_name_raw: final(self).file_name_raw,
                file_name_length: final(self).file_name_length,
                ..*old(self)
            }) == *final(self),
    {
        self.file_name_length = name.len() as u16;
        self.file_name_raw = name.clone();
    }

    /// Whether bit 3 announces a data descriptor after the payload.
    fn has_data_descriptor_by_flag(&self) -> (r: bool)
        ensures
            r == has_descriptor_flag(self.general_purpose_flags),
    {
        self.general_purpose_flags & DATA_DESCRIPTOR_EXISTS_FLAG_BIT != 0
    }

    /// Checks the signature at the position `cd` records and reads the
    /// local file header there, with its payload and data descriptor.
    pub fn from_central_directory(data: &[u8], cd: &ZipCDEntry) -> (r: Result<Self, ZipReadError>)
        ensures
            r is Ok <==> local_header_failure(data@, cd.local_header_position as int) is None,
            r matches Err(e) ==> Some(e.spec_kind()) == local_header_failure(
                data@,
                cd.local_header_position as int,
            ),
            r matches Ok(h) ==> h.wf() && h.parsed_from(data@, cd.local_header_position as int),
    {
        let pos = cd.local_header_position as usize;
        let n = data.len();
        if pos > n || n - pos < 4 {
            return Err(unexpected_end());
        }
        if read_u32_le(data, pos) != LOCAL_FILE_SIGNATURE {
            return Err(invalid_archive("assumed local file header signature doesn't appear"));
        }
        let mut ret = Self::empty();
        ret.read_without_signature(data, pos)?;
        Ok(ret)
    }

    /// Appends the header, payload and descriptor to `out` and returns the
    /// number of bytes written.
    pub fn write(&self, out: &mut Vec<u8>) -> (r: u64)
        ensures
            final(out)@ == old(out)@ + self.spec_bytes(),
            r == self.spec_size(),
    {
        let mut bytes_written = 30 + self.file_name_length as u64 + self.extra_field_length as u64
            + self.compressed_size as u64;
        push_u32_le(out, LOCAL_FILE_SIGNATURE);
        push_u16_le(out, self.version_required_to_extract);
        push_u16_le(out, self.general_purpose_flags);
        push_u16_le(out, self.compression_method);
        push_u16_le(out, self.last_mod_time);
        push_u16_le(out, self.last_mod_date);
        push_u32_le(out, self.crc32);
        push_u32_le(out, self.compressed_size);
        push_u32_le(out, self.uncompressed_size);
        push_u16_le(out, self.file_name_length);
        push_u16_le(out, self.extra_field_length);
        push_bytes(out, self.file_name_raw.as_slice());
        push_bytes(out, self.extra_field.as_slice());
        push_bytes(out, self.compressed_data.as_slice());
        if let Some(descriptor) = &self.data_descriptor {
            bytes_written = bytes_written + descriptor.write(out);
        }
        assert(final(out)@ =~= old(out)@ + self.spec_bytes());
        bytes_written
    }
}

} // verus!
