//! The archive model: loading, diagnosis, renaming and rewriting.
use vstd::prelude::*;
use vstd::utf8::{encode_utf8, encode_utf8_decode_utf8, encode_utf8_valid_utf8};
use crate::filename_decoder::{
    all_ascii, decide_decoder, first_fitting_decoder, hfs_nfc_of, opt_index, ASCIIDecoder,
    IDecoder, UTF8NFCDecoder,
};
use crate::text::{
    decimal_of, push_decimal, push_str, string_from_chars, utf8_bytes, utf8_decode_lossy,
    utf8_text_of,
};
use crate::zip_central_directory::UTF8_FLAG_BIT;
use crate::le_bytes::{
    lemma_concat_subranges, lemma_u16_round_trip, lemma_u32_round_trip, u16_le_bytes, u32_le_bytes,
};
use crate::zip_local_file_header::{
    has_descriptor_flag, local_body_size, local_header_failure, ZipLocalFileHeader,
    DATA_DESCRIPTOR_SIZE, LOCAL_FILE_SIGNATURE,
};
use crate::zip_central_directory::{
    cd_entry_encrypted, cd_entry_failure, cd_entry_offset, cd_entry_size, cd_entry_well_formed,
    cd_table_failure, lemma_cd_entry_bytes, lemma_encrypted_entry_rejected, ZipCDEntry,
};
use crate::zip_eocd::{eocd_at, first_eocd_at, lemma_eocd_bytes, ZipEOCD};
use crate::zip_error::{unsupported_archive, ZipReadError, ZipReadErrorKind};
use vstd::pervasive::VecAdditionalExecFns;
use crate::le_bytes::{le_u16_at, le_u32_at};

verus! {

/// A file name as listed to a user.
#[derive(Clone, Debug)]
pub struct FileNameEntry {
    /// File name (or path).
    pub name: String,
    /// How the name is encoded.
    pub encoding_type: FileNameEncodingType,
}

/// How one file name is encoded.
#[derive(Clone, Copy, Debug, PartialEq, Eq, Structural)]
pub enum FileNameEncodingType {
    /// Bit 11 set and the name is in NFC: readable everywhere.
    ExplicitRegularUTF8,
    /// Bit 11 set but the name is not in NFC (HFS+-style decomposition).
    ExplicitIrregularUTF8,
    /// Bit 11 clear and the name is ASCII: readable everywhere.
    ImplicitASCII,
    /// Bit 11 clear and the name is not ASCII.
    ImplicitNonASCII,
}

impl FileNameEncodingType {
    pub open spec fn spec_is_universal(&self) -> bool {
        *self == FileNameEncodingType::ExplicitRegularUTF8 || *self
            == FileNameEncodingType::ImplicitASCII
    }

    /// `true` if almost every device decodes such a name correctly.
    pub fn is_universal(&self) -> (r: bool)
        ensures
            r == self.spec_is_universal(),
    {
        match self {
            FileNameEncodingType::ExplicitRegularUTF8 | FileNameEncodingType::ImplicitASCII => true,
            _ => false,
        }
    }
}

/// Result of examining every file name of an archive.
#[derive(Clone, Copy, Debug, PartialEq, Eq, Structural)]
pub struct FileNamesDiagnosis {
    /// Some name without bit 11 is not ASCII.
    pub has_implicit_non_ascii_names: bool,
    /// Some name with bit 11 is not in NFC.
    pub has_non_nfc_explicit_utf8_names: bool,
}

impl FileNamesDiagnosis {
    /// The main sentence describing the diagnosis.
    pub fn get_status_primary_message(&self) -> (r: &'static str)
        ensures
            r@ == (match (self.has_implicit_non_ascii_names, self.has_non_nfc_explicit_utf8_names) {
                (false, false) => "All file names are encoded in ASCII or explicitly in UTF-8."@,
                (true, false) => "Some files are encoded implicitly in a multibyte encoding."@,
                (false, true) => "Some file names use irregular unicode normalization."@,
                (true, true) => "Some files use irregular unicode normalization and others are encoded implicitly in a multibyte encoding."@,
            }),
    {
        match (self.has_implicit_non_ascii_names, self.has_non_nfc_explicit_utf8_names) {
            (false, false) => "All file names are encoded in ASCII or explicitly in UTF-8.",
            (true, false) => "Some files are encoded implicitly in a multibyte encoding.",
            (false, true) => "Some file names use irregular unicode normalization.",
            (true, true) => "Some files use irregular unicode normalization and others are encoded implicitly in a multibyte encoding.",
        }
    }

    /// The advice that goes with the main sentence.
    pub fn get_status_note(&self) -> (r: &'static str)
        ensures
            r@ == (match (self.has_implicit_non_ascii_names, self.has_non_nfc_explicit_utf8_names) {
                (false, false) => "Almost all devices can decode its file names correctly."@,
                (true, _) => "Apply this tool, or the receiver may not be able to see the correct file names."@,
                (false, true) => "Apply this tool, or the receiver may not deal with the pericular file name normalization."@,
            }),
    {
        match (self.has_implicit_non_ascii_names, self.has_non_nfc_explicit_utf8_names) {
            (false, false) => "Almost all devices can decode its file names correctly.",
            (true, _) => "Apply this tool, or the receiver may not be able to see the correct file names.",
            (false, true) => "Apply this tool, or the receiver may not deal with the pericular file name normalization.",
        }
    }

    /// `true` if nothing needs repairing.
    pub fn is_universal_archive(&self) -> (r: bool)
        ensures
            r == (!self.has_implicit_non_ascii_names && !self.has_non_nfc_explicit_utf8_names),
    {
        !self.has_implicit_non_ascii_names && !self.has_non_nfc_explicit_utf8_names
    }
}

/// The text of a UTF-8 flagged name, as read with replacement characters.
pub open spec fn explicit_name_text(e: ZipCDEntry) -> Seq<char> {
    utf8_text_of(e.file_name_raw@)
}

/// A UTF-8 flagged name whose NFC composition differs from it.
pub open spec fn is_irregular_explicit_name(e: ZipCDEntry) -> bool {
    e.spec_is_encoded_in_utf8() && hfs_nfc_of(explicit_name_text(e)) != explicit_name_text(e)
}

/// A name without the UTF-8 flag that is not ASCII.
pub open spec fn is_implicit_non_ascii_name(e: ZipCDEntry) -> bool {
    !e.spec_is_encoded_in_utf8() && !all_ascii(e.file_name_raw@)
}

/// Names and comments of all entries, in order: name 0, comment 0, name 1, ...
pub open spec fn name_comment_subjects(entries: Seq<ZipCDEntry>) -> Seq<Seq<u8>> {
    Seq::new(
        2 * entries.len(),
        |k: int|
            if k % 2 == 0 {
                entries[k / 2].file_name_raw@
            } else {
                entries[k / 2].file_comment@
            },
    )
}

/// The text and the encoding type listed for an entry.
pub open spec fn listed_name(e: ZipCDEntry, legacy: IDecoder) -> (Seq<char>, FileNameEncodingType) {
    if e.spec_is_encoded_in_utf8() {
        let text = explicit_name_text(e);
        (
            hfs_nfc_of(text),
            if hfs_nfc_of(text) == text {
                FileNameEncodingType::ExplicitRegularUTF8
            } else {
                FileNameEncodingType::ExplicitIrregularUTF8
            },
        )
    } else if all_ascii(e.file_name_raw@) {
        (IDecoder::ASCII(ASCIIDecoder {  }).spec_lossy(e.file_name_raw@), FileNameEncodingType::ImplicitASCII)
    } else {
        (legacy.spec_lossy(e.file_name_raw@), FileNameEncodingType::ImplicitNonASCII)
    }
}

/// A ZIP archive held in memory, with its End Of Central Directory record
/// and its central directory.
pub struct InputZIPArchive {
    file_handler: Vec<u8>,
    eocd: ZipEOCD,
    cd_entries: Vec<ZipCDEntry>,
}

/// The position of the End Of Central Directory record that loading finds.
pub open spec fn eocd_position(data: Seq<u8>) -> int {
    choose|p: int| first_eocd_at(data, p)
}

/// What loading `data` gives: `None` on success, else the kind of failure.
pub open spec fn load_failure(data: Seq<u8>) -> Option<ZipReadErrorKind> {
    if !(exists|p: int| eocd_at(data, p)) {
        Some(ZipReadErrorKind::InvalidZipArchive)
    } else {
        let p = eocd_position(data);
        cd_table_failure(
            data,
            le_u32_at(data, p + 16) as int,
            0,
            le_u16_at(data, p + 10) as nat,
            p,
        )
    }
}

proof fn lemma_first_eocd_unique(data: Seq<u8>, p: int, q: int)
    requires
        first_eocd_at(data, p),
        first_eocd_at(data, q),
    ensures
        p == q,
{
    if p < q {
        assert(!eocd_at(data, p));
    } else if q < p {
        assert(!eocd_at(data, q));
    }
}

impl InputZIPArchive {
    pub closed spec fn spec_data(&self) -> Seq<u8> {
        self.file_handler@
    }

    pub closed spec fn spec_eocd(&self) -> ZipEOCD {
        self.eocd
    }

    pub closed spec fn spec_entries(&self) -> Seq<ZipCDEntry> {
        self.cd_entries@
    }

    /// The record and the entries keep their length fields in step, and
    /// there are as many entries as the record announces.
    pub open spec fn wf(&self) -> bool {
        &&& self.spec_eocd().wf()
        &&& self.spec_entries().len() == self.spec_eocd().n_cd_entries
        &&& forall|i: int| 0 <= i < self.spec_entries().len() ==> (#[trigger] self.spec_entries()[i]).wf()
    }

    /// The End Of Central Directory record.
    pub fn eocd(&self) -> (r: &ZipEOCD)
        ensures
            *r == self.spec_eocd(),
    {
        &self.eocd
    }

    /// The central directory entries, in order.
    pub fn cd_entries(&self) -> (r: &Vec<ZipCDEntry>)
        ensures
            r@ == self.spec_entries(),
    {
        &self.cd_entries
    }

    /// Loads an archive: finds its End Of Central Directory record and reads
    /// the central directory it points to.
    pub fn new(data: Vec<u8>) -> (r: Result<Self, ZipReadError>)
        ensures
            r is Ok <==> load_failure(data@) is None,
            r matches Err(e) ==> Some(e.spec_kind()) == load_failure(data@),
            r matches Ok(a) ==> {
                let p = eocd_position(data@);
                &&& first_eocd_at(data@, p)
                &&& a.wf()
                &&& a.spec_data() == data@
                &&& a.spec_eocd().parsed_from(data@, p)
                &&& forall|i: int| 0 <= i < a.spec_entries().len() ==> (#[trigger] a.spec_entries()[i]).parsed_from(
                    data@,
                    cd_entry_offset(data@, a.spec_eocd().cd_starting_position as int, i as nat),
                )
            },
    {
        let eocd = match ZipEOCD::from_reader(data.as_slice()) {
            Ok(e) => e,
            Err(e) => {
                return Err(e);
            },
        };
        proof {
            let p = eocd_position(data@);
            assert(first_eocd_at(data@, eocd.starting_position_with_signature as int));
            lemma_first_eocd_unique(data@, p, eocd.starting_position_with_signature as int);
        }
        let cd_entries = match ZipCDEntry::all_from_eocd(data.as_slice(), &eocd) {
            Ok(v) => v,
            Err(e) => {
                return Err(e);
            },
        };
        Ok(InputZIPArchive { file_handler: data, eocd, cd_entries })
    }

    /// Rejects split and ZIP64 archives.
    pub fn check_unsupported_zip_type(&self) -> (r: Result<(), ZipReadError>)
        ensures
            r is Ok <==> self.spec_eocd().spec_is_single_archive() && !self.spec_eocd().spec_is_zip64(),
            r matches Err(e) ==> e.spec_kind() == ZipReadErrorKind::UnsupportedZipArchive,
    {
        self.eocd.check_unsupported_zip_type()
    }

    /// Whether the name of a UTF-8 flagged entry differs from its NFC form.
    fn is_irregular_explicit(cd: &ZipCDEntry) -> (r: bool)
        requires
            cd.spec_is_encoded_in_utf8(),
        ensures
            r == is_irregular_explicit_name(*cd),
    {
        let text = utf8_decode_lossy(cd.file_name_raw.as_slice());
        let nfc = UTF8NFCDecoder {  }.to_string_lossy(cd.file_name_raw.as_slice());
        !(text == nfc)
    }

    /// Examines every file name: implicit non-ASCII names, and UTF-8 flagged
    /// names that are not in NFC.
    pub fn diagnose_file_name_encoding(&self) -> (r: FileNamesDiagnosis)
        ensures
            r.has_implicit_non_ascii_names == exists|i: int|
                0 <= i < self.spec_entries().len() && is_implicit_non_ascii_name(
                    #[trigger] self.spec_entries()[i],
                ),
            r.has_non_nfc_explicit_utf8_names == exists|i: int|
                0 <= i < self.spec_entries().len() && is_irregular_explicit_name(
                    #[trigger] self.spec_entries()[i],
                ),
    {
        let ascii = ASCIIDecoder {  };
        let mut implicit = false;
        let mut irregular = false;
        let mut i: usize = 0;
        while i < self.cd_entries.len()
            invariant
                i <= self.cd_entries@.len(),
                implicit == exists|j: int| 0 <= j < i && is_implicit_non_ascii_name(#[trigger] self.cd_entries@[j]),
                irregular == exists|j: int| 0 <= j < i && is_irregular_explicit_name(#[trigger] self.cd_entries@[j]),
            decreases self.cd_entries@.len() - i,
        {
            let cd = &self.cd_entries[i];
            if cd.is_encoded_in_utf8() {
                if InputZIPArchive::is_irregular_explicit(cd) {
                    irregular = true;
                }
            } else if !ascii.can_decode(cd.file_name_raw.as_slice()) {
                implicit = true;
            }
            i = i + 1;
        }
        assert(self.spec_entries() == self.cd_entries@);
        assert(implicit == exists|j: int| 0 <= j < self.spec_entries().len() && is_implicit_non_ascii_name(#[trigger] self.spec_entries()[j]));
        assert(irregular == exists|j: int| 0 <= j < self.spec_entries().len() && is_irregular_explicit_name(#[trigger] self.spec_entries()[j]));
        FileNamesDiagnosis {
            has_implicit_non_ascii_names: implicit,
            has_non_nfc_explicit_utf8_names: irregular,
        }
    }

    /// The names and comments of all entries, in order.
    fn name_comment_list(&self) -> (r: Vec<Vec<u8>>)
        ensures
            r@.map_values(|s: Vec<u8>| s@) == name_comment_subjects(self.spec_entries()),
    {
        let mut r: Vec<Vec<u8>> = Vec::new();
        let mut i: usize = 0;
        while i < self.cd_entries.len()
            invariant
                i <= self.cd_entries@.len(),
                r@.len() == 2 * i,
                forall|k: int| 0 <= k < 2 * i ==> (#[trigger] r@[k])@ == name_comment_subjects(self.cd_entries@)[k],
            decreases self.cd_entries@.len() - i,
        {
            r.push(self.cd_entries[i].file_name_raw.clone());
            r.push(self.cd_entries[i].file_comment.clone());
            i = i + 1;
        }
        assert(r@.map_values(|s: Vec<u8>| s@) =~= name_comment_subjects(self.spec_entries()));
        r
    }

    /// The index of the first decoder that decodes every name and comment
    /// of the archive without substitution; `None` if none does.
    pub fn get_filename_decoder_index(&self, decoders_list: &[IDecoder]) -> (r: Option<usize>)
        ensures
            opt_index(r) == first_fitting_decoder(
                decoders_list@,
                name_comment_subjects(self.spec_entries()),
                0,
            ),
    {
        let subjects = self.name_comment_list();
        decide_decoder(decoders_list, subjects.as_slice())
    }

    /// The file names for listing, with how each one is encoded.
    /// `legacy_decoder` decodes the names that are not ASCII and lack the
    /// UTF-8 flag.
    pub fn get_file_names_list(&self, legacy_decoder: &IDecoder) -> (r: Vec<FileNameEntry>)
        ensures
            r@.len() == self.spec_entries().len(),
            forall|i: int|
                0 <= i < r@.len() ==> ((#[trigger] r@[i]).name@, r@[i].encoding_type) == listed_name(
                    self.spec_entries()[i],
                    *legacy_decoder,
                ),
    {
        let ascii = ASCIIDecoder {  };
        let mut r: Vec<FileNameEntry> = Vec::new();
        let mut i: usize = 0;
        while i < self.cd_entries.len()
            invariant
                i <= self.cd_entries@.len(),
                r@.len() == i,
                forall|j: int|
                    0 <= j < i ==> ((#[trigger] r@[j]).name@, r@[j].encoding_type) == listed_name(
                        self.cd_entries@[j],
                        *legacy_decoder,
                    ),
            decreases self.cd_entries@.len() - i,
        {
            let cd = &self.cd_entries[i];
            let entry = if cd.is_encoded_in_utf8() {
                let text = utf8_decode_lossy(cd.file_name_raw.as_slice());
                let nfc = UTF8NFCDecoder {  }.to_string_lossy(cd.file_name_raw.as_slice());
                let encoding_type = if text == nfc {
                    FileNameEncodingType::ExplicitRegularUTF8
                } else {
                    FileNameEncodingType::ExplicitIrregularUTF8
                };
                FileNameEntry { name: nfc, encoding_type }
            } else if let Some(name) = ascii.to_string_lossless(cd.file_name_raw.as_slice()) {
                FileNameEntry { name, encoding_type: FileNameEncodingType::ImplicitASCII }
            } else {
                FileNameEntry {
                    name: legacy_decoder.to_string_lossy(cd.file_name_raw.as_slice()),
                    encoding_type: FileNameEncodingType::ImplicitNonASCII,
                }
            };
            r.push(entry);
            i = i + 1;
        }
        r
    }

    /// Re-encodes the names and comments of the central directory in UTF-8.
    ///
    /// Entries without the UTF-8 flag are decoded with `legacy_decoder`
    /// (substituting where needed), written back as UTF-8 and flagged.
    /// Flagged entries whose name is not in NFC get the NFC form. Fails,
    /// without touching that entry, when a new name or comment would not fit
    /// in its 16-bit length field.
    pub fn convert_central_directory_file_names(&mut self, legacy_decoder: &IDecoder) -> (r: Result<
        (),
        ZipReadError,
    >)
        requires
            old(self).wf(),
        ensures
            final(self).wf(),
            final(self).spec_data() == old(self).spec_data(),
            final(self).spec_eocd() == old(self).spec_eocd(),
            final(self).spec_entries().len() == old(self).spec_entries().len(),
            r is Ok <==> forall|i: int|
                0 <= i < old(self).spec_entries().len() ==> conversion_fits(
                    #[trigger] old(self).spec_entries()[i],
                    *legacy_decoder,
                ),
            r is Ok ==> forall|i: int|
                0 <= i < old(self).spec_entries().len() ==> converted_entry(
                    #[trigger] final(self).spec_entries()[i],
                    old(self).spec_entries()[i],
                    *legacy_decoder,
                ),
            r matches Err(e) ==> e.spec_kind() == ZipReadErrorKind::UnsupportedZipArchive,
    {
        let mut i: usize = 0;
        while i < self.cd_entries.len()
            invariant
                self.wf(),
                self.spec_data() == old(self).spec_data(),
                self.spec_eocd() == old(self).spec_eocd(),
                i <= self.cd_entries@.len(),
                self.cd_entries@.len() == old(self).cd_entries@.len(),
                forall|j: int|
                    0 <= j < i ==> conversion_fits(#[trigger] old(self).cd_entries@[j], *legacy_decoder)
                        && converted_entry(self.cd_entries@[j], old(self).cd_entries@[j], *legacy_decoder),
                forall|j: int| i <= j < self.cd_entries@.len() ==> #[trigger] self.cd_entries@[j] == old(self).cd_entries@[j],
            decreases self.cd_entries@.len() - i,
        {
            let mut entry = ZipCDEntry::empty();
            self.cd_entries.set_and_swap(i, &mut entry);
            let fits = convert_entry(&mut entry, legacy_decoder);
            self.cd_entries.set_and_swap(i, &mut entry);
            if !fits {
                assert(!conversion_fits(old(self).spec_entries()[i as int], *legacy_decoder));
                return Err(unsupported_archive("a converted file name or comment is too long"));
            }
            i = i + 1;
        }
        Ok(())
    }
}

/// The text the first conversion gives the name of `e`.
pub open spec fn converted_name_text(e: ZipCDEntry, legacy: IDecoder) -> Seq<char> {
    if e.spec_is_encoded_in_utf8() {
        hfs_nfc_of(explicit_name_text(e))
    } else {
        legacy.spec_lossy(e.file_name_raw@)
    }
}

/// The new name and comment of `e` fit their 16-bit length fields.
pub open spec fn conversion_fits(e: ZipCDEntry, legacy: IDecoder) -> bool {
    if e.spec_is_encoded_in_utf8() {
        is_irregular_explicit_name(e) ==> encode_utf8(hfs_nfc_of(explicit_name_text(e))).len()
            <= u16::MAX
    } else {
        &&& encode_utf8(legacy.spec_lossy(e.file_name_raw@)).len() <= u16::MAX
        &&& encode_utf8(legacy.spec_lossy(e.file_comment@)).len() <= u16::MAX
    }
}

/// `new` is what converting `old` with `legacy` gives.
pub open spec fn converted_entry(new: ZipCDEntry, old: ZipCDEntry, legacy: IDecoder) -> bool {
    if old.spec_is_encoded_in_utf8() {
        if is_irregular_explicit_name(old) {
            &&& new.file_name_raw@ == encode_utf8(hfs_nfc_of(explicit_name_text(old)))
            &&& new.file_name_length == new.file_name_raw@.len()
            &&& new == (ZipCDEntry {
                file_name_raw: new.file_name_raw,
                file_name_length: new.file_name_length,
                ..old
            })
        } else {
            new == old
        }
    } else {
        &&& new.file_name_raw@ == encode_utf8(legacy.spec_lossy(old.file_name_raw@))
        &&& new.file_name_length == new.file_name_raw@.len()
        &&& new.file_comment@ == encode_utf8(legacy.spec_lossy(old.file_comment@))
        &&& new.file_comment_length == new.file_comment@.len()
        &&& new == (ZipCDEntry {
            file_name_raw: new.file_name_raw,
            file_name_length: new.file_name_length,
            file_comment: new.file_comment,
            file_comment_length: new.file_comment_length,
            general_purpose_flags: old.general_purpose_flags | UTF8_FLAG_BIT,
            ..old
        })
    }
}

/// Converts one entry; returns `false`, leaving it as it was, when the new
/// name or comment would not fit.
fn convert_entry(cd: &mut ZipCDEntry, legacy_decoder: &IDecoder) -> (r: bool)
    requires
        old(cd).wf(),
    ensures
        final(cd).wf(),
        r == conversion_fits(*old(cd), *legacy_decoder),
        r ==> converted_entry(*final(cd), *old(cd), *legacy_decoder),
        !r ==> *final(cd) == *old(cd),
{
    if cd.is_encoded_in_utf8() {
        let text = utf8_decode_lossy(cd.file_name_raw.as_slice());
        let nfc = UTF8NFCDecoder {  }.to_string_lossy(cd.file_name_raw.as_slice());
        if !(text == nfc) {
            let name = utf8_bytes(&nfc);
            if name.len() > 65535 {
                return false;
            }
            cd.set_file_name_from_slice(&name);
        }
        return true;
    }
    let name = utf8_bytes(&legacy_decoder.to_string_lossy(cd.file_name_raw.as_slice()));
    let comment = utf8_bytes(&legacy_decoder.to_string_lossy(cd.file_comment.as_slice()));
    if name.len() > 65535 || comment.len() > 65535 {
        return false;
    }
    cd.set_file_name_from_slice(&name);
    cd.set_file_coment_from_slice(&comment);
    cd.set_utf8_encoded_flag();
    true
}

/// The local file header of `cd` as it is written out: read from `data` at
/// the position `cd` records, with the central directory's name when the
/// name lengths differ, and the UTF-8 flag when `cd` has it.
#[verifier::opaque]
pub open spec fn rewritten_local_header(data: Seq<u8>, cd: ZipCDEntry) -> Seq<u8> {
    let p = cd.local_header_position as int;
    let flags = le_u16_at(data, p + 6);
    let name_length = le_u16_at(data, p + 26);
    let extra_length = le_u16_at(data, p + 28);
    let compressed_size = le_u32_at(data, p + 18);
    let name_at = p + 30;
    let extra_at = name_at + name_length;
    let payload_end = extra_at + extra_length + compressed_size;
    let renamed = name_length != cd.file_name_length;
    let new_flags = if cd.spec_is_encoded_in_utf8() {
        flags | UTF8_FLAG_BIT
    } else {
        flags
    };
    u32_le_bytes(LOCAL_FILE_SIGNATURE) + u16_le_bytes(le_u16_at(data, p + 4)) + u16_le_bytes(
        new_flags,
    ) + u16_le_bytes(le_u16_at(data, p + 8)) + u16_le_bytes(le_u16_at(data, p + 10))
        + u16_le_bytes(le_u16_at(data, p + 12)) + u32_le_bytes(le_u32_at(data, p + 14))
        + u32_le_bytes(compressed_size) + u32_le_bytes(le_u32_at(data, p + 22)) + u16_le_bytes(
        if renamed {
            cd.file_name_length
        } else {
            name_length
        },
    ) + u16_le_bytes(extra_length) + (if renamed {
        cd.file_name_raw@
    } else {
        data.subrange(name_at, extra_at)
    }) + data.subrange(extra_at, payload_end) + (if has_descriptor_flag(flags) {
        u32_le_bytes(le_u32_at(data, payload_end)) + u32_le_bytes(le_u32_at(data, payload_end + 4))
            + u32_le_bytes(le_u32_at(data, payload_end + 8))
    } else {
        Seq::empty()
    })
}

/// The rewritten local file headers of `cds`, one after the other.
pub open spec fn rewritten_local_headers(data: Seq<u8>, cds: Seq<ZipCDEntry>) -> Seq<u8>
    decreases cds.len(),
{
    if cds.len() == 0 {
        Seq::empty()
    } else {
        rewritten_local_headers(data, cds.drop_last()) + rewritten_local_header(data, cds.last())
    }
}

/// Where the rewritten local file header of entry `i` starts.
pub open spec fn rewritten_offset(data: Seq<u8>, cds: Seq<ZipCDEntry>, i: int) -> int {
    rewritten_local_headers(data, cds.subrange(0, i)).len() as int
}

/// Entry `i` pointing at its rewritten local file header.
pub open spec fn relocated_entry(data: Seq<u8>, cds: Seq<ZipCDEntry>, i: int) -> ZipCDEntry {
    ZipCDEntry { local_header_position: rewritten_offset(data, cds, i) as u32, ..cds[i] }
}

/// The central directory entries, one after the other.
#[verifier::opaque]
pub open spec fn cd_entries_bytes(cds: Seq<ZipCDEntry>) -> Seq<u8>
    decreases cds.len(),
{
    if cds.len() == 0 {
        Seq::empty()
    } else {
        cd_entries_bytes(cds.drop_last()) + cds.last().spec_bytes()
    }
}

/// All entries pointing at their rewritten local file headers.
pub open spec fn relocated_entries(data: Seq<u8>, cds: Seq<ZipCDEntry>) -> Seq<ZipCDEntry> {
    Seq::new(cds.len(), |i: int| relocated_entry(data, cds, i))
}

/// The record pointing at the rewritten central directory.
pub open spec fn relocated_eocd(data: Seq<u8>, cds: Seq<ZipCDEntry>, eocd: ZipEOCD) -> ZipEOCD {
    ZipEOCD {
        cd_starting_position: rewritten_local_headers(data, cds).len() as u32,
        cd_size: cd_entries_bytes(relocated_entries(data, cds)).len() as u32,
        ..eocd
    }
}

/// Every local file header can be read, and every offset and size of the
/// output fits in 32 bits.
pub open spec fn rewrite_possible(data: Seq<u8>, cds: Seq<ZipCDEntry>) -> bool {
    &&& forall|i: int|
        0 <= i < cds.len() ==> local_header_failure(
            data,
            (#[trigger] cds[i]).local_header_position as int,
        ) is None
    &&& forall|i: int| 0 <= i <= cds.len() ==> #[trigger] rewritten_offset(data, cds, i) <= u32::MAX
    &&& cd_entries_bytes(relocated_entries(data, cds)).len() <= u32::MAX
}

/// The whole rewritten archive.
pub open spec fn rewritten_archive(data: Seq<u8>, cds: Seq<ZipCDEntry>, eocd: ZipEOCD) -> Seq<u8> {
    rewritten_local_headers(data, cds) + cd_entries_bytes(relocated_entries(data, cds))
        + relocated_eocd(data, cds, eocd).spec_bytes()
}

/// Reads the local file header of `cd` and adjusts it as it is written out.
#[verifier::spinoff_prover]
#[verifier::rlimit(100)]
fn rewrite_local_header(data: &[u8], cd: &ZipCDEntry) -> (r: Result<ZipLocalFileHeader, ZipReadError>)
    requires
        cd.wf(),
    ensures
        r is Ok <==> local_header_failure(data@, cd.local_header_position as int) is None,
        r matches Err(e) ==> Some(e.spec_kind()) == local_header_failure(
            data@,
            cd.local_header_position as int,
        ),
        r matches Ok(h) ==> h.wf() && h.spec_bytes() == rewritten_local_header(data@, *cd)
            && h.spec_size() == h.spec_bytes().len(),
{
    let mut header = match ZipLocalFileHeader::from_central_directory(data, cd) {
        Ok(h) => h,
        Err(e) => {
            return Err(e);
        },
    };
    let ghost parsed = header;
    if header.file_name_length != cd.file_name_length {
        header.set_file_name_from_slice(&cd.file_name_raw);
    }
    if cd.is_encoded_in_utf8() {
        header.set_utf8_encoded_flag();
    }
    proof {
        reveal(rewritten_local_header);
        let p = cd.local_header_position as int;
        let name_at = p + 30;
        let extra_at = name_at + parsed.file_name_length;
        let payload_at = extra_at + parsed.extra_field_length;
        let payload_end = payload_at + parsed.compressed_size;
        assert(parsed.extra_field@ + parsed.compressed_data@ =~= data@.subrange(extra_at, payload_end));
        assert(header.descriptor_bytes() == (if has_descriptor_flag(parsed.general_purpose_flags) {
            u32_le_bytes(le_u32_at(data@, payload_end)) + u32_le_bytes(le_u32_at(data@, payload_end + 4))
                + u32_le_bytes(le_u32_at(data@, payload_end + 8))
        } else {
            Seq::empty()
        }));
        assert(header.spec_bytes() =~= rewritten_local_header(data@, *cd));
    }
    Ok(header)
}

pub(crate) proof fn lemma_headers_step(data: Seq<u8>, cds: Seq<ZipCDEntry>, i: int)
    requires
        0 <= i < cds.len(),
    ensures
        rewritten_local_headers(data, cds.subrange(0, i + 1)) == rewritten_local_headers(
            data,
            cds.subrange(0, i),
        ) + rewritten_local_header(data, cds[i]),
{
    assert(cds.subrange(0, i + 1).drop_last() =~= cds.subrange(0, i));
}

pub(crate) proof fn lemma_cd_bytes_step(cds: Seq<ZipCDEntry>, i: int)
    requires
        0 <= i < cds.len(),
    ensures
        cd_entries_bytes(cds.subrange(0, i + 1)) == cd_entries_bytes(cds.subrange(0, i))
            + cds[i].spec_bytes(),
{
    reveal(cd_entries_bytes);
    assert(cds.subrange(0, i + 1).drop_last() =~= cds.subrange(0, i));
}

impl InputZIPArchive {
    /// Writes the archive to `dest`: each entry's local file header (read
    /// from the input data, renamed when its name length differs from the
    /// central directory's, flagged UTF-8 when the entry is) with its
    /// payload, then the central directory pointing at the new positions,
    /// then the End Of Central Directory record pointing at it.
    pub fn output_archive_with_central_directory_file_names(&mut self, dest: &mut Vec<u8>) -> (r:
        Result<(), ZipReadError>)
        requires
            old(self).wf(),
        ensures
            final(self).wf(),
            final(self).spec_data() == old(self).spec_data(),
            r is Ok <==> rewrite_possible(old(self).spec_data(), old(self).spec_entries()),
            r is Ok ==> final(dest)@ == old(dest)@ + rewritten_archive(
                old(self).spec_data(),
                old(self).spec_entries(),
                old(self).spec_eocd(),
            ),
            r is Ok ==> final(self).spec_entries() == relocated_entries(
                old(self).spec_data(),
                old(self).spec_entries(),
            ),
            r is Ok ==> final(self).spec_eocd() == relocated_eocd(
                old(self).spec_data(),
                old(self).spec_entries(),
                old(self).spec_eocd(),
            ),
            r matches Err(e) ==> e.spec_kind() == ZipReadErrorKind::UnsupportedZipArchive || exists|i: int|
                0 <= i < old(self).spec_entries().len() && Some(e.spec_kind()) == local_header_failure(
                    old(self).spec_data(),
                    (#[trigger] old(self).spec_entries()[i]).local_header_position as int,
                ),
    {
        let ghost data = self.file_handler@;
        let ghost cds = self.cd_entries@;
        let mut pos: u64 = 0;
        let mut i: usize = 0;
        while i < self.cd_entries.len()
            invariant
                self.wf(),
                self.file_handler@ == data,
                self.eocd == old(self).eocd,
                data == old(self).spec_data(),
                cds == old(self).spec_entries(),
                self.cd_entries@.len() == cds.len(),
                i <= cds.len(),
                pos == rewritten_offset(data, cds, i as int),
                dest@ == old(dest)@ + rewritten_local_headers(data, cds.subrange(0, i as int)),
                forall|j: int| 0 <= j < i ==> #[trigger] self.cd_entries@[j] == relocated_entry(data, cds, j),
                forall|j: int| i <= j < cds.len() ==> #[trigger] self.cd_entries@[j] == cds[j],
                forall|j: int| 0 <= j < i ==> local_header_failure(data, (#[trigger] cds[j]).local_header_position as int) is None,
                forall|j: int| 0 <= j < i ==> #[trigger] rewritten_offset(data, cds, j) <= u32::MAX,
            decreases cds.len() - i,
        {
            if pos > 0xFFFF_FFFF {
                assert(rewritten_offset(data, cds, i as int) > u32::MAX);
                return Err(unsupported_archive("the rewritten archive needs ZIP64"));
            }
            let mut entry = ZipCDEntry::empty();
            self.cd_entries.set_and_swap(i, &mut entry);
            let header = match rewrite_local_header(self.file_handler.as_slice(), &entry) {
                Ok(h) => h,
                Err(e) => {
                    self.cd_entries.set_and_swap(i, &mut entry);
                    return Err(e);
                },
            };
            entry.local_header_position = pos as u32;
            self.cd_entries.set_and_swap(i, &mut entry);
            let written = header.write(dest);
            proof {
                lemma_headers_step(data, cds, i as int);
            }
            pos = pos + written;
            i = i + 1;
        }
        assert(cds.subrange(0, cds.len() as int) =~= cds);
        if pos > 0xFFFF_FFFF {
            return Err(unsupported_archive("the rewritten archive needs ZIP64"));
        }
        self.eocd.cd_starting_position = pos as u32;
        let ghost relocated = self.cd_entries@;
        assert(relocated =~= relocated_entries(data, cds));
        let mut cd_size: u64 = 0;
        let mut k: usize = 0;
        proof {
            reveal(cd_entries_bytes);
            assert(relocated.subrange(0, 0) =~= Seq::<ZipCDEntry>::empty());
        }
        while k < self.cd_entries.len()
            invariant
                self.wf(),
                self.file_handler@ == data,
                self.eocd == (ZipEOCD { cd_starting_position: pos as u32, ..old(self).eocd }),
                pos == rewritten_local_headers(data, cds).len(),
                pos <= u32::MAX,
                self.cd_entries@ == relocated,
                relocated == relocated_entries(data, cds),
                relocated.len() <= u16::MAX,
                k <= relocated.len(),
                cd_size == cd_entries_bytes(relocated.subrange(0, k as int)).len(),
                cd_size <= k * 196651,
                dest@ == old(dest)@ + rewritten_local_headers(data, cds) + cd_entries_bytes(relocated.subrange(0, k as int)),
            decreases relocated.len() - k,
        {
            let written = self.cd_entries[k].write(dest);
            proof {
                lemma_cd_bytes_step(relocated, k as int);
            }
            cd_size = cd_size + written;
            k = k + 1;
        }
        assert(relocated.subrange(0, relocated.len() as int) =~= relocated);
        assert(forall|j: int| 0 <= j <= cds.len() ==> #[trigger] rewritten_offset(data, cds, j) <= u32::MAX);
        if cd_size > 0xFFFF_FFFF {
            return Err(unsupported_archive("the rewritten central directory needs ZIP64"));
        }
        self.eocd.cd_size = cd_size as u32;
        self.eocd.write(dest);
        Ok(())
    }
}

/// How much the repair is needed.
#[derive(Clone, Copy, Debug, PartialEq, Eq, Structural)]
pub enum ZIFURequirement {
    /// Every name is explicitly UTF-8.
    NotRequired,
    /// Names are explicitly UTF-8 or implicitly ASCII: readable everywhere.
    MaybeRequired,
    /// Some name is implicitly encoded and not ASCII.
    Required,
}

/// Counts of how the names of an archive are encoded.
#[derive(Clone, Copy, Debug, PartialEq, Eq, Structural)]
pub enum ZipFileEncodingType {
    /// Every name is explicitly UTF-8.
    AllExplicitUTF8,
    /// Names are explicitly UTF-8 or implicitly ASCII.
    ExplicitUTF8AndASCII { n_utf8: usize, n_ascii: usize },
    /// Every name is implicitly ASCII.
    AllASCII,
    /// Some names are explicitly UTF-8, others implicitly non-ASCII.
    ExplicitUTF8AndLegacy { n_utf8: usize, n_legacy: usize },
    /// No name is explicitly UTF-8 and some are not ASCII.
    AllLegacy,
}

impl ZipFileEncodingType {
    pub open spec fn spec_primary_message(&self) -> Seq<char> {
        match self {
            ZipFileEncodingType::AllExplicitUTF8 => "All file names are explicitly encoded in UTF-8."@,
            ZipFileEncodingType::ExplicitUTF8AndASCII { n_utf8, n_ascii } => decimal_of(
                *n_utf8 as nat,
            ) + " file names are explicitly encoded in UTF-8, and "@ + decimal_of(*n_ascii as nat)
                + " file names are implicitly ASCII."@,
            ZipFileEncodingType::AllASCII => "All file names are implicitly encoded in ASCII."@,
            ZipFileEncodingType::ExplicitUTF8AndLegacy { n_utf8, n_legacy } =>
                "Some file names are not explicitly encoded in UTF-8. ("@ + decimal_of(
                *n_legacy as nat,
            ) + " / "@ + decimal_of((*n_utf8 + *n_legacy) as nat) + ")"@,
            ZipFileEncodingType::AllLegacy => "All file names are not explicitly encoded in UTF-8."@,
        }
    }

    /// The sentence describing the counts.
    pub fn get_status_primary_message(&self) -> (r: String)
        ensures
            r@ == self.spec_primary_message(),
    {
        match self {
            ZipFileEncodingType::AllExplicitUTF8 => "All file names are explicitly encoded in UTF-8.".to_owned(),
            ZipFileEncodingType::ExplicitUTF8AndASCII { n_utf8, n_ascii } => {
                let mut chars: Vec<char> = Vec::new();
                push_decimal(&mut chars, *n_utf8 as u128);
                push_str(&mut chars, " file names are explicitly encoded in UTF-8, and ");
                push_decimal(&mut chars, *n_ascii as u128);
                push_str(&mut chars, " file names are implicitly ASCII.");
                string_from_chars(&chars)
            },
            ZipFileEncodingType::AllASCII => "All file names are implicitly encoded in ASCII.".to_owned(),
            ZipFileEncodingType::ExplicitUTF8AndLegacy { n_utf8, n_legacy } => {
                let mut chars: Vec<char> = Vec::new();
                push_str(&mut chars, "Some file names are not explicitly encoded in UTF-8. (");
                push_decimal(&mut chars, *n_legacy as u128);
                push_str(&mut chars, " / ");
                push_decimal(&mut chars, *n_utf8 as u128 + *n_legacy as u128);
                push_str(&mut chars, ")");
                string_from_chars(&chars)
            },
            ZipFileEncodingType::AllLegacy => "All file names are not explicitly encoded in UTF-8.".to_owned(),
        }
    }

    /// The advice that goes with the sentence, if any.
    pub fn get_status_note(&self) -> (r: Option<&'static str>)
        ensures
            r matches Some(n) ==> n@ == "They can be extracted correctly in all environments without garbling."@,
            r is Some <==> (*self is ExplicitUTF8AndASCII || *self is AllASCII),
    {
        match self {
            ZipFileEncodingType::ExplicitUTF8AndASCII { .. } | ZipFileEncodingType::AllASCII => Some(
                "They can be extracted correctly in all environments without garbling.",
            ),
            _ => None,
        }
    }

    /// `true` if every name is readable everywhere.
    pub fn is_universal_archive(&self) -> (r: bool)
        ensures
            r == (*self is AllExplicitUTF8 || *self is AllASCII || *self is ExplicitUTF8AndASCII),
    {
        match self {
            ZipFileEncodingType::AllExplicitUTF8 | ZipFileEncodingType::AllASCII
            | ZipFileEncodingType::ExplicitUTF8AndASCII { .. } => true,
            _ => false,
        }
    }

    /// How much the repair is needed.
    pub fn is_zifu_required(&self) -> (r: ZIFURequirement)
        ensures
            r == (match self {
                ZipFileEncodingType::AllExplicitUTF8 => ZIFURequirement::NotRequired,
                ZipFileEncodingType::ExplicitUTF8AndASCII { .. } | ZipFileEncodingType::AllASCII =>
                    ZIFURequirement::MaybeRequired,
                _ => ZIFURequirement::Required,
            }),
    {
        match self {
            ZipFileEncodingType::AllExplicitUTF8 => ZIFURequirement::NotRequired,
            ZipFileEncodingType::ExplicitUTF8AndASCII { .. } | ZipFileEncodingType::AllASCII =>
                ZIFURequirement::MaybeRequired,
            _ => ZIFURequirement::Required,
        }
    }
}

/// The number of UTF-8 flagged entries among the first `n`.
pub open spec fn count_utf8(entries: Seq<ZipCDEntry>, n: int) -> nat
    decreases n,
{
    if n <= 0 {
        0
    } else {
        count_utf8(entries, n - 1) + if entries[n - 1].spec_is_encoded_in_utf8() {
            1nat
        } else {
            0nat
        }
    }
}

/// The counts `check_file_name_encoding` reports.
pub open spec fn encoding_counts(entries: Seq<ZipCDEntry>) -> ZipFileEncodingType {
    let n = entries.len();
    let n_utf8 = count_utf8(entries, n as int);
    if n_utf8 == n {
        ZipFileEncodingType::AllExplicitUTF8
    } else if (forall|k: int|
        0 <= k < name_comment_subjects(entries).len() ==> all_ascii(
            #[trigger] name_comment_subjects(entries)[k],
        )) {
        if n_utf8 > 0 {
            ZipFileEncodingType::ExplicitUTF8AndASCII { n_utf8: n_utf8 as usize, n_ascii: (n - n_utf8) as usize }
        } else {
            ZipFileEncodingType::AllASCII
        }
    } else if n_utf8 > 0 {
        ZipFileEncodingType::ExplicitUTF8AndLegacy { n_utf8: n_utf8 as usize, n_legacy: (n - n_utf8) as usize }
    } else {
        ZipFileEncodingType::AllLegacy
    }
}

proof fn lemma_count_utf8_bound(entries: Seq<ZipCDEntry>, n: int)
    requires
        0 <= n <= entries.len(),
    ensures
        count_utf8(entries, n) <= n,
    decreases n,
{
    if n > 0 {
        lemma_count_utf8_bound(entries, n - 1);
    }
}

impl InputZIPArchive {
    /// Counts how the names are encoded: explicitly UTF-8, implicitly ASCII
    /// (names and comments all ASCII), or implicitly in another encoding.
    pub fn check_file_name_encoding(&self) -> (r: ZipFileEncodingType)
        requires
            self.wf(),
        ensures
            r == encoding_counts(self.spec_entries()),
    {
        let mut n_utf8: usize = 0;
        let mut i: usize = 0;
        while i < self.cd_entries.len()
            invariant
                i <= self.cd_entries@.len(),
                n_utf8 == count_utf8(self.cd_entries@, i as int),
                n_utf8 <= i,
            decreases self.cd_entries@.len() - i,
        {
            if self.cd_entries[i].is_encoded_in_utf8() {
                n_utf8 = n_utf8 + 1;
            }
            i = i + 1;
        }
        let n = self.cd_entries.len();
        if n_utf8 == n {
            return ZipFileEncodingType::AllExplicitUTF8;
        }
        let mut decoders: Vec<IDecoder> = Vec::new();
        decoders.push(IDecoder::ascii());
        let all_ascii = self.get_filename_decoder_index(decoders.as_slice()).is_some();
        proof {
            let subjects = name_comment_subjects(self.spec_entries());
            assert(decoders@[0] is ASCII);
            assert(first_fitting_decoder(decoders@, subjects, 1) is None);
        }
        if all_ascii {
            if n_utf8 > 0 {
                return ZipFileEncodingType::ExplicitUTF8AndASCII { n_utf8, n_ascii: n - n_utf8 };
            }
            return ZipFileEncodingType::AllASCII;
        }
        if n_utf8 > 0 {
            return ZipFileEncodingType::ExplicitUTF8AndLegacy { n_utf8, n_legacy: n - n_utf8 };
        }
        ZipFileEncodingType::AllLegacy
    }
}

/// A name written as UTF-8 reads back as the same text.
proof fn lemma_encoded_text(e: ZipCDEntry, text: Seq<char>)
    requires
        e.file_name_raw@ == encode_utf8(text),
    ensures
        explicit_name_text(e) == text,
{
    encode_utf8_valid_utf8(text);
    encode_utf8_decode_utf8(text);
}

/// Converting an entry a second time with the same decoder changes nothing,
/// provided NFC composition leaves the text of the first conversion as it
/// is: after the first conversion the entry is flagged UTF-8 and its name is
/// in NFC, so the second one does not touch it.
pub proof fn lemma_convert_entry_idempotent(
    e0: ZipCDEntry,
    e1: ZipCDEntry,
    e2: ZipCDEntry,
    legacy: IDecoder,
)
    requires
        e0.wf(),
        converted_entry(e1, e0, legacy),
        converted_entry(e2, e1, legacy),
        hfs_nfc_of(converted_name_text(e0, legacy)) == converted_name_text(e0, legacy),
    ensures
        e2 == e1,
        e2.spec_bytes() == e1.spec_bytes(),
        e1.spec_is_encoded_in_utf8(),
{
    let flags = e0.general_purpose_flags;
    assert((flags | 0x0800u16) & 0x0800u16 != 0) by (bit_vector);
    if e0.spec_is_encoded_in_utf8() {
        if is_irregular_explicit_name(e0) {
            lemma_encoded_text(e1, hfs_nfc_of(explicit_name_text(e0)));
        }
    } else {
        lemma_encoded_text(e1, legacy.spec_lossy(e0.file_name_raw@));
    }
}

/// Converting a whole central directory twice with the same decoder gives
/// byte-identical entries the second time, provided NFC composition leaves
/// the text of each first conversion as it is.
pub proof fn lemma_convert_idempotent(
    before: Seq<ZipCDEntry>,
    once: Seq<ZipCDEntry>,
    twice: Seq<ZipCDEntry>,
    legacy: IDecoder,
)
    requires
        once.len() == before.len(),
        twice.len() == once.len(),
        forall|i: int| 0 <= i < before.len() ==> (#[trigger] before[i]).wf(),
        forall|i: int|
            0 <= i < before.len() ==> converted_entry(#[trigger] once[i], before[i], legacy),
        forall|i: int|
            0 <= i < before.len() ==> converted_entry(#[trigger] twice[i], once[i], legacy),
        forall|i: int|
            0 <= i < before.len() ==> hfs_nfc_of(converted_name_text(#[trigger] before[i], legacy))
                == converted_name_text(before[i], legacy),
    ensures
        twice == once,
        cd_entries_bytes(twice) == cd_entries_bytes(once),
{
    assert forall|i: int| 0 <= i < before.len() implies #[trigger] twice[i] == once[i] by {
        lemma_convert_entry_idempotent(before[i], once[i], twice[i], legacy);
    }
    assert(twice =~= once);
}

/// A UTF-8 flagged name stored in a form that NFC composition changes is
/// reported as irregular, and conversion replaces it with the UTF-8 bytes of
/// its NFC form, which read back as that composed text.
pub proof fn lemma_nfc_normalization(
    e: ZipCDEntry,
    converted: ZipCDEntry,
    decomposed: Seq<char>,
    legacy: IDecoder,
)
    requires
        e.wf(),
        e.spec_is_encoded_in_utf8(),
        e.file_name_raw@ == encode_utf8(decomposed),
        hfs_nfc_of(decomposed) != decomposed,
        converted_entry(converted, e, legacy),
    ensures
        is_irregular_explicit_name(e),
        converted.file_name_raw@ == encode_utf8(hfs_nfc_of(decomposed)),
        explicit_name_text(converted) == hfs_nfc_of(decomposed),
        converted.spec_is_encoded_in_utf8(),
        converted.file_comment == e.file_comment,
{
    lemma_encoded_text(e, decomposed);
    lemma_encoded_text(converted, hfs_nfc_of(decomposed));
}

/// Loading an archive whose central directory entries are well formed but
/// one of which is encrypted fails as unsupported, never as invalid, and
/// never succeeds.
pub proof fn lemma_encrypted_archive_rejected(data: Seq<u8>, j: nat)
    requires
        exists|p: int| eocd_at(data, p),
        ({
            let p = eocd_position(data);
            let start = le_u32_at(data, p + 16) as int;
            let n = le_u16_at(data, p + 10) as nat;
            &&& j < n
            &&& forall|k: nat|
                k < n ==> cd_entry_well_formed(data, #[trigger] cd_entry_offset(data, start, k))
            &&& cd_entry_encrypted(data, cd_entry_offset(data, start, j))
        }),
    ensures
        load_failure(data) == Some(ZipReadErrorKind::UnsupportedZipArchive),
{
    let p = eocd_position(data);
    lemma_encrypted_entry_rejected(
        data,
        le_u32_at(data, p + 16) as int,
        0,
        le_u16_at(data, p + 10) as nat,
        p,
        j,
    );
}

} // verus!
