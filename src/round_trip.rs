//! Writing out a loaded archive unchanged gives back its bytes, when they
//! are laid out as a rewrite lays them out.
use vstd::prelude::*;
use crate::archive::{
    cd_entries_bytes, eocd_position, lemma_cd_bytes_step, lemma_headers_step, load_failure,
    relocated_entries, relocated_eocd, rewrite_possible, rewritten_archive, rewritten_local_header,
    rewritten_local_headers, rewritten_offset, InputZIPArchive,
};
use crate::le_bytes::{
    le_u16_at, le_u32_at, lemma_concat_subranges, lemma_u16_round_trip, lemma_u32_round_trip,
    u16_le_bytes, u32_le_bytes,
};
use crate::zip_central_directory::{
    cd_entry_failure, cd_entry_offset, cd_entry_size, cd_table_failure, lemma_cd_entry_bytes,
    ZipCDEntry, UTF8_FLAG_BIT,
};
use crate::zip_eocd::{eocd_at, first_eocd_at, lemma_eocd_bytes, ZipEOCD};
use crate::zip_local_file_header::{
    has_descriptor_flag, local_body_size, local_header_failure, DATA_DESCRIPTOR_SIZE,
    LOCAL_FILE_SIGNATURE,
};

verus! {

/// The bytes a local file header occupies, with its payload and data
/// descriptor.
pub open spec fn local_span(data: Seq<u8>, p: int) -> int {
    local_body_size(data, p) + if has_descriptor_flag(le_u16_at(data, p + 6)) {
        DATA_DESCRIPTOR_SIZE as int
    } else {
        0
    }
}

/// A local file header that needs neither the central directory's name nor
/// the UTF-8 flag is written back as the same bytes.
pub proof fn lemma_local_header_unchanged(data: Seq<u8>, cd: ZipCDEntry)
    requires
        local_header_failure(data, cd.local_header_position as int) is None,
        le_u16_at(data, cd.local_header_position + 26) == cd.file_name_length,
        cd.spec_is_encoded_in_utf8() ==> le_u16_at(data, cd.local_header_position + 6) & UTF8_FLAG_BIT != 0,
    ensures
        rewritten_local_header(data, cd) == data.subrange(
            cd.local_header_position as int,
            cd.local_header_position + local_span(data, cd.local_header_position as int),
        ),
{
    reveal(rewritten_local_header);
    let p = cd.local_header_position as int;
    let flags = le_u16_at(data, p + 6);
    let name_length = le_u16_at(data, p + 26);
    let extra_length = le_u16_at(data, p + 28);
    let compressed_size = le_u32_at(data, p + 18);
    let name_at = p + 30;
    let extra_at = name_at + name_length;
    let payload_end = extra_at + extra_length + compressed_size;
    assert((flags & 0x0800u16 != 0) ==> (flags | 0x0800u16) == flags) by (bit_vector);
    let descriptor = if has_descriptor_flag(flags) {
        u32_le_bytes(le_u32_at(data, payload_end)) + u32_le_bytes(le_u32_at(data, payload_end + 4))
            + u32_le_bytes(le_u32_at(data, payload_end + 8))
    } else {
        Seq::empty()
    };
    let b0 = u32_le_bytes(LOCAL_FILE_SIGNATURE);
    let b1 = u16_le_bytes(le_u16_at(data, p + 4));
    let b2 = u16_le_bytes(flags);
    let b3 = u16_le_bytes(le_u16_at(data, p + 8));
    let b4 = u16_le_bytes(le_u16_at(data, p + 10));
    let b5 = u16_le_bytes(le_u16_at(data, p + 12));
    let b6 = u32_le_bytes(le_u32_at(data, p + 14));
    let b7 = u32_le_bytes(compressed_size);
    let b8 = u32_le_bytes(le_u32_at(data, p + 22));
    let b9 = u16_le_bytes(name_length);
    let b10 = u16_le_bytes(extra_length);
    let b11 = data.subrange(name_at, extra_at);
    let b12 = data.subrange(extra_at, payload_end);
    assert(b0 == data.subrange(p, p + 4)) by {
        lemma_u32_round_trip(data, p);
    }
    assert(b0 + b1 == data.subrange(p, p + 6)) by {
        lemma_u16_round_trip(data, p + 4);
        lemma_concat_subranges(data, p, p + 4, p + 6);
    }
    assert(b0 + b1 + b2 == data.subrange(p, p + 8)) by {
        lemma_u16_round_trip(data, p + 6);
        lemma_concat_subranges(data, p, p + 6, p + 8);
    }
    assert(b0 + b1 + b2 + b3 == data.subrange(p, p + 10)) by {
        lemma_u16_round_trip(data, p + 8);
        lemma_concat_subranges(data, p, p + 8, p + 10);
    }
    assert(b0 + b1 + b2 + b3 + b4 == data.subrange(p, p + 12)) by {
        lemma_u16_round_trip(data, p + 10);
        lemma_concat_subranges(data, p, p + 10, p + 12);
    }
    assert(b0 + b1 + b2 + b3 + b4 + b5 == data.subrange(p, p + 14)) by {
        lemma_u16_round_trip(data, p + 12);
        lemma_concat_subranges(data, p, p + 12, p + 14);
    }
    assert(b0 + b1 + b2 + b3 + b4 + b5 + b6 == data.subrange(p, p + 18)) by {
        lemma_u32_round_trip(data, p + 14);
        lemma_concat_subranges(data, p, p + 14, p + 18);
    }
    assert(b0 + b1 + b2 + b3 + b4 + b5 + b6 + b7 == data.subrange(p, p + 22)) by {
        lemma_u32_round_trip(data, p + 18);
        lemma_concat_subranges(data, p, p + 18, p + 22);
    }
    assert(b0 + b1 + b2 + b3 + b4 + b5 + b6 + b7 + b8 == data.subrange(p, p + 26)) by {
        lemma_u32_round_trip(data, p + 22);
        lemma_concat_subranges(data, p, p + 22, p + 26);
    }
    assert(b0 + b1 + b2 + b3 + b4 + b5 + b6 + b7 + b8 + b9 == data.subrange(p, p + 28)) by {
        lemma_u16_round_trip(data, p + 26);
        lemma_concat_subranges(data, p, p + 26, p + 28);
    }
    assert(b0 + b1 + b2 + b3 + b4 + b5 + b6 + b7 + b8 + b9 + b10 == data.subrange(p, p + 30)) by {
        lemma_u16_round_trip(data, p + 28);
        lemma_concat_subranges(data, p, p + 28, p + 30);
    }
    assert(b0 + b1 + b2 + b3 + b4 + b5 + b6 + b7 + b8 + b9 + b10 + b11 == data.subrange(p, extra_at)) by {
        lemma_concat_subranges(data, p, p + 30, extra_at);
    }
    assert(b0 + b1 + b2 + b3 + b4 + b5 + b6 + b7 + b8 + b9 + b10 + b11 + b12 == data.subrange(p, payload_end)) by {
        lemma_concat_subranges(data, p, extra_at, payload_end);
    }
    assert(rewritten_local_header(data, cd) == b0 + b1 + b2 + b3 + b4 + b5 + b6 + b7 + b8 + b9 + b10 + b11 + b12 + descriptor);
    if has_descriptor_flag(flags) {
        lemma_u32_round_trip(data, payload_end);
        lemma_u32_round_trip(data, payload_end + 4);
        lemma_u32_round_trip(data, payload_end + 8);
        lemma_concat_subranges(data, payload_end, payload_end + 4, payload_end + 8);
        lemma_concat_subranges(data, payload_end, payload_end + 8, payload_end + 12);
        assert(descriptor == data.subrange(payload_end, payload_end + 12));
        lemma_concat_subranges(data, p, payload_end, payload_end + 12);
    } else {
        assert(b0 + b1 + b2 + b3 + b4 + b5 + b6 + b7 + b8 + b9 + b10 + b11 + b12 + descriptor =~= b0 + b1 + b2 + b3 + b4 + b5 + b6 + b7 + b8 + b9 + b10 + b11 + b12);
    }
}

/// Where the first `i` local file headers end when they are laid out back
/// to back from the start of the data.
pub open spec fn packed_local_end(data: Seq<u8>, cds: Seq<ZipCDEntry>, i: int) -> int
    decreases i,
{
    if i <= 0 {
        0
    } else {
        packed_local_end(data, cds, i - 1) + local_span(
            data,
            cds[i - 1].local_header_position as int,
        )
    }
}

/// The archive is laid out as a rewrite would lay it out: local file headers
/// back to back from the start, in central directory order, each with the
/// central directory's name length and, for UTF-8 entries, the UTF-8 flag;
/// the central directory right after them.
pub open spec fn canonical_layout(data: Seq<u8>, cds: Seq<ZipCDEntry>, eocd: ZipEOCD) -> bool {
    &&& forall|i: int|
        0 <= i < cds.len() ==> local_header_failure(
            data,
            (#[trigger] cds[i]).local_header_position as int,
        ) is None
    &&& forall|i: int|
        0 <= i < cds.len() ==> le_u16_at(data, (#[trigger] cds[i]).local_header_position + 26)
            == cds[i].file_name_length
    &&& forall|i: int|
        0 <= i < cds.len() ==> ((#[trigger] cds[i]).spec_is_encoded_in_utf8() ==> le_u16_at(
            data,
            cds[i].local_header_position + 6,
        ) & UTF8_FLAG_BIT != 0)
    &&& forall|i: int|
        0 <= i < cds.len() ==> (#[trigger] cds[i]).local_header_position == packed_local_end(
            data,
            cds,
            i,
        )
    &&& eocd.cd_starting_position == packed_local_end(data, cds, cds.len() as int)
    &&& eocd.cd_size == eocd.starting_position_with_signature - eocd.cd_starting_position
}

#[verifier::spinoff_prover]
#[verifier::rlimit(100)]
proof fn lemma_packed_headers(data: Seq<u8>, cds: Seq<ZipCDEntry>, eocd: ZipEOCD, i: int)
    requires
        0 <= i <= cds.len(),
        canonical_layout(data, cds, eocd),
    ensures
        0 <= packed_local_end(data, cds, i) <= data.len(),
        rewritten_local_headers(data, cds.subrange(0, i)) == data.subrange(
            0,
            packed_local_end(data, cds, i),
        ),
    decreases i,
{
    if i == 0 {
        assert(cds.subrange(0, 0) =~= Seq::<ZipCDEntry>::empty());
        assert(data.subrange(0, 0) =~= Seq::<u8>::empty());
    } else {
        lemma_packed_headers(data, cds, eocd, i - 1);
        let cd = cds[i - 1];
        let p = cd.local_header_position as int;
        assert(local_header_failure(data, p) is None);
        lemma_local_header_unchanged(data, cd);
        lemma_headers_step(data, cds, i - 1);
        lemma_concat_subranges(data, 0, p, p + local_span(data, p));
    }
}

proof fn lemma_table_entries_ok(data: Seq<u8>, start: int, i: nat, n: nat, end: int)
    requires
        cd_table_failure(data, start, i, n, end) is None,
        i <= n,
    ensures
        forall|k: nat| i <= k < n ==> cd_entry_failure(data, #[trigger] cd_entry_offset(data, start, k)) is None,
        cd_entry_offset(data, start, n) == end,
    decreases n - i,
{
    if i < n {
        lemma_table_entries_ok(data, start, i + 1, n, end);
    }
}

#[verifier::spinoff_prover]
#[verifier::rlimit(100)]
proof fn lemma_cd_table_bytes(data: Seq<u8>, cds: Seq<ZipCDEntry>, start: int, i: int)
    requires
        0 <= start,
        0 <= i <= cds.len(),
        start <= data.len(),
        forall|k: int| 0 <= k < cds.len() ==> (#[trigger] cds[k]).wf() && cds[k].parsed_from(
            data,
            cd_entry_offset(data, start, k as nat),
        ),
        forall|k: nat| k < cds.len() ==> cd_entry_failure(data, #[trigger] cd_entry_offset(data, start, k)) is None,
    ensures
        start <= cd_entry_offset(data, start, i as nat) <= data.len(),
        cd_entries_bytes(cds.subrange(0, i)) == data.subrange(start, cd_entry_offset(data, start, i as nat)),
    decreases i,
{
    if i == 0 {
        reveal(cd_entries_bytes);
        assert(cds.subrange(0, 0) =~= Seq::<ZipCDEntry>::empty());
        assert(data.subrange(start, start) =~= Seq::<u8>::empty());
    } else {
        lemma_cd_table_bytes(data, cds, start, i - 1);
        let p = cd_entry_offset(data, start, (i - 1) as nat);
        let e = cds[i - 1];
        assert(cd_entry_failure(data, p) is None);
        lemma_cd_entry_bytes(e, data, p);
        lemma_cd_bytes_step(cds, i - 1);
        assert(cd_entry_offset(data, start, i as nat) == p + cd_entry_size(data, p));
        lemma_concat_subranges(data, start, p, p + e.spec_size());
    }
}

proof fn lemma_rewritten_offsets(data: Seq<u8>, cds: Seq<ZipCDEntry>, eocd: ZipEOCD)
    requires
        canonical_layout(data, cds, eocd),
    ensures
        forall|i: int| 0 <= i <= cds.len() ==> #[trigger] rewritten_offset(data, cds, i)
            == packed_local_end(data, cds, i),
{
    assert forall|i: int| 0 <= i <= cds.len() implies #[trigger] rewritten_offset(data, cds, i)
        == packed_local_end(data, cds, i) by {
        lemma_packed_headers(data, cds, eocd, i);
    }
}

proof fn lemma_relocated_unchanged(data: Seq<u8>, cds: Seq<ZipCDEntry>)
    requires
        forall|i: int| 0 <= i < cds.len() ==> #[trigger] rewritten_offset(data, cds, i)
            == cds[i].local_header_position,
    ensures
        relocated_entries(data, cds) == cds,
{
    assert forall|i: int| 0 <= i < cds.len() implies #[trigger] relocated_entries(data, cds)[i] == cds[i] by {
        assert(rewritten_offset(data, cds, i) == cds[i].local_header_position);
    }
    assert(relocated_entries(data, cds) =~= cds);
}

#[verifier::spinoff_prover]
#[verifier::rlimit(100)]
proof fn lemma_round_trip_headers(data: Seq<u8>, cds: Seq<ZipCDEntry>, eocd: ZipEOCD)
    requires
        canonical_layout(data, cds, eocd),
    ensures
        rewritten_local_headers(data, cds) == data.subrange(0, eocd.cd_starting_position as int),
        eocd.cd_starting_position <= data.len(),
        relocated_entries(data, cds) == cds,
        forall|i: int| 0 <= i <= cds.len() ==> #[trigger] rewritten_offset(data, cds, i) <= u32::MAX,
{
    let n = cds.len();
    lemma_packed_headers(data, cds, eocd, n as int);
    assert(cds.subrange(0, n as int) =~= cds);
    lemma_rewritten_offsets(data, cds, eocd);
    assert forall|i: int| 0 <= i < n implies #[trigger] rewritten_offset(data, cds, i)
        == cds[i].local_header_position by {
        assert(cds[i].local_header_position == packed_local_end(data, cds, i));
    }
    lemma_relocated_unchanged(data, cds);
    assert forall|i: int| 0 <= i <= n implies #[trigger] rewritten_offset(data, cds, i) <= u32::MAX by {
        if i < n {
            assert(cds[i].local_header_position == packed_local_end(data, cds, i));
        }
    }
}

#[verifier::spinoff_prover]
#[verifier::rlimit(100)]
proof fn lemma_round_trip_table(data: Seq<u8>, cds: Seq<ZipCDEntry>, start: int, end: int)
    requires
        0 <= start <= data.len(),
        cd_table_failure(data, start, 0, cds.len(), end) is None,
        forall|k: int| 0 <= k < cds.len() ==> (#[trigger] cds[k]).wf() && cds[k].parsed_from(
            data,
            cd_entry_offset(data, start, k as nat),
        ),
    ensures
        cd_entries_bytes(cds) == data.subrange(start, end),
        start <= end <= data.len(),
{
    let n = cds.len();
    lemma_table_entries_ok(data, start, 0, n, end);
    lemma_cd_table_bytes(data, cds, start, n as int);
    assert(cds.subrange(0, n as int) =~= cds);
}

#[verifier::spinoff_prover]
#[verifier::rlimit(100)]
proof fn lemma_round_trip_parts(data: Seq<u8>, cds: Seq<ZipCDEntry>, eocd: ZipEOCD, end: int)
    requires
        eocd.wf(),
        eocd_at(data, end),
        eocd.parsed_from(data, end),
        eocd.n_cd_entries == cds.len(),
        cd_table_failure(data, eocd.cd_starting_position as int, 0, cds.len(), end) is None,
        forall|i: int|
            0 <= i < cds.len() ==> (#[trigger] cds[i]).wf() && cds[i].parsed_from(
                data,
                cd_entry_offset(data, eocd.cd_starting_position as int, i as nat),
            ),
        canonical_layout(data, cds, eocd),
    ensures
        rewrite_possible(data, cds),
        rewritten_archive(data, cds, eocd) == data,
{
    let start = eocd.cd_starting_position as int;
    lemma_round_trip_headers(data, cds, eocd);
    lemma_round_trip_table(data, cds, start, end);
    assert(eocd.spec_bytes() == data.subrange(end, data.len() as int)) by {
        lemma_eocd_bytes(eocd, data, end);
    }
    assert(relocated_eocd(data, cds, eocd) == eocd);
    assert(rewritten_archive(data, cds, eocd) == data) by {
        lemma_concat_subranges(data, 0, start, end);
        lemma_concat_subranges(data, 0, end, data.len() as int);
        assert(data.subrange(0, data.len() as int) =~= data);
    }
}

/// Writing out a loaded archive without converting it gives back the very
/// bytes it was loaded from, when those bytes are laid out as a rewrite lays
/// them out (no local header needs the central directory's name or the UTF-8
/// flag, headers back to back, central directory right after them).
pub proof fn lemma_round_trip(a: InputZIPArchive)
    requires
        a.wf(),
        load_failure(a.spec_data()) is None,
        first_eocd_at(a.spec_data(), eocd_position(a.spec_data())),
        a.spec_eocd().parsed_from(a.spec_data(), eocd_position(a.spec_data())),
        forall|i: int|
            0 <= i < a.spec_entries().len() ==> (#[trigger] a.spec_entries()[i]).parsed_from(
                a.spec_data(),
                cd_entry_offset(a.spec_data(), a.spec_eocd().cd_starting_position as int, i as nat),
            ),
        canonical_layout(a.spec_data(), a.spec_entries(), a.spec_eocd()),
    ensures
        rewrite_possible(a.spec_data(), a.spec_entries()),
        rewritten_archive(a.spec_data(), a.spec_entries(), a.spec_eocd()) == a.spec_data(),
{
    let data = a.spec_data();
    let end = eocd_position(data);
    lemma_round_trip_parts(data, a.spec_entries(), a.spec_eocd(), end);
}

} // verus!
