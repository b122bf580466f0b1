//! Laws that relate the decoder, the conversion and the encoder.

use vstd::prelude::*;
use crate::aout9::{AOut9, Magic, LOAD_BASE};
use crate::bytes::{be_bytes, be_u32, lemma_be_round_trip};
use crate::convert::{
    bss_total, converted, data_segname, name_is, region_bytes, sections32_bytes, text_segname,
    ENTRY_OFFSET,
};
use crate::decode::{
    decode_outcome, decoded, known_tag, known_thread_state, UNIXTHREAD_SIZE, lc_parsed, lemma_first_error_stays, ncmds, record_error,
    record_start, records_end, records_outcome, stream_reaches, HEADER_SIZE, SECTION32_SIZE,
    SECTION64_SIZE, SEGMENT32_SIZE, SEGMENT64_SIZE,
};
use crate::error::Error;
use crate::macho::{
    LC, LcSegment32, LoadCommand, MachO, Section32, u32_at, LC_SEGMENT, LC_SEGMENT_64, LC_UNIXTHREAD,
};

verus! {

/// The four bytes at `off` read the same in `s` as in any sequence that
/// holds them at `at`.
proof fn lemma_be_u32_slice(s: Seq<u8>, off: int, b: Seq<u8>)
    requires
        0 <= off,
        off + 4 <= s.len(),
        b.len() == 4,
        forall|t: int| 0 <= t < 4 ==> s[off + t] == b[t],
    ensures
        be_u32(s, off) == be_u32(b, 0),
{
    assert(s[off] == b[0]);
    assert(s[off + 1] == b[1]);
    assert(s[off + 2] == b[2]);
    assert(s[off + 3] == b[3]);
}

/// Reading back the header of an encoded image gives each of its fields:
/// the magic number, the text, data and bss sizes, an empty symbol table,
/// the entry address moved to the load base, and empty PC tables; the text
/// and data follow the header unchanged.
pub proof fn lemma_header_round_trip(img: AOut9)
    requires
        img.spec_fits(),
    ensures
        ({
            let b = img.spec_encoding();
            &&& b.len() == 32 + img.text@.len() + img.data@.len()
            &&& be_u32(b, 0) == img.magic.spec_value()
            &&& be_u32(b, 4) == img.text@.len()
            &&& be_u32(b, 8) == img.data@.len()
            &&& be_u32(b, 12) == img.bss
            &&& be_u32(b, 16) == 0
            &&& be_u32(b, 20) == img.entry + LOAD_BASE
            &&& be_u32(b, 24) == 0
            &&& be_u32(b, 28) == 0
            &&& b.subrange(32, (32 + img.text@.len()) as int) == img.text@
            &&& b.subrange((32 + img.text@.len()) as int, b.len() as int) == img.data@
        }),
{
    let h = img.spec_header();
    let b = img.spec_encoding();
    let fields = h.spec_fields();
    assert forall|k: int| 0 <= k < 8 implies be_u32(b, 4 * k) == fields[k] by {
        lemma_be_round_trip(fields[k]);
        assert forall|t: int| 0 <= t < 4 implies b[4 * k + t] == be_bytes(fields[k])[t] by {
            assert(b[4 * k + t] == h.spec_bytes()[4 * k + t]);
        }
        lemma_be_u32_slice(b, 4 * k, be_bytes(fields[k]));
    }
    assert(be_u32(b, 0) == fields[0]);
    assert(be_u32(b, (4 * 1) as int) == fields[1]);
    assert(be_u32(b, (4 * 2) as int) == fields[2]);
    assert(be_u32(b, (4 * 3) as int) == fields[3]);
    assert(be_u32(b, (4 * 4) as int) == fields[4]);
    assert(be_u32(b, (4 * 5) as int) == fields[5]);
    assert(be_u32(b, (4 * 6) as int) == fields[6]);
    assert(be_u32(b, (4 * 7) as int) == fields[7]);
    assert(b.subrange(32, (32 + img.text@.len()) as int) =~= img.text@);
    assert(b.subrange((32 + img.text@.len()) as int, b.len() as int) =~= img.data@);
}

/// Where the first `n` records decode, so does each record before them.
proof fn lemma_no_error_before(f: Seq<u8>, n: nat, i: nat)
    requires
        records_outcome(f, n) is None,
        i < n,
    ensures
        records_outcome(f, i) is None,
        record_error(f, record_start(f, i), records_end(f), i as usize) is None,
    decreases n,
{
    if i + 1 < n {
        lemma_no_error_before(f, (n - 1) as nat, i);
    }
}

/// The declared size of a load command.
pub open spec fn cmdsize_of(lc: LC) -> int {
    match lc {
        LC::Segment32(cmd, _) => cmd.head.cmdsize as int,
        LC::Symtab(cmd) => cmd.head.cmdsize as int,
        LC::UnixThread(cmd, _) => cmd.head.cmdsize as int,
        LC::DySymtab(cmd) => cmd.head.cmdsize as int,
        LC::LoadDylinker(cmd, _) => cmd.head.cmdsize as int,
        LC::Segment64(cmd, _) => cmd.head.cmdsize as int,
        LC::Uuid(cmd) => cmd.head.cmdsize as int,
        LC::VersionMinOS(cmd) => cmd.head.cmdsize as int,
        LC::SourceVersion(cmd) => cmd.head.cmdsize as int,
    }
}

/// The sum of the declared sizes of the load commands.
pub open spec fn sum_cmdsizes(loads: Seq<LC>) -> int
    decreases loads.len(),
{
    if loads.len() == 0 {
        0
    } else {
        sum_cmdsizes(loads.drop_last()) + cmdsize_of(loads.last())
    }
}

/// A decoded command's declared size is the one found at its place.
proof fn lemma_cmdsize_parsed(lc: LC, f: Seq<u8>, c: int)
    requires
        lc_parsed(lc, f, c),
    ensures
        cmdsize_of(lc) == u32_at(f, c + 4),
{
    reveal(lc_parsed);
}

/// In a decoded image every segment command's declared size is the size of
/// its fixed part plus that of its section descriptors.
pub proof fn lemma_segment_size_agrees(f: Seq<u8>, m: MachO, i: int)
    requires
        decoded(f, m),
        0 <= i < m.loads@.len(),
    ensures
        m.loads@[i] matches LC::Segment32(cmd, _) ==> cmd.head.cmdsize == SEGMENT32_SIZE
            + SECTION32_SIZE * cmd.body.nsects,
        m.loads@[i] matches LC::Segment64(cmd, _) ==> cmd.head.cmdsize == SEGMENT64_SIZE
            + SECTION64_SIZE * cmd.body.nsects,
{
    lemma_no_error_before(f, ncmds(f), i as nat);
    assert(lc_parsed(m.loads@[i], f, record_start(f, i as nat)));
    reveal(lc_parsed);
    reveal(record_error);
}

/// A segment command whose declared size is not the size of its fixed part
/// plus that of its section descriptors makes decoding fail with
/// `SizeMismatch`, whatever follows it: neither its sections nor their data
/// are read.
pub proof fn lemma_segment_size_mismatch(f: Seq<u8>, i: nat)
    requires
        stream_reaches(f, i),
        ({
            let c = record_start(f, i);
            let size = u32_at(f, c + 4);
            ||| u32_at(f, c) == LC_SEGMENT && c + SEGMENT32_SIZE <= f.len() && size
                != SEGMENT32_SIZE + SECTION32_SIZE * u32_at(f, c + 48)
            ||| u32_at(f, c) == LC_SEGMENT_64 && c + SEGMENT64_SIZE <= f.len() && size
                != SEGMENT64_SIZE + SECTION64_SIZE * u32_at(f, c + 64)
        }),
    ensures
        decode_outcome(f) == Some(Error::SizeMismatch),
{
    reveal(record_error);
    assert(records_outcome(f, i + 1) == Some(Error::SizeMismatch));
    lemma_first_error_stays(f, i + 1, ncmds(f));
}

/// A thread state command whose flavor and count name neither recognized
/// thread state makes decoding fail with `UnrecognizedThreadState` carrying
/// both, whatever its declared size.
pub proof fn lemma_unrecognized_thread_state(f: Seq<u8>, i: nat)
    requires
        stream_reaches(f, i),
        record_start(f, i) + UNIXTHREAD_SIZE <= f.len(),
        u32_at(f, record_start(f, i)) == LC_UNIXTHREAD,
        !known_thread_state(
            u32_at(f, record_start(f, i) + 8),
            u32_at(f, record_start(f, i) + 12),
        ),
    ensures
        decode_outcome(f) == Some(
            Error::UnrecognizedThreadState(
                u32_at(f, record_start(f, i) + 8),
                u32_at(f, record_start(f, i) + 12),
            ),
        ),
{
    reveal(record_error);
    let c = record_start(f, i);
    let e = Error::UnrecognizedThreadState(u32_at(f, c + 8), u32_at(f, c + 12));
    assert(records_outcome(f, i + 1) == Some(e));
    lemma_first_error_stays(f, i + 1, ncmds(f));
}

/// Record `k` starts after the header and the declared sizes of the
/// records before it.
proof fn lemma_start_is_sum(f: Seq<u8>, m: MachO, k: nat)
    requires
        decoded(f, m),
        k <= m.loads@.len(),
    ensures
        record_start(f, k) == record_start(f, 0) + sum_cmdsizes(m.loads@.subrange(0, k as int)),
    decreases k,
{
    if k > 0 {
        let j = (k - 1) as nat;
        lemma_start_is_sum(f, m, j);
        assert(lc_parsed(m.loads@[j as int], f, record_start(f, j)));
        lemma_cmdsize_parsed(m.loads@[j as int], f, record_start(f, j));
        assert(m.loads@.subrange(0, k as int).drop_last() =~= m.loads@.subrange(0, j as int));
        assert(m.loads@.subrange(0, k as int).last() == m.loads@[j as int]);
    }
}

/// In a decoded image the declared sizes of the load commands add up to
/// the declared size of the command region, and each command lies within
/// that region: nothing after it is read as a command.
pub proof fn lemma_records_fill_stream(f: Seq<u8>, m: MachO)
    requires
        decoded(f, m),
    ensures
        sum_cmdsizes(m.loads@) == m.header.sizeofcmds,
        forall|i: int|
            0 <= i < m.loads@.len() ==> record_start(f, i as nat) + cmdsize_of(
                #[trigger] m.loads@[i],
            ) <= records_end(f),
{
    let n = m.loads@.len();
    lemma_start_is_sum(f, m, n);
    assert(m.loads@.subrange(0, n as int) =~= m.loads@);
    assert forall|i: int|
        0 <= i < m.loads@.len() implies record_start(f, i as nat) + cmdsize_of(
            #[trigger] m.loads@[i],
        ) <= records_end(f) by {
        lemma_no_error_before(f, ncmds(f), i as nat);
        assert(lc_parsed(m.loads@[i], f, record_start(f, i as nat)));
        lemma_cmdsize_parsed(m.loads@[i], f, record_start(f, i as nat));
        reveal(record_error);
    }
}

/// A buffer shorter than the smallest header fails with `TooShort`.
pub proof fn lemma_too_short(f: Seq<u8>)
    requires
        f.len() < HEADER_SIZE,
    ensures
        decode_outcome(f) == Some(Error::TooShort),
{
}

/// A record at index `i` whose tag is not recognized makes decoding fail
/// with `UnrecognizedSegment` carrying `i` and the tag, so that no image is
/// returned.
pub proof fn lemma_unrecognized_tag(f: Seq<u8>, i: nat)
    requires
        stream_reaches(f, i),
        record_start(f, i) + 8 <= f.len(),
        !known_tag(u32_at(f, record_start(f, i))),
    ensures
        decode_outcome(f) == Some(Error::UnrecognizedSegment(i as usize, u32_at(f, record_start(f, i)))),
{
    reveal(record_error);
    assert(records_outcome(f, i + 1) == Some(
        Error::UnrecognizedSegment(i as usize, u32_at(f, record_start(f, i))),
    ));
    lemma_first_error_stays(f, i + 1, ncmds(f));
}

/// The bytes gathered from two runs of load commands, one after the other,
/// are those of the first run followed by those of the second.
pub proof fn lemma_region_concat(l1: Seq<LC>, l2: Seq<LC>, name: Seq<u8>, drop_bss: bool)
    ensures
        region_bytes(l1 + l2, name, drop_bss) == region_bytes(l1, name, drop_bss) + region_bytes(l2, name, drop_bss),
    decreases l2.len(),
{
    if l2.len() == 0 {
        assert(l1 + l2 =~= l1);
        assert(region_bytes(l2, name, drop_bss) =~= seq![]);
        assert(region_bytes(l1, name, drop_bss) + seq![] =~= region_bytes(l1, name, drop_bss));
    } else {
        lemma_region_concat(l1, l2.drop_last(), name, drop_bss);
        assert((l1 + l2).drop_last() =~= l1 + l2.drop_last());
        assert((l1 + l2).last() == l2.last());
        assert(region_bytes(l1 + l2, name, drop_bss) =~= region_bytes(l1, name, drop_bss) + region_bytes(l2, name, drop_bss));
    }
}

/// Two text segments, the first with sections `a` and `b`, the second with
/// section `c`, give the text `a ++ b ++ c`.
pub proof fn lemma_two_text_segments(
    c1: LoadCommand<LcSegment32>,
    s1: Vec<(Section32, Vec<u8>)>,
    c2: LoadCommand<LcSegment32>,
    s2: Vec<(Section32, Vec<u8>)>,
)
    requires
        name_is(c1.body.segname, text_segname()),
        name_is(c2.body.segname, text_segname()),
        s1@.len() == 2,
        s2@.len() == 1,
    ensures
        region_bytes(seq![LC::Segment32(c1, s1), LC::Segment32(c2, s2)], text_segname(), false)
            == s1@[0].1@ + s1@[1].1@ + s2@[0].1@,
{
    let loads = seq![LC::Segment32(c1, s1), LC::Segment32(c2, s2)];
    assert(loads.drop_last() =~= seq![LC::Segment32(c1, s1)]);
    assert(loads.drop_last().drop_last() =~= Seq::<LC>::empty());
    assert(s1@.drop_last().drop_last() =~= Seq::<(Section32, Vec<u8>)>::empty());
    assert(s2@.drop_last() =~= Seq::<(Section32, Vec<u8>)>::empty());
    let e = Seq::<u8>::empty();
    assert(sections32_bytes(s1@.drop_last().drop_last(), false) == e);
    assert(sections32_bytes(s1@.drop_last(), false) =~= s1@[0].1@);
    assert(sections32_bytes(s1@, false) =~= s1@[0].1@ + s1@[1].1@);
    assert(sections32_bytes(s2@.drop_last(), false) == e);
    assert(sections32_bytes(s2@, false) =~= s2@[0].1@);
    assert(region_bytes(loads.drop_last().drop_last(), text_segname(), false) == e);
    assert(region_bytes(loads.drop_last(), text_segname(), false) =~= s1@[0].1@ + s1@[1].1@);
    assert(region_bytes(loads, text_segname(), false) =~= s1@[0].1@ + s1@[1].1@ + s2@[0].1@);
}

/// The bss declared by two runs of load commands, one after the other, is
/// the sum of what each declares.
pub proof fn lemma_bss_concat(l1: Seq<LC>, l2: Seq<LC>)
    ensures
        bss_total(l1 + l2) == bss_total(l1) + bss_total(l2),
    decreases l2.len(),
{
    if l2.len() == 0 {
        assert(l1 + l2 =~= l1);
    } else {
        lemma_bss_concat(l1, l2.drop_last());
        assert((l1 + l2).drop_last() =~= l1 + l2.drop_last());
        assert((l1 + l2).last() == l2.last());
    }
}

/// The encoding of a converted image starts with the header of a 386
/// object whose text and data sizes are those of the text and data
/// segments' bytes, whose bss is the declared bss, with no symbol or PC
/// tables and the entry at the load base plus the entry offset; those
/// bytes follow it.
pub proof fn lemma_converted_encoding(m: MachO, a: AOut9)
    requires
        converted(m, a),
        a.spec_fits(),
    ensures
        ({
            let b = a.spec_encoding();
            let text = region_bytes(m.loads@, text_segname(), false);
            let data = region_bytes(m.loads@, data_segname(), true);
            &&& be_u32(b, 0) == 0x1eb
            &&& be_u32(b, 4) == text.len()
            &&& be_u32(b, 8) == data.len()
            &&& be_u32(b, 12) == bss_total(m.loads@)
            &&& be_u32(b, 16) == 0
            &&& be_u32(b, 20) == LOAD_BASE + ENTRY_OFFSET
            &&& be_u32(b, 24) == 0
            &&& be_u32(b, 28) == 0
            &&& b == b.subrange(0, 32) + text + data
        }),
{
    lemma_header_round_trip(a);
    let v = Magic::I.spec_value();
    assert(v == 491) by (bit_vector)
        requires
            v == (0u32 | 491u32),
    ;
    let b = a.spec_encoding();
    assert(b =~= b.subrange(0, 32) + a.text@ + a.data@);
}

} // verus!
