//! Turning a statically linked Mach-O image into a Plan 9 a.out image.
//!
//! It checks that the image isn't dynamically linked, ASSUMES its text
//! segment is based at 0x1000 and its data at 0x2000, and copies bytes: the
//! text is the data of every section of the segments named `__TEXT`, the
//! data that of the segments named `__DATA` but for their `__bss`
//! sections, and the bss the sum of the sizes of those `__bss` sections,
//! which bring no bytes of their own. Nothing is relocated.

use vstd::prelude::*;
use crate::aout9::{AOut9, Magic};
use crate::error::Error;
use crate::macho::{LC, MachO, Section32, Section64, U8N16};

verus! {

/// Where the first instruction lies, from the start of the loaded header and text.
pub const ENTRY_OFFSET: u64 = 0x20;

/// The name of the segment that holds the instructions.
pub open spec fn text_segname() -> Seq<u8> {
    seq![95u8, 95u8, 84u8, 69u8, 88u8, 84u8]
}

/// The name of the segment that holds the initialized data.
pub open spec fn data_segname() -> Seq<u8> {
    seq![95u8, 95u8, 68u8, 65u8, 84u8, 65u8]
}

/// The name of the section that declares the uninitialized data.
pub open spec fn bss_sectname() -> Seq<u8> {
    seq![95u8, 95u8, 98u8, 115u8, 115u8]
}

/// Whether a 16-byte name field holds `want`, padded with zero bytes.
pub open spec fn name_is(name: U8N16, want: Seq<u8>) -> bool {
    &&& want.len() <= 16
    &&& name@.subrange(0, want.len() as int) == want
    &&& forall|k: int| want.len() <= k < 16 ==> name@[k] == 0
}

/// The data of the sections, concatenated in order; where `drop_bss`, but
/// for the bss sections, which have no data in the file.
pub open spec fn sections32_bytes(s: Seq<(Section32, Vec<u8>)>, drop_bss: bool) -> Seq<u8>
    decreases s.len(),
{
    if s.len() == 0 {
        seq![]
    } else {
        sections32_bytes(s.drop_last(), drop_bss) + if drop_bss && name_is(s.last().0.sectname, bss_sectname()) {
            seq![]
        } else {
            s.last().1@
        }
    }
}

/// The data of the sections, concatenated in order; where `drop_bss`, but
/// for the bss sections, which have no data in the file.
pub open spec fn sections64_bytes(s: Seq<(Section64, Vec<u8>)>, drop_bss: bool) -> Seq<u8>
    decreases s.len(),
{
    if s.len() == 0 {
        seq![]
    } else {
        sections64_bytes(s.drop_last(), drop_bss) + if drop_bss && name_is(s.last().0.sectname, bss_sectname()) {
            seq![]
        } else {
            s.last().1@
        }
    }
}

/// The data of `lc`'s sections if it is a segment named `name`, else
/// nothing; where `drop_bss`, the bss sections bring nothing.
pub open spec fn lc_bytes(lc: LC, name: Seq<u8>, drop_bss: bool) -> Seq<u8> {
    match lc {
        LC::Segment32(cmd, s) => if name_is(cmd.body.segname, name) {
            sections32_bytes(s@, drop_bss)
        } else {
            seq![]
        },
        LC::Segment64(cmd, s) => if name_is(cmd.body.segname, name) {
            sections64_bytes(s@, drop_bss)
        } else {
            seq![]
        },
        _ => seq![],
    }
}

/// The data of the sections of every segment named `name`, in record order
/// then section order; where `drop_bss`, the bss sections bring nothing.
pub open spec fn region_bytes(loads: Seq<LC>, name: Seq<u8>, drop_bss: bool) -> Seq<u8>
    decreases loads.len(),
{
    if loads.len() == 0 {
        seq![]
    } else {
        region_bytes(loads.drop_last(), name, drop_bss) + lc_bytes(loads.last(), name, drop_bss)
    }
}

/// The sum of the sizes of the bss sections among `s`.
pub open spec fn sections32_bss(s: Seq<(Section32, Vec<u8>)>) -> int
    decreases s.len(),
{
    if s.len() == 0 {
        0
    } else {
        sections32_bss(s.drop_last()) + if name_is(s.last().0.sectname, bss_sectname()) {
            s.last().0.size as int
        } else {
            0
        }
    }
}

/// The sum of the sizes of the bss sections among `s`.
pub open spec fn sections64_bss(s: Seq<(Section64, Vec<u8>)>) -> int
    decreases s.len(),
{
    if s.len() == 0 {
        0
    } else {
        sections64_bss(s.drop_last()) + if name_is(s.last().0.sectname, bss_sectname()) {
            s.last().0.size as int
        } else {
            0
        }
    }
}

/// The bss that `lc` declares: that of its sections if it is a data segment.
pub open spec fn lc_bss(lc: LC) -> int {
    match lc {
        LC::Segment32(cmd, s) => if name_is(cmd.body.segname, data_segname()) {
            sections32_bss(s@)
        } else {
            0
        },
        LC::Segment64(cmd, s) => if name_is(cmd.body.segname, data_segname()) {
            sections64_bss(s@)
        } else {
            0
        },
        _ => 0,
    }
}

/// The bss that all of `loads` declare.
pub open spec fn bss_total(loads: Seq<LC>) -> int
    decreases loads.len(),
{
    if loads.len() == 0 {
        0
    } else {
        bss_total(loads.drop_last()) + lc_bss(loads.last())
    }
}

/// `x`, or the largest `u64` where `x` exceeds it.
pub open spec fn saturate(x: int) -> int {
    if x > u64::MAX {
        u64::MAX as int
    } else {
        x
    }
}

/// A sum of sizes is never negative.
proof fn lemma_bss32_nonneg(s: Seq<(Section32, Vec<u8>)>)
    ensures
        sections32_bss(s) >= 0,
    decreases s.len(),
{
    if s.len() > 0 {
        lemma_bss32_nonneg(s.drop_last());
    }
}

/// A sum of sizes is never negative.
proof fn lemma_bss64_nonneg(s: Seq<(Section64, Vec<u8>)>)
    ensures
        sections64_bss(s) >= 0,
    decreases s.len(),
{
    if s.len() > 0 {
        lemma_bss64_nonneg(s.drop_last());
    }
}

/// Whether `a` is the conversion of `m`: a 386 image whose text and data
/// are the bytes of the text and data segments, whose bss is the declared
/// bss, and whose entry is the first byte of text after the header.
pub open spec fn converted(m: MachO, a: AOut9) -> bool {
    &&& a.magic == Magic::I
    &&& a.text@ == region_bytes(m.loads@, text_segname(), false)
    &&& a.data@ == region_bytes(m.loads@, data_segname(), true)
    &&& a.bss == saturate(bss_total(m.loads@))
    &&& a.entry == ENTRY_OFFSET
}

/// Whether the name field holds `want`, padded with zero bytes.
fn has_name(name: &U8N16, want: &[u8]) -> (r: bool)
    ensures
        r == name_is(*name, want@),
{
    let n = want.len();
    if n > 16 {
        return false;
    }
    let mut k: usize = 0;
    while k < n
        invariant
            n == want@.len(),
            n <= 16,
            k <= n,
            forall|j: int| 0 <= j < k ==> name@[j] == want@[j],
        decreases n - k,
    {
        if name[k] != want[k] {
            assert(name@.subrange(0, n as int)[k as int] != want@[k as int]);
            return false;
        }
        k = k + 1;
    }
    assert(name@.subrange(0, n as int) =~= want@);
    while k < 16
        invariant
            n == want@.len(),
            n <= k <= 16,
            name@.subrange(0, n as int) == want@,
            forall|j: int| n <= j < k ==> name@[j] == 0,
        decreases 16 - k,
    {
        if name[k] != 0 {
            return false;
        }
        k = k + 1;
    }
    true
}

/// Appends the data of each section to `out`.
fn append_sections32(
    out: &mut Vec<u8>,
    s: &Vec<(Section32, Vec<u8>)>,
    bss: &[u8],
    drop_bss: bool,
)
    requires
        bss@ == bss_sectname(),
    ensures
        final(out)@ == old(out)@ + sections32_bytes(s@, drop_bss),
{
    let mut j: usize = 0;
    while j < s.len()
        invariant
            j <= s@.len(),
            bss@ == bss_sectname(),
            out@ == old(out)@ + sections32_bytes(s@.subrange(0, j as int), drop_bss),
        decreases s@.len() - j,
    {
        assert(s@.subrange(0, j + 1).drop_last() =~= s@.subrange(0, j as int));
        assert(s@.subrange(0, j + 1).last() == s@[j as int]);
        if drop_bss && has_name(&s[j].0.sectname, bss) {
            j = j + 1;
            assert(out@ =~= old(out)@ + sections32_bytes(s@.subrange(0, j as int), drop_bss));
            continue;
        }
        let data = &s[j].1;
        let mut k: usize = 0;
        let ghost before = out@;
        while k < data.len()
            invariant
                k <= data@.len(),
                out@ == before + data@.subrange(0, k as int),
            decreases data@.len() - k,
        {
            out.push(data[k]);
            k = k + 1;
            assert(out@ =~= before + data@.subrange(0, k as int));
        }
        assert(s@.subrange(0, j + 1).drop_last() =~= s@.subrange(0, j as int));
        assert(data@.subrange(0, data@.len() as int) =~= data@);
        j = j + 1;
        assert(out@ =~= old(out)@ + sections32_bytes(s@.subrange(0, j as int), drop_bss));
    }
    assert(s@.subrange(0, s@.len() as int) =~= s@);
}

/// Appends the data of each section to `out`.
fn append_sections64(
    out: &mut Vec<u8>,
    s: &Vec<(Section64, Vec<u8>)>,
    bss: &[u8],
    drop_bss: bool,
)
    requires
        bss@ == bss_sectname(),
    ensures
        final(out)@ == old(out)@ + sections64_bytes(s@, drop_bss),
{
    let mut j: usize = 0;
    while j < s.len()
        invariant
            j <= s@.len(),
            bss@ == bss_sectname(),
            out@ == old(out)@ + sections64_bytes(s@.subrange(0, j as int), drop_bss),
        decreases s@.len() - j,
    {
        assert(s@.subrange(0, j + 1).drop_last() =~= s@.subrange(0, j as int));
        assert(s@.subrange(0, j + 1).last() == s@[j as int]);
        if drop_bss && has_name(&s[j].0.sectname, bss) {
            j = j + 1;
            assert(out@ =~= old(out)@ + sections64_bytes(s@.subrange(0, j as int), drop_bss));
            continue;
        }
        let data = &s[j].1;
        let mut k: usize = 0;
        let ghost before = out@;
        while k < data.len()
            invariant
                k <= data@.len(),
                out@ == before + data@.subrange(0, k as int),
            decreases data@.len() - k,
        {
            out.push(data[k]);
            k = k + 1;
            assert(out@ =~= before + data@.subrange(0, k as int));
        }
        assert(s@.subrange(0, j + 1).drop_last() =~= s@.subrange(0, j as int));
        assert(data@.subrange(0, data@.len() as int) =~= data@);
        j = j + 1;
        assert(out@ =~= old(out)@ + sections64_bytes(s@.subrange(0, j as int), drop_bss));
    }
    assert(s@.subrange(0, s@.len() as int) =~= s@);
}

/// The data of the sections of every segment named `name`, concatenated.
fn collect_region(loads: &Vec<LC>, name: &[u8], bss: &[u8], drop_bss: bool) -> (r: Vec<u8>)
    requires
        bss@ == bss_sectname(),
    ensures
        r@ == region_bytes(loads@, name@, drop_bss),
{
    let mut out: Vec<u8> = Vec::new();
    let mut i: usize = 0;
    while i < loads.len()
        invariant
            i <= loads@.len(),
            bss@ == bss_sectname(),
            out@ == region_bytes(loads@.subrange(0, i as int), name@, drop_bss),
        decreases loads@.len() - i,
    {
        let ghost before = out@;
        match &loads[i] {
            LC::Segment32(cmd, s) => {
                if has_name(&cmd.body.segname, name) {
                    append_sections32(&mut out, s, bss, drop_bss);
                }
            },
            LC::Segment64(cmd, s) => {
                if has_name(&cmd.body.segname, name) {
                    append_sections64(&mut out, s, bss, drop_bss);
                }
            },
            _ => {},
        }
        assert(out@ =~= before + lc_bytes(loads@[i as int], name@, drop_bss));
        assert(loads@.subrange(0, i + 1).drop_last() =~= loads@.subrange(0, i as int));
        i = i + 1;
    }
    assert(loads@.subrange(0, loads@.len() as int) =~= loads@);
    out
}

/// Adds `v` to `acc`, holding at the largest `u64`.
fn add_saturating(acc: u64, v: u64) -> (r: u64)
    ensures
        r == saturate(acc + v),
{
    if acc > u64::MAX - v {
        u64::MAX
    } else {
        acc + v
    }
}

/// The sum of the sizes of the bss sections among `s`, added to `acc`.
fn add_bss32(acc: u64, s: &Vec<(Section32, Vec<u8>)>, bss: &[u8]) -> (r: u64)
    requires
        bss@ == bss_sectname(),
    ensures
        r == saturate(acc + sections32_bss(s@)),
{
    let mut total = acc;
    let mut j: usize = 0;
    while j < s.len()
        invariant
            j <= s@.len(),
            bss@ == bss_sectname(),
            total == saturate(acc + sections32_bss(s@.subrange(0, j as int))),
        decreases s@.len() - j,
    {
        assert(s@.subrange(0, j + 1).drop_last() =~= s@.subrange(0, j as int));
        proof {
            lemma_bss32_nonneg(s@.subrange(0, j as int));
            assert(s@.subrange(0, j + 1).last() == s@[j as int]);
        }
        let ghost p = sections32_bss(s@.subrange(0, j as int));
        let ghost add: int = if name_is(s@[j as int].0.sectname, bss_sectname()) {
            s@[j as int].0.size as int
        } else {
            0
        };
        assert(sections32_bss(s@.subrange(0, j + 1)) == p + add);
        let matched = has_name(&s[j].0.sectname, bss);
        if matched {
            total = add_saturating(total, s[j].0.size as u64);
        }
        assert(total == saturate(acc + p + add));
        j = j + 1;
    }
    assert(s@.subrange(0, s@.len() as int) =~= s@);
    total
}

/// The sum of the sizes of the bss sections among `s`, added to `acc`.
fn add_bss64(acc: u64, s: &Vec<(Section64, Vec<u8>)>, bss: &[u8]) -> (r: u64)
    requires
        bss@ == bss_sectname(),
    ensures
        r == saturate(acc + sections64_bss(s@)),
{
    let mut total = acc;
    let mut j: usize = 0;
    while j < s.len()
        invariant
            j <= s@.len(),
            bss@ == bss_sectname(),
            total == saturate(acc + sections64_bss(s@.subrange(0, j as int))),
        decreases s@.len() - j,
    {
        assert(s@.subrange(0, j + 1).drop_last() =~= s@.subrange(0, j as int));
        proof {
            lemma_bss64_nonneg(s@.subrange(0, j as int));
            assert(s@.subrange(0, j + 1).last() == s@[j as int]);
        }
        let ghost p = sections64_bss(s@.subrange(0, j as int));
        let ghost add: int = if name_is(s@[j as int].0.sectname, bss_sectname()) {
            s@[j as int].0.size as int
        } else {
            0
        };
        assert(sections64_bss(s@.subrange(0, j + 1)) == p + add);
        let matched = has_name(&s[j].0.sectname, bss);
        if matched {
            total = add_saturating(total, s[j].0.size);
        }
        assert(total == saturate(acc + p + add));
        j = j + 1;
    }
    assert(s@.subrange(0, s@.len() as int) =~= s@);
    total
}

/// The bss that all of `loads` declare is never negative.
proof fn lemma_bss_total_nonneg(loads: Seq<LC>)
    ensures
        bss_total(loads) >= 0,
    decreases loads.len(),
{
    if loads.len() > 0 {
        lemma_bss_total_nonneg(loads.drop_last());
        match loads.last() {
            LC::Segment32(_, s) => lemma_bss32_nonneg(s@),
            LC::Segment64(_, s) => lemma_bss64_nonneg(s@),
            _ => {},
        }
    }
}

/// The bss that all of `loads` declare, held at the largest `u64`.
fn bss_size(loads: &Vec<LC>, data: &[u8], bss: &[u8]) -> (r: u64)
    requires
        data@ == data_segname(),
        bss@ == bss_sectname(),
    ensures
        r == saturate(bss_total(loads@)),
{
    let mut total: u64 = 0;
    let mut i: usize = 0;
    while i < loads.len()
        invariant
            i <= loads@.len(),
            data@ == data_segname(),
            bss@ == bss_sectname(),
            total == saturate(bss_total(loads@.subrange(0, i as int))),
        decreases loads@.len() - i,
    {
        let ghost p = bss_total(loads@.subrange(0, i as int));
        proof {
            lemma_bss_total_nonneg(loads@.subrange(0, i as int));
            assert(loads@.subrange(0, i + 1).drop_last() =~= loads@.subrange(0, i as int));
            assert(loads@.subrange(0, i + 1).last() == loads@[i as int]);
        }
        match &loads[i] {
            LC::Segment32(cmd, s) => {
                proof {
                    lemma_bss32_nonneg(s@);
                }
                if has_name(&cmd.body.segname, data) {
                    total = add_bss32(total, s, bss);
                }
            },
            LC::Segment64(cmd, s) => {
                proof {
                    lemma_bss64_nonneg(s@);
                }
                if has_name(&cmd.body.segname, data) {
                    total = add_bss64(total, s, bss);
                }
            },
            _ => {},
        }
        assert(total == saturate(p + lc_bss(loads@[i as int])));
        i = i + 1;
    }
    assert(loads@.subrange(0, loads@.len() as int) =~= loads@);
    total
}

/// Converts a statically linked Mach-O image into a stripped a.out image
/// for the 386, whose entry is the first byte of text after the header.
pub fn to_aout(m: &MachO) -> (r: Result<AOut9, Error>)
    ensures
        r is Err <==> m.spec_is_dynamic(),
        r matches Err(e) ==> e == Error::DynamicUnsupported,
        r matches Ok(a) ==> converted(*m, a),
{
    if m.is_dynamic() {
        return Err(Error::DynamicUnsupported);
    }
    let text_name: [u8; 6] = [95, 95, 84, 69, 88, 84];
    let data_name: [u8; 6] = [95, 95, 68, 65, 84, 65];
    let bss_name: [u8; 5] = [95, 95, 98, 115, 115];
    assert(text_name@ =~= text_segname());
    assert(data_name@ =~= data_segname());
    assert(bss_name@ =~= bss_sectname());
    let text = collect_region(&m.loads, text_name.as_slice(), bss_name.as_slice(), false);
    let data = collect_region(&m.loads, data_name.as_slice(), bss_name.as_slice(), true);
    let bss = bss_size(&m.loads, data_name.as_slice(), bss_name.as_slice());
    Ok(AOut9 { magic: Magic::I, text, data, bss, entry: ENTRY_OFFSET })
}

} // verus!
