//! Decoding a Mach-O image from a byte buffer.
//!
//! `decode_outcome` states, for every buffer, whether decoding succeeds and
//! otherwise which error it reports; `lc_parsed` states what each decoded
//! load command holds.

use vstd::prelude::*;
use vstd::slice::{slice_subrange, slice_to_vec};
use crate::error::Error;
use crate::macho::{
    LoadCommandHead,
    LC, LcLoadDylinker, LcSegment32, LcSegment64, LcSourceVersion, LcSymtab, LcDySymtab,
    LcUnixThreadHead, LcUuid, LcVersionMinOS, LoadCommand, Header, Magic, MachO, Section32,
    Section64, ThreadState, field32, u32_at, u64_at, LC_SEGMENT, LC_SYMTAB, LC_UNIXTHREAD, LC_DYSYMTAB,
    LC_LOAD_DYLINKER, LC_SEGMENT_64, LC_UUID, LC_VERSION_MIN_OS, LC_SOURCE_VERSION, MAGIC_32, MAGIC_64,
    THREAD_STATE_X86, THREAD_STATE_X86_COUNT, THREAD_STATE_X86_64, THREAD_STATE_X86_64_COUNT,
};

verus! {

/// The size of a 32-bit header, the least a buffer must hold.
pub const HEADER_SIZE: usize = 28;

/// The size of a 64-bit header.
pub const HEADER64_SIZE: usize = 32;

/// The size of the head and fixed body of a 32-bit segment command.
pub const SEGMENT32_SIZE: usize = 56;

/// The size of the head and fixed body of a 64-bit segment command.
pub const SEGMENT64_SIZE: usize = 72;

/// The size of a 32-bit section descriptor.
pub const SECTION32_SIZE: usize = 68;

/// The size of a 64-bit section descriptor.
pub const SECTION64_SIZE: usize = 80;

/// The size of the head of a thread state command.
pub const UNIXTHREAD_SIZE: usize = 16;

/// The size of a 32-bit x86 register block.
pub const X86_REGS_SIZE: usize = 64;

/// The size of an x86-64 register block.
pub const X86_64_REGS_SIZE: usize = 168;

/// The size of the header that the magic number at the start of `f` selects.
pub open spec fn header_size(f: Seq<u8>) -> int {
    if u32_at(f, 0) == MAGIC_32 {
        HEADER_SIZE as int
    } else {
        HEADER64_SIZE as int
    }
}

/// The declared number of load commands.
pub open spec fn ncmds(f: Seq<u8>) -> nat {
    u32_at(f, 16) as nat
}

/// Where the load commands end: after the header and the declared number of bytes.
pub open spec fn records_end(f: Seq<u8>) -> int {
    header_size(f) + u32_at(f, 20)
}

/// Where the record at index `i` starts: each record starts where the
/// previous one started, plus its declared size.
pub open spec fn record_start(f: Seq<u8>, i: nat) -> int
    decreases i,
{
    if i == 0 {
        header_size(f)
    } else {
        let c = record_start(f, (i - 1) as nat);
        c + u32_at(f, c + 4)
    }
}

/// Whether `tag` is one of the nine recognized load command tags.
pub open spec fn known_tag(tag: u32) -> bool {
    tag == LC_SEGMENT || tag == LC_SYMTAB || tag == LC_UNIXTHREAD || tag == LC_DYSYMTAB
        || tag == LC_LOAD_DYLINKER || tag == LC_SEGMENT_64 || tag == LC_UUID
        || tag == LC_VERSION_MIN_OS || tag == LC_SOURCE_VERSION
}

/// The size of the head and fixed body of a command with no trailing parts.
pub open spec fn fixed_size(tag: u32) -> int {
    if tag == LC_SYMTAB {
        24
    } else if tag == LC_DYSYMTAB {
        80
    } else if tag == LC_LOAD_DYLINKER {
        12
    } else if tag == LC_UUID {
        24
    } else {
        16
    }
}

/// Whether the data of the 32-bit section descriptor at `s` lies within `f`.
pub open spec fn section32_in_file(f: Seq<u8>, s: int) -> bool {
    u32_at(f, s + 40) + u32_at(f, s + 36) <= f.len()
}

/// Whether the data of the 64-bit section descriptor at `s` lies within `f`.
pub open spec fn section64_in_file(f: Seq<u8>, s: int) -> bool {
    u32_at(f, s + 48) + u64_at(f, s + 40) <= f.len()
}

/// Why the 32-bit segment command at `c`, of declared size `size`, in a
/// stream ending at `end`, fails. The declared size is held to the section
/// count as soon as the fixed part can be read.
pub open spec fn segment32_error(f: Seq<u8>, c: int, size: int, end: int) -> Option<Error> {
    if c + SEGMENT32_SIZE > f.len() {
        Some(Error::TooShort)
    } else {
        let n = u32_at(f, c + 48) as int;
        if SEGMENT32_SIZE + SECTION32_SIZE * n != size {
            Some(Error::SizeMismatch)
        } else if c + size > end {
            Some(Error::SizeMismatch)
        } else if exists|j: int|
            0 <= j < n && !section32_in_file(f, #[trigger] (c + SEGMENT32_SIZE + SECTION32_SIZE * j)) {
            Some(Error::TooShort)
        } else {
            None
        }
    }
}

/// Why the 64-bit segment command at `c`, of declared size `size`, in a
/// stream ending at `end`, fails. The declared size is held to the section
/// count as soon as the fixed part can be read.
pub open spec fn segment64_error(f: Seq<u8>, c: int, size: int, end: int) -> Option<Error> {
    if c + SEGMENT64_SIZE > f.len() {
        Some(Error::TooShort)
    } else {
        let n = u32_at(f, c + 64) as int;
        if SEGMENT64_SIZE + SECTION64_SIZE * n != size {
            Some(Error::SizeMismatch)
        } else if c + size > end {
            Some(Error::SizeMismatch)
        } else if exists|j: int|
            0 <= j < n && !section64_in_file(f, #[trigger] (c + SEGMENT64_SIZE + SECTION64_SIZE * j)) {
            Some(Error::TooShort)
        } else {
            None
        }
    }
}

/// The size of the register block that a recognized flavor and count imply.
pub open spec fn regs_size(flavor: u32) -> int {
    if flavor == THREAD_STATE_X86 {
        X86_REGS_SIZE as int
    } else {
        X86_64_REGS_SIZE as int
    }
}

/// Whether a flavor and count name one of the two recognized thread states.
pub open spec fn known_thread_state(flavor: u32, count: u32) -> bool {
    ||| flavor == THREAD_STATE_X86 && count == THREAD_STATE_X86_COUNT
    ||| flavor == THREAD_STATE_X86_64 && count == THREAD_STATE_X86_64_COUNT
}

/// Why the thread state command at `c`, of declared size `size`, in a
/// stream ending at `end`, fails. The flavor and count are classified as
/// soon as they can be read.
pub open spec fn thread_error(f: Seq<u8>, c: int, size: int, end: int) -> Option<Error> {
    if c + UNIXTHREAD_SIZE > f.len() {
        Some(Error::TooShort)
    } else {
        let flavor = u32_at(f, c + 8);
        let count = u32_at(f, c + 12);
        if !known_thread_state(flavor, count) {
            Some(Error::UnrecognizedThreadState(flavor, count))
        } else if c + UNIXTHREAD_SIZE + regs_size(flavor) > f.len() {
            Some(Error::TooShort)
        } else if c + size > end || c + UNIXTHREAD_SIZE + regs_size(flavor) > end {
            Some(Error::SizeMismatch)
        } else {
            None
        }
    }
}

/// Why the record at `c`, index `i`, in a stream ending at `end`, fails.
///
/// A part that would be read past the buffer is `TooShort`; a record that
/// would reach past the end of the stream is `SizeMismatch`, the declared
/// sizes of the records disagreeing with that of the stream.
#[verifier::opaque]
pub open spec fn record_error(f: Seq<u8>, c: int, end: int, i: usize) -> Option<Error> {
    if c + 8 > f.len() {
        Some(Error::TooShort)
    } else {
        let tag = u32_at(f, c);
        let size = u32_at(f, c + 4) as int;
        if !known_tag(tag) {
            Some(Error::UnrecognizedSegment(i, tag))
        } else if tag == LC_SEGMENT {
            segment32_error(f, c, size, end)
        } else if tag == LC_SEGMENT_64 {
            segment64_error(f, c, size, end)
        } else if tag == LC_UNIXTHREAD {
            thread_error(f, c, size, end)
        } else if c + fixed_size(tag) > f.len() {
            Some(Error::TooShort)
        } else if c + size > end || c + fixed_size(tag) > end {
            Some(Error::SizeMismatch)
        } else {
            None
        }
    }
}

/// The first error among the first `n` records, if any.
pub open spec fn records_outcome(f: Seq<u8>, n: nat) -> Option<Error>
    decreases n,
{
    if n == 0 {
        None
    } else {
        match records_outcome(f, (n - 1) as nat) {
            Some(e) => Some(e),
            None => record_error(
                f,
                record_start(f, (n - 1) as nat),
                records_end(f),
                (n - 1) as usize,
            ),
        }
    }
}

/// The error that decoding `f` reports, or `None` where it succeeds.
pub open spec fn decode_outcome(f: Seq<u8>) -> Option<Error> {
    if f.len() < HEADER_SIZE {
        Some(Error::TooShort)
    } else if !Magic(u32_at(f, 0)).spec_is_valid() {
        Some(Error::UnknownMagic(u32_at(f, 0)))
    } else if f.len() < records_end(f) {
        Some(Error::TooShort)
    } else {
        match records_outcome(f, ncmds(f)) {
            Some(e) => Some(e),
            None => if record_start(f, ncmds(f)) != records_end(f) {
                Some(Error::SizeMismatch)
            } else {
                None
            },
        }
    }
}

/// Whether a section and its data were decoded from the descriptor at `s`.
pub open spec fn section32_parsed(sect: (Section32, Vec<u8>), f: Seq<u8>, s: int) -> bool {
    &&& sect.0.parsed(f, s)
    &&& sect.1@ == f.subrange(sect.0.offset as int, sect.0.offset + sect.0.size)
}

/// Whether a section and its data were decoded from the descriptor at `s`.
pub open spec fn section64_parsed(sect: (Section64, Vec<u8>), f: Seq<u8>, s: int) -> bool {
    &&& sect.0.parsed(f, s)
    &&& sect.1@ == f.subrange(sect.0.offset as int, sect.0.offset + sect.0.size)
}

/// Whether `lc` is what the record at `c` holds.
#[verifier::opaque]
pub open spec fn lc_parsed(lc: LC, f: Seq<u8>, c: int) -> bool {
    match lc {
        LC::Segment32(cmd, sects) => {
            &&& cmd.head.cmd.0 == LC_SEGMENT
            &&& cmd.parsed(f, c)
            &&& sects@.len() == cmd.body.nsects
            &&& forall|j: int|
                0 <= j < sects@.len() ==> section32_parsed(
                    #[trigger] sects@[j],
                    f,
                    c + SEGMENT32_SIZE + SECTION32_SIZE * j,
                )
        },
        LC::Segment64(cmd, sects) => {
            &&& cmd.head.cmd.0 == LC_SEGMENT_64
            &&& cmd.parsed(f, c)
            &&& sects@.len() == cmd.body.nsects
            &&& forall|j: int|
                0 <= j < sects@.len() ==> section64_parsed(
                    #[trigger] sects@[j],
                    f,
                    c + SEGMENT64_SIZE + SECTION64_SIZE * j,
                )
        },
        LC::UnixThread(cmd, ts) => {
            &&& cmd.head.cmd.0 == LC_UNIXTHREAD
            &&& cmd.parsed(f, c)
            &&& ts.parsed(f, c + UNIXTHREAD_SIZE)
            &&& (ts is ThreadStateX86 <==> cmd.body.flavor.0 == THREAD_STATE_X86)
        },
        LC::LoadDylinker(cmd, path) => {
            &&& cmd.head.cmd.0 == LC_LOAD_DYLINKER
            &&& cmd.parsed(f, c)
            &&& path@ == if cmd.head.cmdsize > fixed_size(LC_LOAD_DYLINKER) {
                f.subrange(c + fixed_size(LC_LOAD_DYLINKER), c + cmd.head.cmdsize)
            } else {
                Seq::empty()
            }
        },
        LC::Symtab(cmd) => cmd.head.cmd.0 == LC_SYMTAB && cmd.parsed(f, c),
        LC::DySymtab(cmd) => cmd.head.cmd.0 == LC_DYSYMTAB && cmd.parsed(f, c),
        LC::Uuid(cmd) => cmd.head.cmd.0 == LC_UUID && cmd.parsed(f, c),
        LC::VersionMinOS(cmd) => cmd.head.cmd.0 == LC_VERSION_MIN_OS && cmd.parsed(f, c),
        LC::SourceVersion(cmd) => cmd.head.cmd.0 == LC_SOURCE_VERSION && cmd.parsed(f, c),
    }
}

/// Whether `m` is what decoding `f` gives: `f` decodes without error, and
/// the header and each load command hold what `f` holds at their places.
pub open spec fn decoded(f: Seq<u8>, m: MachO) -> bool {
    &&& decode_outcome(f) is None
    &&& m.header.parsed(f, 0)
    &&& m.loads@.len() == ncmds(f)
    &&& forall|i: int|
        0 <= i < m.loads@.len() ==> lc_parsed(#[trigger] m.loads@[i], f, record_start(f, i as nat))
}

/// Whether decoding `f` gets as far as the record at index `i`: the header
/// is sound and every record before `i` decodes.
pub open spec fn stream_reaches(f: Seq<u8>, i: nat) -> bool {
    &&& f.len() >= HEADER_SIZE
    &&& Magic(u32_at(f, 0)).spec_is_valid()
    &&& f.len() >= records_end(f)
    &&& i < ncmds(f)
    &&& records_outcome(f, i) is None
}

/// Copies the `size` bytes of `file` at `offset`, or `None` where they do
/// not all lie within it.
pub fn load(file: &[u8], offset: u64, size: u64) -> (r: Option<Vec<u8>>)
    ensures
        r is Some <==> offset + size <= file@.len(),
        r matches Some(v) ==> v@ == file@.subrange(offset as int, offset + size),
{
    let len = file.len();
    if offset > len as u64 || size > len as u64 - offset {
        None
    } else {
        let start = offset as usize;
        let stop = start + size as usize;
        Some(slice_to_vec(slice_subrange(file, start, stop)))
    }
}

/// Decodes the `n` 32-bit section descriptors at `s` and copies their data.
fn read_sections32(file: &[u8], s: usize, n: u32) -> (r: Result<Vec<(Section32, Vec<u8>)>, Error>)
    requires
        s + SECTION32_SIZE * n <= file@.len(),
    ensures
        r matches Ok(v) ==> {
            &&& v@.len() == n
            &&& forall|j: int|
                0 <= j < n ==> section32_parsed(#[trigger] v@[j], file@, s + SECTION32_SIZE * j)
            &&& forall|j: int| 0 <= j < n ==> section32_in_file(file@, #[trigger] (s + SECTION32_SIZE * j))
        },
        r matches Err(e) ==> e == Error::TooShort && exists|j: int|
            0 <= j < n && !section32_in_file(file@, #[trigger] (s + SECTION32_SIZE * j)),
{
    let mut sections: Vec<(Section32, Vec<u8>)> = Vec::new();
    let len = file.len();
    let mut j: u32 = 0;
    while j < n
        invariant
            j <= n,
            len == file@.len(),
            s + SECTION32_SIZE * n <= file@.len(),
            sections@.len() == j,
            forall|k: int|
                0 <= k < j ==> section32_parsed(#[trigger] sections@[k], file@, s + SECTION32_SIZE * k),
            forall|k: int| 0 <= k < j ==> section32_in_file(file@, #[trigger] (s + SECTION32_SIZE * k)),
        decreases n - j,
    {
        assert(s + SECTION32_SIZE * j + SECTION32_SIZE <= s + SECTION32_SIZE * n) by (nonlinear_arith)
            requires j < n;
        let at = s + SECTION32_SIZE * (j as usize);
        let sect = Section32::read(file, at);
        match load(file, sect.offset as u64, sect.size as u64) {
            Some(data) => sections.push((sect, data)),
            None => return Err(Error::TooShort),
        }
        j = j + 1;
    }
    Ok(sections)
}

/// Decodes the `n` 64-bit section descriptors at `s` and copies their data.
fn read_sections64(file: &[u8], s: usize, n: u32) -> (r: Result<Vec<(Section64, Vec<u8>)>, Error>)
    requires
        s + SECTION64_SIZE * n <= file@.len(),
    ensures
        r matches Ok(v) ==> {
            &&& v@.len() == n
            &&& forall|j: int|
                0 <= j < n ==> section64_parsed(#[trigger] v@[j], file@, s + SECTION64_SIZE * j)
            &&& forall|j: int| 0 <= j < n ==> section64_in_file(file@, #[trigger] (s + SECTION64_SIZE * j))
        },
        r matches Err(e) ==> e == Error::TooShort && exists|j: int|
            0 <= j < n && !section64_in_file(file@, #[trigger] (s + SECTION64_SIZE * j)),
{
    let mut sections: Vec<(Section64, Vec<u8>)> = Vec::new();
    let len = file.len();
    let mut j: u32 = 0;
    while j < n
        invariant
            j <= n,
            len == file@.len(),
            s + SECTION64_SIZE * n <= file@.len(),
            sections@.len() == j,
            forall|k: int|
                0 <= k < j ==> section64_parsed(#[trigger] sections@[k], file@, s + SECTION64_SIZE * k),
            forall|k: int| 0 <= k < j ==> section64_in_file(file@, #[trigger] (s + SECTION64_SIZE * k)),
        decreases n - j,
    {
        assert(s + SECTION64_SIZE * j + SECTION64_SIZE <= s + SECTION64_SIZE * n) by (nonlinear_arith)
            requires j < n;
        let at = s + SECTION64_SIZE * (j as usize);
        let sect = Section64::read(file, at);
        match load(file, sect.offset as u64, sect.size) {
            Some(data) => sections.push((sect, data)),
            None => return Err(Error::TooShort),
        }
        j = j + 1;
    }
    Ok(sections)
}

/// Decodes the rest of the 32-bit segment command at `c`, of declared size
/// `size`, in a stream ending at `end`.
fn decode_segment32(file: &[u8], c: usize, size: usize, end: usize) -> (r: Result<LC, Error>)
    requires
        c + 8 <= file@.len(),
        end <= file@.len(),
        size == u32_at(file@, c + 4),
        u32_at(file@, c as int) == LC_SEGMENT,
    ensures
        r matches Err(e) ==> segment32_error(file@, c as int, size as int, end as int) == Some(e),
        r matches Ok(lc) ==> segment32_error(file@, c as int, size as int, end as int) is None
            && lc_parsed(lc, file@, c as int),
{
    reveal(lc_parsed);
    let len = file.len();
    if SEGMENT32_SIZE > len - c {
        return Err(Error::TooShort);
    }
    let cmd = LoadCommand::<LcSegment32>::read(file, c);
    let n = cmd.body.nsects;
    if (SEGMENT32_SIZE as u64) + (SECTION32_SIZE as u64) * (n as u64) != size as u64 {
        return Err(Error::SizeMismatch);
    }
    if c > end || size > end - c {
        return Err(Error::SizeMismatch);
    }
    match read_sections32(file, c + SEGMENT32_SIZE, n) {
        Ok(sections) => Ok(LC::Segment32(cmd, sections)),
        Err(e) => Err(e),
    }
}

/// Decodes the rest of the 64-bit segment command at `c`, of declared size
/// `size`, in a stream ending at `end`.
fn decode_segment64(file: &[u8], c: usize, size: usize, end: usize) -> (r: Result<LC, Error>)
    requires
        c + 8 <= file@.len(),
        end <= file@.len(),
        size == u32_at(file@, c + 4),
        u32_at(file@, c as int) == LC_SEGMENT_64,
    ensures
        r matches Err(e) ==> segment64_error(file@, c as int, size as int, end as int) == Some(e),
        r matches Ok(lc) ==> segment64_error(file@, c as int, size as int, end as int) is None
            && lc_parsed(lc, file@, c as int),
{
    reveal(lc_parsed);
    let len = file.len();
    if SEGMENT64_SIZE > len - c {
        return Err(Error::TooShort);
    }
    let cmd = LoadCommand::<LcSegment64>::read(file, c);
    let n = cmd.body.nsects;
    if (SEGMENT64_SIZE as u64) + (SECTION64_SIZE as u64) * (n as u64) != size as u64 {
        return Err(Error::SizeMismatch);
    }
    if c > end || size > end - c {
        return Err(Error::SizeMismatch);
    }
    match read_sections64(file, c + SEGMENT64_SIZE, n) {
        Ok(sections) => Ok(LC::Segment64(cmd, sections)),
        Err(e) => Err(e),
    }
}

/// Decodes the rest of the thread state command at `c`, of declared size
/// `size`, in a stream ending at `end`.
fn decode_thread(file: &[u8], c: usize, size: usize, end: usize) -> (r: Result<LC, Error>)
    requires
        c + 8 <= file@.len(),
        end <= file@.len(),
        size == u32_at(file@, c + 4),
        u32_at(file@, c as int) == LC_UNIXTHREAD,
    ensures
        r matches Err(e) ==> thread_error(file@, c as int, size as int, end as int) == Some(e),
        r matches Ok(lc) ==> thread_error(file@, c as int, size as int, end as int) is None
            && lc_parsed(lc, file@, c as int),
{
    reveal(lc_parsed);
    let len = file.len();
    if UNIXTHREAD_SIZE > len - c {
        return Err(Error::TooShort);
    }
    let cmd = LoadCommand::<LcUnixThreadHead>::read(file, c);
    let flavor = cmd.body.flavor.0;
    let count = cmd.body.count;
    let regs = if flavor == THREAD_STATE_X86 && count == THREAD_STATE_X86_COUNT {
        X86_REGS_SIZE
    } else if flavor == THREAD_STATE_X86_64 && count == THREAD_STATE_X86_64_COUNT {
        X86_64_REGS_SIZE
    } else {
        return Err(Error::UnrecognizedThreadState(flavor, count));
    };
    if UNIXTHREAD_SIZE + regs > len - c {
        return Err(Error::TooShort);
    }
    if c > end || size > end - c || UNIXTHREAD_SIZE + regs > end - c {
        return Err(Error::SizeMismatch);
    }
    let state = if regs == X86_REGS_SIZE {
        ThreadState::read_x86(file, c + UNIXTHREAD_SIZE)
    } else {
        ThreadState::read_x86_64(file, c + UNIXTHREAD_SIZE)
    };
    Ok(LC::UnixThread(cmd, state))
}

/// Decodes the record at `c`, index `i`, of a stream ending at `end`.
fn decode_record(file: &[u8], c: usize, end: usize, i: usize) -> (r: Result<LC, Error>)
    requires
        c <= end <= file@.len(),
    ensures
        r matches Err(e) ==> record_error(file@, c as int, end as int, i) == Some(e),
        r matches Ok(lc) ==> record_error(file@, c as int, end as int, i) is None && lc_parsed(
            lc,
            file@,
            c as int,
        ),
        r is Ok ==> c + 8 <= end && c + u32_at(file@, c + 4) <= end,
{
    reveal(lc_parsed);
    reveal(record_error);
    let len = file.len();
    if len - c < 8 {
        return Err(Error::TooShort);
    }
    let head = LoadCommandHead::read(file, c);
    let tag = head.cmd.0;
    let size = head.cmdsize as usize;
    if !(tag == LC_SEGMENT || tag == LC_SYMTAB || tag == LC_UNIXTHREAD || tag == LC_DYSYMTAB
        || tag == LC_LOAD_DYLINKER || tag == LC_SEGMENT_64 || tag == LC_UUID
        || tag == LC_VERSION_MIN_OS || tag == LC_SOURCE_VERSION) {
        return Err(Error::UnrecognizedSegment(i, tag));
    }
    if tag == LC_SEGMENT {
        return decode_segment32(file, c, size, end);
    } else if tag == LC_SEGMENT_64 {
        return decode_segment64(file, c, size, end);
    } else if tag == LC_UNIXTHREAD {
        return decode_thread(file, c, size, end);
    }
    let fixed: usize = if tag == LC_SYMTAB {
        24
    } else if tag == LC_DYSYMTAB {
        80
    } else if tag == LC_LOAD_DYLINKER {
        12
    } else if tag == LC_UUID {
        24
    } else {
        16
    };
    if fixed > len - c {
        return Err(Error::TooShort);
    }
    if size > end - c || fixed > end - c {
        return Err(Error::SizeMismatch);
    }
    if tag == LC_SYMTAB {
        Ok(LC::Symtab(LoadCommand::<LcSymtab>::read(file, c)))
    } else if tag == LC_DYSYMTAB {
        Ok(LC::DySymtab(LoadCommand::<LcDySymtab>::read(file, c)))
    } else if tag == LC_LOAD_DYLINKER {
        let cmd = LoadCommand::<LcLoadDylinker>::read(file, c);
        let path = if size > fixed {
            slice_to_vec(slice_subrange(file, c + fixed, c + size))
        } else {
            Vec::new()
        };
        Ok(LC::LoadDylinker(cmd, path))
    } else if tag == LC_UUID {
        Ok(LC::Uuid(LoadCommand::<LcUuid>::read(file, c)))
    } else if tag == LC_VERSION_MIN_OS {
        Ok(LC::VersionMinOS(LoadCommand::<LcVersionMinOS>::read(file, c)))
    } else {
        Ok(LC::SourceVersion(LoadCommand::<LcSourceVersion>::read(file, c)))
    }
}

/// Once a record fails, the outcome of every longer stream is that failure.
pub proof fn lemma_first_error_stays(f: Seq<u8>, k: nat, m: nat)
    requires
        k <= m,
        records_outcome(f, k) is Some,
    ensures
        records_outcome(f, m) == records_outcome(f, k),
    decreases m - k,
{
    if k < m {
        lemma_first_error_stays(f, k, (m - 1) as nat);
    }
}

/// Decodes a Mach-O image: its header, then each of its load commands in
/// order. The first error ends the decoding.
pub fn decode_macho(file: &[u8]) -> (r: Result<MachO, Error>)
    ensures
        r matches Err(e) ==> decode_outcome(file@) == Some(e),
        r matches Ok(m) ==> decoded(file@, m),
{
    let len = file.len();
    if len < HEADER_SIZE {
        return Err(Error::TooShort);
    }
    let h = Header::read(file, 0);
    let hsize = if h.magic.0 == MAGIC_32 {
        HEADER_SIZE
    } else if h.magic.0 == MAGIC_64 {
        HEADER64_SIZE
    } else {
        return Err(Error::UnknownMagic(h.magic.0));
    };
    if (len as u64) < (hsize as u64) + (h.sizeofcmds as u64) {
        return Err(Error::TooShort);
    }
    let end = hsize + h.sizeofcmds as usize;
    let n = h.ncmds as usize;
    let mut loads: Vec<LC> = Vec::new();
    let mut offset = hsize;
    let mut i: usize = 0;
    while i < n
        invariant
            len == file@.len(),
            hsize == header_size(file@),
            Magic(u32_at(file@, 0)).spec_is_valid(),
            end == records_end(file@),
            end <= len,
            n == ncmds(file@),
            h.parsed(file@, 0),
            i <= n,
            offset <= end,
            offset == record_start(file@, i as nat),
            records_outcome(file@, i as nat) is None,
            loads@.len() == i,
            forall|k: int|
                0 <= k < i ==> lc_parsed(#[trigger] loads@[k], file@, record_start(file@, k as nat)),
        decreases n - i,
    {
        match decode_record(file, offset, end, i) {
            Err(e) => {
                proof {
                    let ghost next = (i + 1) as nat;
                    assert(records_outcome(file@, next) == Some(e));
                    lemma_first_error_stays(file@, next, n as nat);
                }
                return Err(e);
            },
            Ok(lc) => {
                let size = field32(file, offset + 4);
                proof {
                    let ghost next = (i + 1) as nat;
                    assert(record_start(file@, next) == offset + size);
                    assert(records_outcome(file@, next) is None);
                }
                loads.push(lc);
                offset = offset + size as usize;
            },
        }
        i = i + 1;
    }
    if offset != end {
        return Err(Error::SizeMismatch);
    }
    Ok(MachO { header: h, loads })
}

} // verus!
