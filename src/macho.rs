//! The Mach-O layout: headers, load commands, segments and sections, each
//! with a reader that decodes it from a byte buffer at a given offset.
//!
//! All fields are little-endian. A value is `parsed` at an offset when each
//! of its fields equals the bytes found at that field's place.

use vstd::prelude::*;
use crate::bytes::{le_u32, le_u64, read_le_u32, read_le_u64};

verus! {

/// A 16-byte name field, padded with zero bytes.
pub type U8N16 = [u8; 16];

/// Memory protection bits of a segment.
pub type VmProt = u32;

/// The magic number of a 32-bit Mach-O header.
pub const MAGIC_32: u32 = 0xfeedface;

/// The magic number of a 64-bit Mach-O header.
pub const MAGIC_64: u32 = 0xfeedfacf;

/// The 32-bit field at `off`.
pub open spec fn u32_at(b: Seq<u8>, off: int) -> u32 {
    le_u32(b, off) as u32
}

/// The 64-bit field at `off`.
pub open spec fn u64_at(b: Seq<u8>, off: int) -> u64 {
    le_u64(b, off) as u64
}

/// Reads a 32-bit field.
pub(crate) fn field32(b: &[u8], off: usize) -> (r: u32)
    requires
        off + 4 <= b@.len(),
    ensures
        r == u32_at(b@, off as int),
{
    let r = read_le_u32(b, off);
    assert(0 <= le_u32(b@, off as int) < 0x1_0000_0000) by (nonlinear_arith)
        requires
            r as int == le_u32(b@, off as int),
    ;
    r
}

/// Reads a 64-bit field.
pub(crate) fn field64(b: &[u8], off: usize) -> (r: u64)
    requires
        off + 8 <= b@.len(),
    ensures
        r == u64_at(b@, off as int),
{
    let r = read_le_u64(b, off);
    assert(0 <= le_u64(b@, off as int) < 0x1_0000_0000_0000_0000) by (nonlinear_arith)
        requires
            r as int == le_u64(b@, off as int),
    ;
    r
}

/// Copies the 16-byte name field at `off`.
fn read_name(b: &[u8], off: usize) -> (r: U8N16)
    requires
        off + 16 <= b@.len(),
    ensures
        r@ == b@.subrange(off as int, off + 16),
{
    let mut r: U8N16 = [0u8; 16];
    let n = b.len();
    let mut k: usize = 0;
    while k < 16
        invariant
            k <= 16,
            n == b@.len(),
            off + 16 <= b@.len(),
            r@.len() == 16,
            forall|j: int| 0 <= j < k ==> r@[j] == b@[off + j],
        decreases 16 - k,
    {
        r[k] = b[off + k];
        k = k + 1;
    }
    assert(r@ =~= b@.subrange(off as int, off + 16));
    r
}

/// Indicates a 32 or 64-bit Mach-O file.
#[derive(Clone, Copy, Debug, PartialEq, Eq, Structural)]
pub struct Magic(pub u32);

impl Magic {
    /// Whether this is one of the two recognized magic numbers.
    pub open spec fn spec_is_valid(self) -> bool {
        self.0 == MAGIC_32 || self.0 == MAGIC_64
    }

    pub fn is_valid(&self) -> (r: bool)
        ensures
            r == self.spec_is_valid(),
    {
        self.0 == MAGIC_32 || self.0 == MAGIC_64
    }
}

/// Indicates the architecture you intend to use the file on.
#[derive(Clone, Copy, Debug, PartialEq, Eq, Structural)]
pub enum CpuType {
    X86,
    X86_64,
    PowerPc,
    PowerPc64,
}

/// The flag that marks a 64-bit ABI in a CPU type.
pub const ARCH_ABI64: u32 = 0x0100_0000;

impl CpuType {
    pub open spec fn spec_code(self) -> u32 {
        match self {
            CpuType::X86 => 7,
            CpuType::X86_64 => 7 | ARCH_ABI64,
            CpuType::PowerPc => 18,
            CpuType::PowerPc64 => 18 | ARCH_ABI64,
        }
    }

    /// The value of this CPU type in a header.
    pub fn code(&self) -> (r: u32)
        ensures
            r == self.spec_code(),
    {
        match self {
            CpuType::X86 => 7,
            CpuType::X86_64 => 7 | ARCH_ABI64,
            CpuType::PowerPc => 18,
            CpuType::PowerPc64 => 18 | ARCH_ABI64,
        }
    }

    /// The CPU type whose header value is `v`, if any.
    pub fn from_code(v: u32) -> (r: Option<CpuType>)
        ensures
            r matches Some(t) ==> t.spec_code() == v,
            r is None ==> forall|t: CpuType| t.spec_code() != v,
    {
        assert((7u32 | ARCH_ABI64) == 0x0100_0007u32) by (bit_vector);
        assert((18u32 | ARCH_ABI64) == 0x0100_0012u32) by (bit_vector);
        if v == 7 {
            Some(CpuType::X86)
        } else if v == 0x0100_0007 {
            Some(CpuType::X86_64)
        } else if v == 18 {
            Some(CpuType::PowerPc)
        } else if v == 0x0100_0012 {
            Some(CpuType::PowerPc64)
        } else {
            None
        }
    }
}

/// The exact model of the CPU.
#[derive(Clone, Copy, Debug, PartialEq, Eq, Structural)]
pub enum CpuSubtype {
    Any,
    I386All,
    X86_64hAll,
}

impl CpuSubtype {
    pub open spec fn spec_code(self) -> u32 {
        match self {
            CpuSubtype::Any => 0xffff_ffff,
            CpuSubtype::I386All => 3,
            CpuSubtype::X86_64hAll => 8,
        }
    }

    /// The value of this CPU subtype in a header.
    pub fn code(&self) -> (r: u32)
        ensures
            r == self.spec_code(),
    {
        match self {
            CpuSubtype::Any => 0xffff_ffff,
            CpuSubtype::I386All => 3,
            CpuSubtype::X86_64hAll => 8,
        }
    }

    /// The CPU subtype whose header value is `v`, if any.
    pub fn from_code(v: u32) -> (r: Option<CpuSubtype>)
        ensures
            r matches Some(t) ==> t.spec_code() == v,
            r is None ==> forall|t: CpuSubtype| t.spec_code() != v,
    {
        if v == 0xffff_ffff {
            Some(CpuSubtype::Any)
        } else if v == 3 {
            Some(CpuSubtype::I386All)
        } else if v == 8 {
            Some(CpuSubtype::X86_64hAll)
        } else {
            None
        }
    }
}

/// The purpose of the file.
#[derive(Clone, Copy, Debug, PartialEq, Eq, Structural)]
pub enum Filetype {
    Object,
    Execute,
}

impl Filetype {
    pub open spec fn spec_code(self) -> u32 {
        match self {
            Filetype::Object => 1,
            Filetype::Execute => 2,
        }
    }

    /// The value of this file type in a header.
    pub fn code(&self) -> (r: u32)
        ensures
            r == self.spec_code(),
    {
        match self {
            Filetype::Object => 1,
            Filetype::Execute => 2,
        }
    }

    /// The file type whose header value is `v`, if any.
    pub fn from_code(v: u32) -> (r: Option<Filetype>)
        ensures
            r matches Some(t) ==> t.spec_code() == v,
            r is None ==> forall|t: Filetype| t.spec_code() != v,
    {
        if v == 1 {
            Some(Filetype::Object)
        } else if v == 2 {
            Some(Filetype::Execute)
        } else {
            None
        }
    }
}

/// Certain optional features.
#[derive(Clone, Copy, Debug, PartialEq, Eq, Structural)]
pub enum Flags {
    Noundefs,
    IncrLink,
    DyldLink,
}

impl Flags {
    pub open spec fn spec_code(self) -> u32 {
        match self {
            Flags::Noundefs => 1,
            Flags::IncrLink => 2,
            Flags::DyldLink => 3,
        }
    }

    /// The value of this flag in a header.
    pub fn code(&self) -> (r: u32)
        ensures
            r == self.spec_code(),
    {
        match self {
            Flags::Noundefs => 1,
            Flags::IncrLink => 2,
            Flags::DyldLink => 3,
        }
    }

    /// The flag whose header value is `v`, if any.
    pub fn from_code(v: u32) -> (r: Option<Flags>)
        ensures
            r matches Some(t) ==> t.spec_code() == v,
            r is None ==> forall|t: Flags| t.spec_code() != v,
    {
        if v == 1 {
            Some(Flags::Noundefs)
        } else if v == 2 {
            Some(Flags::IncrLink)
        } else if v == 3 {
            Some(Flags::DyldLink)
        } else {
            None
        }
    }
}

/// The tag of a load command.
#[derive(Clone, Copy, Debug, PartialEq, Eq, Structural)]
pub struct LoadCommandType(pub u32);

pub const LC_SEGMENT: u32 = 0x1;
pub const LC_SYMTAB: u32 = 0x2;
pub const LC_UNIXTHREAD: u32 = 0x5;
pub const LC_DYSYMTAB: u32 = 0xb;
pub const LC_LOAD_DYLINKER: u32 = 0xe;
pub const LC_SEGMENT_64: u32 = 0x19;
pub const LC_UUID: u32 = 0x1b;
pub const LC_VERSION_MIN_OS: u32 = 0x24;
pub const LC_SOURCE_VERSION: u32 = 0x2a;

/// The flavor of a thread state.
#[derive(Clone, Copy, Debug, PartialEq, Eq, Structural)]
pub struct ThreadStateFlavor(pub u32);

/// The flavor of a 32-bit x86 thread state: 16 words of registers.
pub const THREAD_STATE_X86: u32 = 1;

/// The number of 32-bit words of a 32-bit x86 thread state.
pub const THREAD_STATE_X86_COUNT: u32 = 16;

/// The flavor of an x86-64 thread state: 21 registers of 64 bits.
pub const THREAD_STATE_X86_64: u32 = 4;

/// The number of 32-bit words of an x86-64 thread state.
pub const THREAD_STATE_X86_64_COUNT: u32 = 42;

/// The offset of a string, from the start of the load command holding it.
#[derive(Clone, Copy, Debug)]
pub struct LcStr {
    pub offset: u32,
}

/// The fixed part of a load command after its head.
pub trait LoadCommandBody: Sized {
    /// The number of bytes this layout occupies.
    spec fn spec_size() -> nat;

    /// Whether each field holds the bytes at its place after `off`.
    spec fn parsed(&self, b: Seq<u8>, off: int) -> bool;

    /// Decodes this layout at `off`.
    fn read(b: &[u8], off: usize) -> (r: Self)
        requires
            off + Self::spec_size() <= b@.len(),
        ensures
            r.parsed(b@, off as int),
    ;
}

/// The header of a 32-bit Mach-O file.
#[derive(Clone, Copy, Debug)]
pub struct Header {
    pub magic: Magic,
    /// A `CpuType` value.
    pub cputype: u32,
    /// A `CpuSubtype` value.
    pub cpusubtype: u32,
    /// A `Filetype` value.
    pub filetype: u32,
    /// The number of load commands following the header.
    pub ncmds: u32,
    /// The number of bytes occupied by the load commands.
    pub sizeofcmds: u32,
    /// `Flags` bits.
    pub flags: u32,
}

impl Header {
    /// The number of bytes this layout occupies.
    pub open spec fn spec_size() -> nat {
        28
    }

    /// Whether each field holds the bytes at its place after `off`.
    pub open spec fn parsed(&self, b: Seq<u8>, off: int) -> bool {
        &&& self.magic.0 == u32_at(b, off + 0)
        &&& self.cputype == u32_at(b, off + 4)
        &&& self.cpusubtype == u32_at(b, off + 8)
        &&& self.filetype == u32_at(b, off + 12)
        &&& self.ncmds == u32_at(b, off + 16)
        &&& self.sizeofcmds == u32_at(b, off + 20)
        &&& self.flags == u32_at(b, off + 24)
    }

    /// Decodes this layout at `off`.
    pub fn read(b: &[u8], off: usize) -> (r: Self)
        requires
            off + Self::spec_size() <= b@.len(),
        ensures
            r.parsed(b@, off as int),
    {
        let _len: usize = b.len();
        Header {
            magic: Magic(field32(b, off + 0)),
            cputype: field32(b, off + 4),
            cpusubtype: field32(b, off + 8),
            filetype: field32(b, off + 12),
            ncmds: field32(b, off + 16),
            sizeofcmds: field32(b, off + 20),
            flags: field32(b, off + 24),
        }
    }
}

/// The header of a 64-bit Mach-O file: the 32-bit one and a reserved word.
#[derive(Clone, Copy, Debug)]
pub struct Header64 {
    pub magic: Magic,
    /// A `CpuType` value.
    pub cputype: u32,
    /// A `CpuSubtype` value.
    pub cpusubtype: u32,
    /// A `Filetype` value.
    pub filetype: u32,
    /// The number of load commands following the header.
    pub ncmds: u32,
    /// The number of bytes occupied by the load commands.
    pub sizeofcmds: u32,
    /// `Flags` bits.
    pub flags: u32,
    pub reserved: u32,
}

impl Header64 {
    /// The number of bytes this layout occupies.
    pub open spec fn spec_size() -> nat {
        32
    }

    /// Whether each field holds the bytes at its place after `off`.
    pub open spec fn parsed(&self, b: Seq<u8>, off: int) -> bool {
        &&& self.magic.0 == u32_at(b, off + 0)
        &&& self.cputype == u32_at(b, off + 4)
        &&& self.cpusubtype == u32_at(b, off + 8)
        &&& self.filetype == u32_at(b, off + 12)
        &&& self.ncmds == u32_at(b, off + 16)
        &&& self.sizeofcmds == u32_at(b, off + 20)
        &&& self.flags == u32_at(b, off + 24)
        &&& self.reserved == u32_at(b, off + 28)
    }

    /// Decodes this layout at `off`.
    pub fn read(b: &[u8], off: usize) -> (r: Self)
        requires
            off + Self::spec_size() <= b@.len(),
        ensures
            r.parsed(b@, off as int),
    {
        let _len: usize = b.len();
        Header64 {
            magic: Magic(field32(b, off + 0)),
            cputype: field32(b, off + 4),
            cpusubtype: field32(b, off + 8),
            filetype: field32(b, off + 12),
            ncmds: field32(b, off + 16),
            sizeofcmds: field32(b, off + 20),
            flags: field32(b, off + 24),
            reserved: field32(b, off + 28),
        }
    }
}

/// The tag and the declared size, in bytes, that open every load command.
#[derive(Clone, Copy, Debug)]
pub struct LoadCommandHead {
    pub cmd: LoadCommandType,
    pub cmdsize: u32,
}

impl LoadCommandHead {
    /// The number of bytes this layout occupies.
    pub open spec fn spec_size() -> nat {
        8
    }

    /// Whether each field holds the bytes at its place after `off`.
    pub open spec fn parsed(&self, b: Seq<u8>, off: int) -> bool {
        &&& self.cmd.0 == u32_at(b, off + 0)
        &&& self.cmdsize == u32_at(b, off + 4)
    }

    /// Decodes this layout at `off`.
    pub fn read(b: &[u8], off: usize) -> (r: Self)
        requires
            off + Self::spec_size() <= b@.len(),
        ensures
            r.parsed(b@, off as int),
    {
        let _len: usize = b.len();
        LoadCommandHead {
            cmd: LoadCommandType(field32(b, off + 0)),
            cmdsize: field32(b, off + 4),
        }
    }
}

/// A 32-bit segment. File offsets are from the absolute beginning of the file.
#[derive(Clone, Copy, Debug)]
pub struct LcSegment32 {
    pub segname: U8N16,
    pub vmaddr: u32,
    pub vmsize: u32,
    pub fileoff: u32,
    pub filesize: u32,
    pub maxprot: VmProt,
    pub initprot: VmProt,
    /// The number of section descriptors that follow.
    pub nsects: u32,
    pub flags: u32,
}

impl LoadCommandBody for LcSegment32 {
    open spec fn spec_size() -> nat {
        48
    }

    open spec fn parsed(&self, b: Seq<u8>, off: int) -> bool {
        &&& self.segname@ == b.subrange(off + 0, off + 16)
        &&& self.vmaddr == u32_at(b, off + 16)
        &&& self.vmsize == u32_at(b, off + 20)
        &&& self.fileoff == u32_at(b, off + 24)
        &&& self.filesize == u32_at(b, off + 28)
        &&& self.maxprot == u32_at(b, off + 32)
        &&& self.initprot == u32_at(b, off + 36)
        &&& self.nsects == u32_at(b, off + 40)
        &&& self.flags == u32_at(b, off + 44)
    }

    fn read(b: &[u8], off: usize) -> (r: Self) {
        let _len: usize = b.len();
        LcSegment32 {
            segname: read_name(b, off + 0),
            vmaddr: field32(b, off + 16),
            vmsize: field32(b, off + 20),
            fileoff: field32(b, off + 24),
            filesize: field32(b, off + 28),
            maxprot: field32(b, off + 32),
            initprot: field32(b, off + 36),
            nsects: field32(b, off + 40),
            flags: field32(b, off + 44),
        }
    }
}

/// A 64-bit segment. File offsets are from the absolute beginning of the file.
#[derive(Clone, Copy, Debug)]
pub struct LcSegment64 {
    pub segname: U8N16,
    pub vmaddr: u64,
    pub vmsize: u64,
    pub fileoff: u64,
    pub filesize: u64,
    pub maxprot: VmProt,
    pub initprot: VmProt,
    /// The number of section descriptors that follow.
    pub nsects: u32,
    pub flags: u32,
}

impl LoadCommandBody for LcSegment64 {
    open spec fn spec_size() -> nat {
        64
    }

    open spec fn parsed(&self, b: Seq<u8>, off: int) -> bool {
        &&& self.segname@ == b.subrange(off + 0, off + 16)
        &&& self.vmaddr == u64_at(b, off + 16)
        &&& self.vmsize == u64_at(b, off + 24)
        &&& self.fileoff == u64_at(b, off + 32)
        &&& self.filesize == u64_at(b, off + 40)
        &&& self.maxprot == u32_at(b, off + 48)
        &&& self.initprot == u32_at(b, off + 52)
        &&& self.nsects == u32_at(b, off + 56)
        &&& self.flags == u32_at(b, off + 60)
    }

    fn read(b: &[u8], off: usize) -> (r: Self) {
        let _len: usize = b.len();
        LcSegment64 {
            segname: read_name(b, off + 0),
            vmaddr: field64(b, off + 16),
            vmsize: field64(b, off + 24),
            fileoff: field64(b, off + 32),
            filesize: field64(b, off + 40),
            maxprot: field32(b, off + 48),
            initprot: field32(b, off + 52),
            nsects: field32(b, off + 56),
            flags: field32(b, off + 60),
        }
    }
}

/// The symbol table; carried, not interpreted.
#[derive(Clone, Copy, Debug)]
pub struct LcSymtab {
    pub symoff: u32,
    pub nsyms: u32,
    pub stroff: u32,
    pub strsize: u32,
}

impl LoadCommandBody for LcSymtab {
    open spec fn spec_size() -> nat {
        16
    }

    open spec fn parsed(&self, b: Seq<u8>, off: int) -> bool {
        &&& self.symoff == u32_at(b, off + 0)
        &&& self.nsyms == u32_at(b, off + 4)
        &&& self.stroff == u32_at(b, off + 8)
        &&& self.strsize == u32_at(b, off + 12)
    }

    fn read(b: &[u8], off: usize) -> (r: Self) {
        let _len: usize = b.len();
        LcSymtab {
            symoff: field32(b, off + 0),
            nsyms: field32(b, off + 4),
            stroff: field32(b, off + 8),
            strsize: field32(b, off + 12),
        }
    }
}

/// The head of the initial thread state.
#[derive(Clone, Copy, Debug)]
pub struct LcUnixThreadHead {
    /// The architecture-flavor of thread state data.
    pub flavor: ThreadStateFlavor,
    /// Size of thread state data in u32s.
    pub count: u32,
}

impl LoadCommandBody for LcUnixThreadHead {
    open spec fn spec_size() -> nat {
        8
    }

    open spec fn parsed(&self, b: Seq<u8>, off: int) -> bool {
        &&& self.flavor.0 == u32_at(b, off + 0)
        &&& self.count == u32_at(b, off + 4)
    }

    fn read(b: &[u8], off: usize) -> (r: Self) {
        let _len: usize = b.len();
        LcUnixThreadHead {
            flavor: ThreadStateFlavor(field32(b, off + 0)),
            count: field32(b, off + 4),
        }
    }
}

/// The dynamic symbol table; its presence marks a dynamically linked image.
#[derive(Clone, Copy, Debug)]
pub struct LcDySymtab {
    pub ilocalsym: u32,
    pub nlocalsym: u32,
    pub iextdefsym: u32,
    pub nextdefsym: u32,
    pub iundefsym: u32,
    pub nundefsym: u32,
    pub tocoff: u32,
    pub ntoc: u32,
    pub modtaboff: u32,
    pub nmodtab: u32,
    pub extrefsymoff: u32,
    pub nextrefsyms: u32,
    pub indirectsymoff: u32,
    pub nindirectsyms: u32,
    pub extreloff: u32,
    pub nextrel: u32,
    pub locreloff: u32,
    pub nlocrel: u32,
}

impl LoadCommandBody for LcDySymtab {
    open spec fn spec_size() -> nat {
        72
    }

    open spec fn parsed(&self, b: Seq<u8>, off: int) -> bool {
        &&& self.ilocalsym == u32_at(b, off + 0)
        &&& self.nlocalsym == u32_at(b, off + 4)
        &&& self.iextdefsym == u32_at(b, off + 8)
        &&& self.nextdefsym == u32_at(b, off + 12)
        &&& self.iundefsym == u32_at(b, off + 16)
        &&& self.nundefsym == u32_at(b, off + 20)
        &&& self.tocoff == u32_at(b, off + 24)
        &&& self.ntoc == u32_at(b, off + 28)
        &&& self.modtaboff == u32_at(b, off + 32)
        &&& self.nmodtab == u32_at(b, off + 36)
        &&& self.extrefsymoff == u32_at(b, off + 40)
        &&& self.nextrefsyms == u32_at(b, off + 44)
        &&& self.indirectsymoff == u32_at(b, off + 48)
        &&& self.nindirectsyms == u32_at(b, off + 52)
        &&& self.extreloff == u32_at(b, off + 56)
        &&& self.nextrel == u32_at(b, off + 60)
        &&& self.locreloff == u32_at(b, off + 64)
        &&& self.nlocrel == u32_at(b, off + 68)
    }

    fn read(b: &[u8], off: usize) -> (r: Self) {
        let _len: usize = b.len();
        LcDySymtab {
            ilocalsym: field32(b, off + 0),
            nlocalsym: field32(b, off + 4),
            iextdefsym: field32(b, off + 8),
            nextdefsym: field32(b, off + 12),
            iundefsym: field32(b, off + 16),
            nundefsym: field32(b, off + 20),
            tocoff: field32(b, off + 24),
            ntoc: field32(b, off + 28),
            modtaboff: field32(b, off + 32),
            nmodtab: field32(b, off + 36),
            extrefsymoff: field32(b, off + 40),
            nextrefsyms: field32(b, off + 44),
            indirectsymoff: field32(b, off + 48),
            nindirectsyms: field32(b, off + 52),
            extreloff: field32(b, off + 56),
            nextrel: field32(b, off + 60),
            locreloff: field32(b, off + 64),
            nlocrel: field32(b, off + 68),
        }
    }
}

/// The dynamic linker to load; its presence marks a dynamically linked image.
#[derive(Clone, Copy, Debug)]
pub struct LcLoadDylinker {
    /// Where the path starts, from the start of the command.
    pub name: LcStr,
}

impl LoadCommandBody for LcLoadDylinker {
    open spec fn spec_size() -> nat {
        4
    }

    open spec fn parsed(&self, b: Seq<u8>, off: int) -> bool {
        &&& self.name.offset == u32_at(b, off + 0)
    }

    fn read(b: &[u8], off: usize) -> (r: Self) {
        let _len: usize = b.len();
        LcLoadDylinker {
            name: LcStr { offset: field32(b, off + 0) },
        }
    }
}

/// The image's UUID.
#[derive(Clone, Copy, Debug)]
pub struct LcUuid {
    pub uuid: U8N16,
}

impl LoadCommandBody for LcUuid {
    open spec fn spec_size() -> nat {
        16
    }

    open spec fn parsed(&self, b: Seq<u8>, off: int) -> bool {
        &&& self.uuid@ == b.subrange(off + 0, off + 16)
    }

    fn read(b: &[u8], off: usize) -> (r: Self) {
        let _len: usize = b.len();
        LcUuid {
            uuid: read_name(b, off + 0),
        }
    }
}

/// The minimum OS version.
#[derive(Clone, Copy, Debug)]
pub struct LcVersionMinOS {
    pub version: u32,
    pub sdk: u32,
}

impl LoadCommandBody for LcVersionMinOS {
    open spec fn spec_size() -> nat {
        8
    }

    open spec fn parsed(&self, b: Seq<u8>, off: int) -> bool {
        &&& self.version == u32_at(b, off + 0)
        &&& self.sdk == u32_at(b, off + 4)
    }

    fn read(b: &[u8], off: usize) -> (r: Self) {
        let _len: usize = b.len();
        LcVersionMinOS {
            version: field32(b, off + 0),
            sdk: field32(b, off + 4),
        }
    }
}

/// The source version, A.B.C.D.E packed as a24.b10.c10.d10.e10.
#[derive(Clone, Copy, Debug)]
pub struct LcSourceVersion {
    pub version: u64,
}

impl LoadCommandBody for LcSourceVersion {
    open spec fn spec_size() -> nat {
        8
    }

    open spec fn parsed(&self, b: Seq<u8>, off: int) -> bool {
        &&& self.version == u64_at(b, off + 0)
    }

    fn read(b: &[u8], off: usize) -> (r: Self) {
        let _len: usize = b.len();
        LcSourceVersion {
            version: field64(b, off + 0),
        }
    }
}

/// A section of a 32-bit segment.
#[derive(Clone, Copy, Debug)]
pub struct Section32 {
    pub sectname: U8N16,
    pub segname: U8N16,
    pub addr: u32,
    pub size: u32,
    pub offset: u32,
    pub align: u32,
    pub reloff: u32,
    pub nreloc: u32,
    pub flags: u32,
    pub reserved1: u32,
    pub reserved2: u32,
}

impl Section32 {
    /// The number of bytes this layout occupies.
    pub open spec fn spec_size() -> nat {
        68
    }

    /// Whether each field holds the bytes at its place after `off`.
    pub open spec fn parsed(&self, b: Seq<u8>, off: int) -> bool {
        &&& self.sectname@ == b.subrange(off + 0, off + 16)
        &&& self.segname@ == b.subrange(off + 16, off + 32)
        &&& self.addr == u32_at(b, off + 32)
        &&& self.size == u32_at(b, off + 36)
        &&& self.offset == u32_at(b, off + 40)
        &&& self.align == u32_at(b, off + 44)
        &&& self.reloff == u32_at(b, off + 48)
        &&& self.nreloc == u32_at(b, off + 52)
        &&& self.flags == u32_at(b, off + 56)
        &&& self.reserved1 == u32_at(b, off + 60)
        &&& self.reserved2 == u32_at(b, off + 64)
    }

    /// Decodes this layout at `off`.
    pub fn read(b: &[u8], off: usize) -> (r: Self)
        requires
            off + Self::spec_size() <= b@.len(),
        ensures
            r.parsed(b@, off as int),
    {
        let _len: usize = b.len();
        Section32 {
            sectname: read_name(b, off + 0),
            segname: read_name(b, off + 16),
            addr: field32(b, off + 32),
            size: field32(b, off + 36),
            offset: field32(b, off + 40),
            align: field32(b, off + 44),
            reloff: field32(b, off + 48),
            nreloc: field32(b, off + 52),
            flags: field32(b, off + 56),
            reserved1: field32(b, off + 60),
            reserved2: field32(b, off + 64),
        }
    }
}

/// A section of a 64-bit segment.
#[derive(Clone, Copy, Debug)]
pub struct Section64 {
    pub sectname: U8N16,
    pub segname: U8N16,
    pub addr: u64,
    pub size: u64,
    pub offset: u32,
    pub align: u32,
    pub reloff: u32,
    pub nreloc: u32,
    /// Section type and attributes.
    pub flags: u32,
    /// For an offset or an index.
    pub reserved1: u32,
    /// For a count or a size.
    pub reserved2: u32,
    pub reserved3: u32,
}

impl Section64 {
    /// The number of bytes this layout occupies.
    pub open spec fn spec_size() -> nat {
        80
    }

    /// Whether each field holds the bytes at its place after `off`.
    pub open spec fn parsed(&self, b: Seq<u8>, off: int) -> bool {
        &&& self.sectname@ == b.subrange(off + 0, off + 16)
        &&& self.segname@ == b.subrange(off + 16, off + 32)
        &&& self.addr == u64_at(b, off + 32)
        &&& self.size == u64_at(b, off + 40)
        &&& self.offset == u32_at(b, off + 48)
        &&& self.align == u32_at(b, off + 52)
        &&& self.reloff == u32_at(b, off + 56)
        &&& self.nreloc == u32_at(b, off + 60)
        &&& self.flags == u32_at(b, off + 64)
        &&& self.reserved1 == u32_at(b, off + 68)
        &&& self.reserved2 == u32_at(b, off + 72)
        &&& self.reserved3 == u32_at(b, off + 76)
    }

    /// Decodes this layout at `off`.
    pub fn read(b: &[u8], off: usize) -> (r: Self)
        requires
            off + Self::spec_size() <= b@.len(),
        ensures
            r.parsed(b@, off as int),
    {
        let _len: usize = b.len();
        Section64 {
            sectname: read_name(b, off + 0),
            segname: read_name(b, off + 16),
            addr: field64(b, off + 32),
            size: field64(b, off + 40),
            offset: field32(b, off + 48),
            align: field32(b, off + 52),
            reloff: field32(b, off + 56),
            nreloc: field32(b, off + 60),
            flags: field32(b, off + 64),
            reserved1: field32(b, off + 68),
            reserved2: field32(b, off + 72),
            reserved3: field32(b, off + 76),
        }
    }
}

/// A load command: its head and its fixed body.
#[derive(Clone, Copy, Debug)]
pub struct LoadCommand<T: LoadCommandBody> {
    pub head: LoadCommandHead,
    pub body: T,
}

impl<T: LoadCommandBody> LoadCommand<T> {
    /// The number of bytes of the head and the body.
    pub open spec fn spec_size() -> nat {
        8 + T::spec_size()
    }

    pub open spec fn parsed(&self, b: Seq<u8>, off: int) -> bool {
        self.head.parsed(b, off) && self.body.parsed(b, off + 8)
    }

    /// Decodes the head and the body at `off`.
    pub fn read(b: &[u8], off: usize) -> (r: Self)
        requires
            off + Self::spec_size() <= b@.len(),
        ensures
            r.parsed(b@, off as int),
    {
        let _len: usize = b.len();
        LoadCommand { head: LoadCommandHead::read(b, off), body: T::read(b, off + 8) }
    }
}

/// The register state of the initial thread.
#[derive(Clone, Copy, Debug)]
pub enum ThreadState {
    ThreadStateX86([u32; 16]),
    ThreadStateX86_64([u64; 21]),
}

impl ThreadState {
    /// Whether the registers hold the words found at `off`.
    pub open spec fn parsed(&self, b: Seq<u8>, off: int) -> bool {
        match self {
            ThreadState::ThreadStateX86(r) => forall|j: int|
                0 <= j < 16 ==> #[trigger] r@[j] == u32_at(b, off + 4 * j),
            ThreadState::ThreadStateX86_64(r) => forall|j: int|
                0 <= j < 21 ==> #[trigger] r@[j] == u64_at(b, off + 8 * j),
        }
    }

    /// Decodes a 32-bit x86 register block at `off`.
    pub fn read_x86(b: &[u8], off: usize) -> (r: ThreadState)
        requires
            off + 64 <= b@.len(),
        ensures
            r is ThreadStateX86,
            r.parsed(b@, off as int),
    {
        let mut regs = [0u32; 16];
        let n = b.len();
        let mut k: usize = 0;
        while k < 16
            invariant
                k <= 16,
                n == b@.len(),
                off + 64 <= b@.len(),
                regs@.len() == 16,
                forall|j: int| 0 <= j < k ==> #[trigger] regs@[j] == u32_at(b@, off + 4 * j),
            decreases 16 - k,
        {
            regs[k] = field32(b, off + 4 * k);
            k = k + 1;
        }
        ThreadState::ThreadStateX86(regs)
    }

    /// Decodes an x86-64 register block at `off`.
    pub fn read_x86_64(b: &[u8], off: usize) -> (r: ThreadState)
        requires
            off + 168 <= b@.len(),
        ensures
            r is ThreadStateX86_64,
            r.parsed(b@, off as int),
    {
        let mut regs = [0u64; 21];
        let n = b.len();
        let mut k: usize = 0;
        while k < 21
            invariant
                k <= 21,
                n == b@.len(),
                off + 168 <= b@.len(),
                regs@.len() == 21,
                forall|j: int| 0 <= j < k ==> #[trigger] regs@[j] == u64_at(b@, off + 8 * j),
            decreases 21 - k,
        {
            regs[k] = field64(b, off + 8 * k);
            k = k + 1;
        }
        ThreadState::ThreadStateX86_64(regs)
    }
}

/// A complete Mach-O load command, including any trailing sections and file data.
#[derive(Clone, Debug)]
pub enum LC {
    Segment32(LoadCommand<LcSegment32>, Vec<(Section32, Vec<u8>)>),
    Symtab(LoadCommand<LcSymtab>),
    UnixThread(LoadCommand<LcUnixThreadHead>, ThreadState),
    DySymtab(LoadCommand<LcDySymtab>),
    LoadDylinker(LoadCommand<LcLoadDylinker>, Vec<u8>),
    Segment64(LoadCommand<LcSegment64>, Vec<(Section64, Vec<u8>)>),
    Uuid(LoadCommand<LcUuid>),
    VersionMinOS(LoadCommand<LcVersionMinOS>),
    SourceVersion(LoadCommand<LcSourceVersion>),
}

impl LC {
    /// Whether this command marks a dynamically linked image.
    pub open spec fn spec_is_dynamic(&self) -> bool {
        self is DySymtab || self is LoadDylinker
    }
}

/// A Mach-O file loaded in memory.
#[derive(Clone, Debug)]
pub struct MachO {
    pub header: Header,
    pub loads: Vec<LC>,
}

impl MachO {
    /// Whether any load command marks a dynamically linked image.
    pub open spec fn spec_is_dynamic(&self) -> bool {
        exists|i: int| 0 <= i < self.loads@.len() && (#[trigger] self.loads@[i]).spec_is_dynamic()
    }

    pub fn is_dynamic(&self) -> (r: bool)
        ensures
            r == self.spec_is_dynamic(),
    {
        let mut i: usize = 0;
        while i < self.loads.len()
            invariant
                i <= self.loads@.len(),
                forall|j: int| 0 <= j < i ==> !(#[trigger] self.loads@[j]).spec_is_dynamic(),
            decreases self.loads@.len() - i,
        {
            match &self.loads[i] {
                LC::DySymtab(_) => return true,
                LC::LoadDylinker(_, _) => return true,
                _ => {},
            }
            i = i + 1;
        }
        false
    }
}

} // verus!
