//! The Plan 9 a.out format.
//!
//! An executable Plan 9 binary file has up to six sections: a header, the
//! program text, the data, a symbol table, a PC/SP offset table (MC68020
//! only), and finally a PC/line number table. The header holds eight 4-byte
//! integers in big-endian order.
//!
//! Entry is a virtual memory address, and must be precognizant of where the
//! header+text will be loaded. If the first symbol is the entry point, and
//! the header+text is loaded to 0x1000, then entry = 0x1020.

use vstd::prelude::*;
use crate::bytes::{be_bytes, be_u32, be_u32_bytes, lemma_be_round_trip};

verus! {

/// The bit that marks a magic number whose header is followed by a 64-bit entry.
pub const HDR_MAGIC: u32 = 0x8000;

/// Where the header and text are loaded.
pub const LOAD_BASE: u64 = 0x1000;

/// The magic number built from the flag bits `f` and the architecture number `b`.
pub open spec fn spec_magic(f: u32, b: u32) -> u32 {
    f | ((4 * b * b + 7) as u32)
}

/// Builds a magic number from its flag bits and architecture number.
fn magic(f: u32, b: u32) -> (r: u32)
    requires
        b <= 28,
    ensures
        r == spec_magic(f, b),
{
    assert(4 * b * b + 7 <= 4 * 28 * 28 + 7) by (nonlinear_arith)
        requires
            b <= 28,
    ;
    f | (4 * b * b + 7)
}

/// The architecture an a.out file is built for.
#[derive(Clone, Copy, Debug, PartialEq, Eq, Structural)]
pub enum Magic {
    /// 68020
    A,
    /// Intel 386
    I,
    /// Intel 960 (retired)
    J,
    /// SPARC
    K,
    /// MIPS 3000, big-endian
    V,
    /// AT&T DSP 3210 (retired)
    X,
    /// MIPS 4000, big-endian
    M,
    /// AMD 29000 (retired)
    D,
    /// ARM
    E,
    /// PowerPC
    Q,
    /// MIPS 4000, little-endian
    N,
    /// DEC Alpha
    L,
    /// MIPS 3000, little-endian
    P,
    /// SPARC64
    U,
    /// AMD64
    S,
    /// PowerPC64
    T,
    /// ARM64
    R,
}

impl Magic {
    /// The magic number of this architecture.
    pub open spec fn spec_value(self) -> u32 {
        match self {
            Magic::A => spec_magic(0, 8),
            Magic::I => spec_magic(0, 11),
            Magic::J => spec_magic(0, 12),
            Magic::K => spec_magic(0, 13),
            Magic::V => spec_magic(0, 16),
            Magic::X => spec_magic(0, 17),
            Magic::M => spec_magic(0, 18),
            Magic::D => spec_magic(0, 19),
            Magic::E => spec_magic(0, 20),
            Magic::Q => spec_magic(0, 21),
            Magic::N => spec_magic(0, 22),
            Magic::L => spec_magic(0, 23),
            Magic::P => spec_magic(0, 24),
            Magic::U => spec_magic(0, 25),
            Magic::S => spec_magic(HDR_MAGIC, 26),
            Magic::T => spec_magic(HDR_MAGIC, 27),
            Magic::R => spec_magic(HDR_MAGIC, 28),
        }
    }

    /// The magic number of this architecture.
    pub fn value(&self) -> (r: u32)
        ensures
            r == self.spec_value(),
    {
        match self {
            Magic::A => magic(0, 8),
            Magic::I => magic(0, 11),
            Magic::J => magic(0, 12),
            Magic::K => magic(0, 13),
            Magic::V => magic(0, 16),
            Magic::X => magic(0, 17),
            Magic::M => magic(0, 18),
            Magic::D => magic(0, 19),
            Magic::E => magic(0, 20),
            Magic::Q => magic(0, 21),
            Magic::N => magic(0, 22),
            Magic::L => magic(0, 23),
            Magic::P => magic(0, 24),
            Magic::U => magic(0, 25),
            Magic::S => magic(HDR_MAGIC, 26),
            Magic::T => magic(HDR_MAGIC, 27),
            Magic::R => magic(HDR_MAGIC, 28),
        }
    }
}

/// The header of an a.out file.
#[derive(Clone, Copy, Debug, PartialEq, Eq, Structural)]
pub struct Header {
    /// magic number
    pub magic: u32,
    /// size of text segment
    pub text: u32,
    /// size of initialized data
    pub data: u32,
    /// size of uninitialized data
    pub bss: u32,
    /// size of symbol table
    pub syms: u32,
    /// entry point
    pub entry: u32,
    /// size of pc/sp offset table
    pub spsz: u32,
    /// size of pc/line number table
    pub pcsz: u32,
}

/// Appends the four big-endian bytes of `n` to `out`.
fn push_be(out: &mut Vec<u8>, n: u32)
    ensures
        final(out)@ == old(out)@ + be_bytes(n),
{
    let b = be_u32_bytes(n);
    out.push(b[0]);
    out.push(b[1]);
    out.push(b[2]);
    out.push(b[3]);
    assert(final(out)@ =~= old(out)@ + be_bytes(n));
}

impl Header {
    /// The eight fields in order.
    pub open spec fn spec_fields(self) -> Seq<u32> {
        seq![
            self.magic,
            self.text,
            self.data,
            self.bss,
            self.syms,
            self.entry,
            self.spsz,
            self.pcsz,
        ]
    }

    /// The bytes of the header: each field, big-endian, in order.
    pub open spec fn spec_bytes(self) -> Seq<u8> {
        be_bytes(self.magic) + be_bytes(self.text) + be_bytes(self.data) + be_bytes(self.bss)
            + be_bytes(self.syms) + be_bytes(self.entry) + be_bytes(self.spsz) + be_bytes(
            self.pcsz,
        )
    }

    /// The header in big-endian byte order, whatever the host's order.
    pub fn to_be(&self) -> (r: Vec<u8>)
        ensures
            r@ == self.spec_bytes(),
    {
        let mut out: Vec<u8> = Vec::new();
        push_be(&mut out, self.magic);
        push_be(&mut out, self.text);
        push_be(&mut out, self.data);
        push_be(&mut out, self.bss);
        push_be(&mut out, self.syms);
        push_be(&mut out, self.entry);
        push_be(&mut out, self.spsz);
        push_be(&mut out, self.pcsz);
        assert(out@ =~= self.spec_bytes());
        out
    }
}

/// Header, text, data, symbols, PC/SP, PC/SZ.
///
/// The symbol, PC/SP, and PC/SZ tables are not supported. That is, this is
/// a stripped object.
#[derive(Clone, Debug)]
pub struct AOut9 {
    pub magic: Magic,
    pub text: Vec<u8>,
    pub data: Vec<u8>,
    pub bss: u64,
    pub entry: u64,
}

/// Appends the bytes of `src` to `out`.
fn append_bytes(out: &mut Vec<u8>, src: &Vec<u8>)
    ensures
        final(out)@ == old(out)@ + src@,
{
    let mut i: usize = 0;
    while i < src.len()
        invariant
            i <= src@.len(),
            out@ == old(out)@ + src@.subrange(0, i as int),
        decreases src@.len() - i,
    {
        out.push(src[i]);
        i = i + 1;
        assert(out@ =~= old(out)@ + src@.subrange(0, i as int));
    }
    assert(src@.subrange(0, src@.len() as int) =~= src@);
}

impl AOut9 {
    /// Whether every size and the loaded entry address fit in a 4-byte field.
    pub open spec fn spec_fits(&self) -> bool {
        &&& self.text@.len() <= u32::MAX
        &&& self.data@.len() <= u32::MAX
        &&& self.bss <= u32::MAX
        &&& self.entry + LOAD_BASE <= u32::MAX
    }

    /// Whether every size and the loaded entry address fit in a 4-byte field.
    pub fn fits(&self) -> (r: bool)
        ensures
            r == self.spec_fits(),
    {
        self.text.len() as u64 <= u32::MAX as u64 && self.data.len() as u64 <= u32::MAX as u64
            && self.bss <= u32::MAX as u64 && self.entry <= u32::MAX as u64 - LOAD_BASE
    }

    /// The header of this image: the sizes, the entry address moved to the
    /// load base, and empty symbol and PC tables.
    pub open spec fn spec_header(&self) -> Header {
        Header {
            magic: self.magic.spec_value(),
            text: self.text@.len() as u32,
            data: self.data@.len() as u32,
            bss: self.bss as u32,
            syms: 0,
            entry: (self.entry + LOAD_BASE) as u32,
            spsz: 0,
            pcsz: 0,
        }
    }

    /// The encoded image: the header, then the text, then the data.
    pub open spec fn spec_encoding(&self) -> Seq<u8> {
        self.spec_header().spec_bytes() + self.text@ + self.data@
    }

    /// The header of this image.
    pub fn header(&self) -> (r: Header)
        requires
            self.spec_fits(),
        ensures
            r == self.spec_header(),
    {
        Header {
            magic: self.magic.value(),
            text: self.text.len() as u32,
            data: self.data.len() as u32,
            bss: self.bss as u32,
            syms: 0,
            entry: (self.entry + LOAD_BASE) as u32,
            spsz: 0,
            pcsz: 0,
        }
    }

    /// Appends the encoded image to `sink`.
    pub fn write_to(&self, sink: &mut Vec<u8>)
        requires
            self.spec_fits(),
        ensures
            final(sink)@ == old(sink)@ + self.spec_encoding(),
    {
        let header = self.header().to_be();
        append_bytes(sink, &header);
        append_bytes(sink, &self.text);
        append_bytes(sink, &self.data);
        assert(final(sink)@ =~= old(sink)@ + self.spec_encoding());
    }
}

} // verus!
