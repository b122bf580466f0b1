//! A cross-linker from static Mach-O executables to Plan 9 a.out objects.
//!
//! The library decodes a Mach-O image held in memory (`decode`) into a
//! typed model of its layouts (`macho`), extracts the text, data and bss
//! regions of a statically linked image (`convert`), and encodes them as a
//! stripped Plan 9 object (`aout9`). Every field is read and written through
//! the bounded, byte-order-explicit helpers of `bytes`; `error` lists the
//! ways this can fail, and `laws` states how the stages fit together.

pub mod aout9;
pub mod bytes;
pub mod convert;
pub mod decode;
pub mod error;
pub mod laws;
pub mod macho;

pub use aout9::AOut9;
pub use convert::to_aout;
pub use decode::decode_macho;
pub use error::Error;
pub use macho::MachO;
