//! A string interner: each distinct string gets one handle, whose text sits
//! at a fixed address, preceded by its cached wyhash and followed by a NUL.

pub mod hash;
pub mod interner;
pub mod istr;
pub mod laws;
pub mod page;
pub mod table;

pub use interner::{collect_interned_strings, get_interned, intern, Interner};
pub use istr::IStr;
