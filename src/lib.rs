//! A fixed-capacity buffer of plain-data elements, kept either in a
//! read-write memory mapping of a file or in an ordinary vector.
//!
//! The mapped bytes are modelled as a sequence of bytes; each element
//! occupies `width` consecutive bytes in little-endian order, with no
//! header. That is the native in-memory layout on little-endian targets
//! only; on a big-endian target the stored bytes differ from it. Every read and write goes through that model, so the typed view
//! of a mapping is always the decoding of its bytes.
pub mod backed;
pub mod buffer;
pub mod element;
pub mod error;
pub mod laws;
pub mod layout;
pub mod mapping;

pub use backed::BackedBuffer;
pub use buffer::Buffer;
pub use element::Element;
pub use error::BufferError;
