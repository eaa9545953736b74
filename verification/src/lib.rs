//! A codec for Bencode: signed integers (`i<digits>e`), byte strings
//! (`<length>:<bytes>`), lists (`l...e`) and dictionaries (`d...e`).
//!
//! [`de`] walks a byte buffer and builds values from it, [`ser`] writes values
//! out, and [`wire`] states, over plain sequences of bytes, what both mean.
//! [`read`] is the cursor that the decoder reads through, [`impls`] holds the
//! shapes that come with the codec, and [`laws`] proves what writing and
//! reading have to do with each other.

pub mod de;
pub mod error;
pub mod impls;
pub mod laws;
pub mod read;
pub mod ser;
pub mod wire;
