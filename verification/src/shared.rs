//! A concurrency-safe single-value broadcast cell.

use vstd::prelude::*;

verus! {

/// A clonable handle to one shared 32-bit value, stored and loaded with
/// relaxed atomic operations.
///
/// The cell carries the bit pattern of one 32-bit float between an
/// acquisition thread and a consumer; the conversion to and from `f32`
/// happens outside the library.  Loads and stores never block, and no
/// ordering is promised beyond the atomicity of each access, so nothing is
/// known of a loaded value: every consumer in this library clamps or
/// validates what it reads.
#[derive(Clone)]
pub struct SharedF32 {
    cell: std::sync::Arc<std::sync::atomic::AtomicU32>,
}

impl SharedF32 {
    /// A new cell holding the given bits.
    pub fn new(bits: u32) -> Self {
        SharedF32 {
            cell: std::sync::Arc::new(std::sync::atomic::AtomicU32::new(bits)),
        }
    }

    /// Overwrite the shared value.
    pub fn store(&self, bits: u32) {
        (&*self.cell).store(bits, std::sync::atomic::Ordering::Relaxed);
    }

    /// Read the most recently visible value.
    pub fn load(&self) -> u32 {
        (&*self.cell).load(std::sync::atomic::Ordering::Relaxed)
    }
}

} // verus!
