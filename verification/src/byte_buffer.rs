use vstd::prelude::*;

verus! {

/// A byte buffer with an element stride, the shape in which finished data is
/// handed across the crate boundary: `element_size` bytes per logical
/// element.
#[derive(Clone, Debug)]
pub struct ByteBuffer {
    pub data: Vec<u8>,
    pub element_size: u32,
}

impl ByteBuffer {
    /// The stride is positive and small enough to count elements in `i32`.
    pub open spec fn spec_wf(self) -> bool {
        1 <= self.element_size <= i32::MAX
    }

    /// Wraps plain bytes: one byte per element.
    pub fn from_vec(bytes: Vec<u8>) -> (r: ByteBuffer)
        ensures
            r.data == bytes,
            r.element_size == 1,
            r.spec_wf(),
    {
        ByteBuffer { data: bytes, element_size: 1 }
    }

    /// Wraps bytes that encode elements of `element_size` bytes each.
    pub fn from_vec_sized(bytes: Vec<u8>, element_size: u32) -> (r: ByteBuffer)
        requires
            1 <= element_size <= i32::MAX,
        ensures
            r.data == bytes,
            r.element_size == element_size,
            r.spec_wf(),
    {
        ByteBuffer { data: bytes, element_size }
    }

    /// The length of the buffer in bytes.
    pub fn len(&self) -> (r: usize)
        ensures
            r == self.data@.len(),
    {
        self.data.len()
    }

    /// The length of the buffer counted in whole elements.
    pub fn element_len(&self) -> (r: i32)
        requires
            self.spec_wf(),
            self.data@.len() <= i32::MAX,
        ensures
            r == self.data@.len() as int / self.element_size as int,
    {
        (self.data.len() as i32) / (self.element_size as i32)
    }

    /// The byte at an index.
    pub fn element_at(&self, i: usize) -> (r: u8)
        requires
            i < self.data@.len(),
        ensures
            r == self.data@[i as int],
    {
        self.data[i]
    }

    /// Releases the buffer back into a plain byte vector.
    pub fn destroy_into_vec(self) -> (r: Vec<u8>)
        ensures
            r == self.data,
    {
        self.data
    }

    /// Drops the buffer and its bytes.
    pub fn destroy(self) {
        let _ = self.destroy_into_vec();
    }
}

} // verus!
