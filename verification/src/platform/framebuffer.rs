//! The pixel store that the renderer draws into and the window shows.

use vstd::prelude::*;

verus! {

/// Packed `0xAARRGGBB` words, row after row from the top of the picture.
pub struct FrameBuffer {
    pub(crate) data: Vec<u32>,
}

impl View for FrameBuffer {
    type V = Seq<u32>;

    open(crate) spec fn view(&self) -> Seq<u32> {
        self.data@
    }
}

impl FrameBuffer {
    /// A buffer of `width * height` words, all zero.
    pub fn new(width: usize, height: usize) -> (buffer: Self)
        requires
            width * height <= usize::MAX,
        ensures
            buffer@ == Seq::new((width * height) as nat, |i: int| 0u32),
    {
        let buffer = Self { data: vec![0u32; width * height] };
        assert(buffer@ =~= Seq::new((width * height) as nat, |i: int| 0u32));
        buffer
    }

    /// The words of the buffer.
    pub fn data(&self) -> (data: &Vec<u32>)
        ensures
            data@ == self@,
    {
        &self.data
    }
}

} // verus!
