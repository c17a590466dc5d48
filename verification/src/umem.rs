//! Packet memory: one region cut into frames of equal size.

use crate::bytes::{is_power_of_two, widen};
use vstd::arithmetic::power2::is_pow2;
use vstd::prelude::*;

verus! {

/// Why packet memory could not be set up or accessed.
#[derive(Debug)]
pub enum UMemError {
    /// Memory mapping failed, with the system's error number
    MmapFailed(i32),
    /// Invalid size
    InvalidSize(String),
    /// Invalid frame size
    InvalidFrameSize(String),
    /// Out of bounds access: offset, length and size of the region
    OutOfBounds(usize, usize, usize),
}

/// The system's error number for memory that is not to be had.
pub const ENOMEM: i32 = 12;

/// What is wrong with the sizes asked for.
pub enum LayoutProblem {
    SizeNotPowerOfTwo,
    SizeTooSmall,
    FrameSize,
}

/// The first thing wrong with a region of `size` bytes and frames of `frame_size`.
pub open spec fn layout_problem(size: usize, frame_size: usize) -> Option<LayoutProblem> {
    if !is_pow2(size as int) {
        Some(LayoutProblem::SizeNotPowerOfTwo)
    } else if size < 0x10_0000 {
        Some(LayoutProblem::SizeTooSmall)
    } else if frame_size < 64 || frame_size > 65536 {
        Some(LayoutProblem::FrameSize)
    } else {
        None
    }
}

/// Whether `error` is how `problem` is reported.
pub open spec fn reports_problem(error: UMemError, problem: LayoutProblem) -> bool {
    match (problem, error) {
        (LayoutProblem::SizeNotPowerOfTwo, UMemError::InvalidSize(text)) => text@
            == "Size must be a power of 2"@,
        (LayoutProblem::SizeTooSmall, UMemError::InvalidSize(text)) => text@
            == "Size must be at least 1 MB"@,
        (LayoutProblem::FrameSize, UMemError::InvalidFrameSize(text)) => text@
            == "Frame size must be between 64 and 65536 bytes"@,
        _ => false,
    }
}

/// Packet data inside packet memory.
#[derive(Debug, Clone, Copy)]
pub struct PacketRef<'umem> {
    data: &'umem [u8],
}

impl<'umem> View for PacketRef<'umem> {
    type V = Seq<u8>;

    closed spec fn view(&self) -> Seq<u8> {
        self.data@
    }
}

impl<'umem> PacketRef<'umem> {
    /// The packet that `data` holds.
    pub fn from_slice(data: &'umem [u8]) -> (packet: PacketRef<'umem>)
        ensures
            packet@ == data@,
    {
        PacketRef { data }
    }

    /// The packet data.
    pub fn as_slice(&self) -> (data: &'umem [u8])
        ensures
            data@ == self@,
    {
        self.data
    }

    /// The packet length.
    pub fn len(&self) -> (len: usize)
        ensures
            len == self@.len(),
    {
        self.data.len()
    }

    /// Whether the packet is empty.
    pub fn is_empty(&self) -> (empty: bool)
        ensures
            empty == (self@.len() == 0),
    {
        self.data.len() == 0
    }

    /// The first `n` bytes, if there are as many.
    pub fn get_bytes(&self, n: usize) -> (bytes: Option<&'umem [u8]>)
        ensures
            match bytes {
                Some(bytes) => n <= self@.len() && bytes@ == self@.take(n as int),
                None => n > self@.len(),
            },
    {
        if n <= self.data.len() {
            Some(&self.data[0..n])
        } else {
            None
        }
    }

    /// The packet before and after `offset`.
    pub fn split_at(&self, offset: usize) -> (parts: (&'umem [u8], &'umem [u8]))
        requires
            offset <= self@.len(),
        ensures
            parts.0@ == self@.take(offset as int),
            parts.1@ == self@.skip(offset as int),
    {
        self.data.split_at(offset)
    }
}

/// Where the frames of packet memory lie.
#[derive(Debug, Clone, Copy)]
pub struct UMemLayout {
    size: usize,
    frame_size: usize,
    num_frames: usize,
}

impl UMemLayout {
    /// The size of the region in bytes.
    pub closed spec fn spec_size(self) -> int {
        self.size as int
    }

    /// The size of a frame in bytes.
    pub closed spec fn spec_frame_size(self) -> int {
        self.frame_size as int
    }

    #[verifier::type_invariant]
    closed spec fn well_formed(self) -> bool {
        self.frame_size > 0 && self.num_frames == self.size as int / self.frame_size as int
    }

    /// The layout of a region of `size` bytes in frames of `frame_size`, if both are
    /// valid: a power of two of at least 1 MB, and between 64 and 65536 bytes.
    pub fn new(size: usize, frame_size: usize) -> (layout: Result<UMemLayout, UMemError>)
        ensures
            match layout {
                Ok(layout) => layout_problem(size, frame_size) is None && layout.spec_size()
                    == size && layout.spec_frame_size() == frame_size,
                Err(error) => match layout_problem(size, frame_size) {
                    Some(problem) => reports_problem(error, problem),
                    None => false,
                },
            },
    {
        if !is_power_of_two(widen(size)) {
            return Err(UMemError::InvalidSize("Size must be a power of 2".to_string()));
        }
        if size < 0x10_0000 {
            return Err(UMemError::InvalidSize("Size must be at least 1 MB".to_string()));
        }
        if frame_size < 64 || frame_size > 65536 {
            return Err(
                UMemError::InvalidFrameSize(
                    "Frame size must be between 64 and 65536 bytes".to_string(),
                ),
            );
        }
        Ok(UMemLayout { size, frame_size, num_frames: size / frame_size })
    }

    /// The layout of a region that exists already.
    pub fn of_region(size: usize, frame_size: usize) -> (layout: UMemLayout)
        requires
            frame_size > 0,
        ensures
            layout.spec_size() == size,
            layout.spec_frame_size() == frame_size,
    {
        UMemLayout { size, frame_size, num_frames: size / frame_size }
    }

    /// The size of the region in bytes.
    pub fn size(&self) -> (size: usize)
        ensures
            size == self.spec_size(),
    {
        self.size
    }

    /// The size of a frame in bytes.
    pub fn frame_size(&self) -> (size: usize)
        ensures
            size == self.spec_frame_size(),
            size > 0,
    {
        proof {
            use_type_invariant(self);
        }
        self.frame_size
    }

    /// The number of whole frames.
    pub fn num_frames(&self) -> (frames: usize)
        ensures
            frames == self.spec_size() / self.spec_frame_size(),
    {
        proof {
            use_type_invariant(self);
        }
        self.num_frames
    }

    /// The offset of a frame.
    pub fn frame_offset(&self, frame_idx: usize) -> (offset: usize)
        requires
            frame_idx < self.spec_size() / self.spec_frame_size(),
        ensures
            offset == frame_idx * self.spec_frame_size(),
            offset + self.spec_frame_size() <= self.spec_size(),
    {
        proof {
            use_type_invariant(self);
            frame_in_bounds(self.size as int, self.frame_size as int, frame_idx as int);
        }
        frame_idx * self.frame_size
    }
}

/// A whole frame lies inside the region.
pub(crate) proof fn frame_in_bounds(size: int, frame_size: int, frame: int)
    requires
        frame_size > 0,
        0 <= size,
        0 <= frame < size / frame_size,
    ensures
        0 <= frame * frame_size,
        frame * frame_size + frame_size <= size,
{
    let frames = size / frame_size;
    vstd::arithmetic::div_mod::lemma_fundamental_div_mod(size, frame_size);
    assert(frame * frame_size + frame_size <= frames * frame_size) by (nonlinear_arith)
        requires
            frame_size > 0,
            frame + 1 <= frames,
    ;
    assert(0 <= frame * frame_size) by (nonlinear_arith)
        requires
            frame_size > 0,
            frame >= 0,
    ;
    assert(frames * frame_size == frame_size * (size / frame_size)) by (nonlinear_arith)
        requires
            frames == size / frame_size,
    ;
}

/// `memory` with `bytes` written at offset `at`.
pub open spec fn overwritten(memory: Seq<u8>, at: int, bytes: Seq<u8>) -> Seq<u8> {
    memory.take(at) + bytes + memory.skip(at + bytes.len())
}

/// What packet memory holds.
#[verifier::ext_equal]
pub struct UMemModel {
    /// The bytes of the region
    pub memory: Seq<u8>,
    /// The size of a frame in bytes
    pub frame_size: int,
}

impl UMemModel {
    /// The number of whole frames.
    pub open spec fn num_frames(self) -> int {
        self.memory.len() as int / self.frame_size
    }

    /// The bytes of a frame.
    pub open spec fn frame(self, frame_idx: int) -> Seq<u8> {
        self.memory.subrange(
            frame_idx * self.frame_size,
            frame_idx * self.frame_size + self.frame_size,
        )
    }
}

/// What is written of `data` into a frame: as much as fits.
pub open spec fn fitting(data: Seq<u8>, frame_size: int) -> Seq<u8> {
    if data.len() <= frame_size {
        data
    } else {
        data.take(frame_size)
    }
}

/// `umem` with `data` written to the start of a frame. Frames that do not exist take
/// nothing.
pub open spec fn frame_written(umem: UMemModel, frame_idx: int, data: Seq<u8>) -> UMemModel {
    if frame_idx >= umem.num_frames() {
        umem
    } else {
        UMemModel {
            memory: overwritten(
                umem.memory,
                frame_idx * umem.frame_size,
                fitting(data, umem.frame_size),
            ),
            ..umem
        }
    }
}

/// `n` zero bytes.
pub open spec fn zeros(n: nat) -> Seq<u8> {
    Seq::new(n, |i: int| 0u8)
}

/// Packet memory.
#[derive(Debug)]
pub struct UMem {
    layout: UMemLayout,
    memory: Vec<u8>,
}

impl View for UMem {
    type V = UMemModel;

    closed spec fn view(&self) -> UMemModel {
        UMemModel { memory: self.memory@, frame_size: self.layout.spec_frame_size() }
    }
}

impl UMem {
    #[verifier::type_invariant]
    closed spec fn well_formed(self) -> bool {
        &&& self.memory@.len() == self.layout.spec_size()
        &&& self.layout.spec_frame_size() > 0
    }

    /// Packet memory of `size` zero bytes, in frames of `frame_size`. Where both are
    /// valid, it fails only where the memory is not to be had.
    pub fn new(size: usize, frame_size: usize) -> (umem: Result<UMem, UMemError>)
        ensures
            match umem {
                Ok(umem) => layout_problem(size, frame_size) is None && umem@ == (UMemModel {
                    memory: zeros(size as nat),
                    frame_size: frame_size as int,
                }),
                Err(error) => match layout_problem(size, frame_size) {
                    Some(problem) => reports_problem(error, problem),
                    None => error == UMemError::MmapFailed(ENOMEM),
                },
            },
    {
        let layout = match UMemLayout::new(size, frame_size) {
            Ok(layout) => layout,
            Err(error) => return Err(error),
        };
        let mut memory: Vec<u8> = Vec::new();
        if memory.try_reserve(size).is_err() {
            return Err(UMemError::MmapFailed(ENOMEM));
        }
        memory.resize(size, 0);
        assert(memory@ =~= zeros(size as nat));
        Ok(UMem { layout, memory })
    }

    /// Packet memory over bytes that exist already, in frames of `frame_size`.
    pub fn from_memory(memory: Vec<u8>, frame_size: usize) -> (umem: UMem)
        requires
            frame_size > 0,
        ensures
            umem@ == (UMemModel { memory: memory@, frame_size: frame_size as int }),
    {
        UMem { layout: UMemLayout::of_region(memory.len(), frame_size), memory }
    }

    /// The size of the region in bytes.
    pub fn size(&self) -> (size: usize)
        ensures
            size == self@.memory.len(),
    {
        self.memory.len()
    }

    /// The size of a frame in bytes.
    pub fn frame_size(&self) -> (size: usize)
        ensures
            size == self@.frame_size,
            size > 0,
    {
        self.layout.frame_size()
    }

    /// The number of whole frames.
    pub fn num_frames(&self) -> (frames: usize)
        ensures
            frames == self@.num_frames(),
    {
        proof {
            use_type_invariant(self);
        }
        self.layout.num_frames()
    }

    /// The bytes of the region.
    pub fn as_slice(&self) -> (memory: &[u8])
        ensures
            memory@ == self@.memory,
    {
        self.memory.as_slice()
    }

    /// The packet of `len` bytes at `offset`.
    pub fn get_packet(&self, offset: usize, len: usize) -> (packet: PacketRef<'_>)
        requires
            offset + len <= self@.memory.len(),
        ensures
            packet@ == self@.memory.subrange(offset as int, offset + len),
    {
        assert(offset + len <= self.memory.len());
        PacketRef::from_slice(&self.memory.as_slice()[offset..offset + len])
    }

    /// The packet of `len` bytes at the start of a frame.
    pub fn get_frame(&self, frame_idx: usize, len: usize) -> (packet: PacketRef<'_>)
        requires
            frame_idx < self@.num_frames(),
            len <= self@.frame_size,
        ensures
            packet@ == self@.frame(frame_idx as int).take(len as int),
    {
        proof {
            use_type_invariant(self);
        }
        let offset: usize = self.layout.frame_offset(frame_idx);
        let packet = self.get_packet(offset, len);
        assert(packet@ =~= self@.frame(frame_idx as int).take(len as int));
        packet
    }

    /// Sets the bytes of a frame to zero. Frames that do not exist are left alone.
    pub fn clear_frame(&mut self, frame_idx: usize)
        ensures
            final(self)@ == frame_written(
                old(self)@,
                frame_idx as int,
                zeros(old(self)@.frame_size as nat),
            ),
    {
        proof {
            use_type_invariant(&*self);
        }
        let ghost before = self.memory@;
        let ghost frame_size = self@.frame_size;
        if frame_idx >= self.layout.num_frames() {
            return;
        }
        let len: usize = self.layout.frame_size();
        let offset: usize = self.layout.frame_offset(frame_idx);
        let mut i: usize = 0;
        while i < len
            invariant
                i <= len,
                len == frame_size,
                offset + len <= before.len(),
                self.memory@ == overwritten(before, offset as int, zeros(i as nat)),
                self.memory@.len() == before.len(),
                self.layout == old(self).layout,
                self.memory@.len() == self.layout.spec_size(),
                self.layout.spec_frame_size() > 0,
            decreases len - i,
        {
            self.memory[offset + i] = 0;
            i = i + 1;
            assert(self.memory@ =~= overwritten(before, offset as int, zeros(i as nat)));
        }
        assert(fitting(zeros(frame_size as nat), frame_size) =~= zeros(len as nat));
    }

    /// Writes `data` to the start of a frame, as much of it as fits. Returns how many
    /// bytes were written: none where the frame does not exist.
    pub fn write_frame(&mut self, frame_idx: usize, data: &[u8]) -> (written: usize)
        ensures
            final(self)@ == frame_written(old(self)@, frame_idx as int, data@),
            written == if frame_idx < old(self)@.num_frames() {
                fitting(data@, old(self)@.frame_size).len()
            } else {
                0
            },
    {
        proof {
            use_type_invariant(&*self);
        }
        let ghost before = self.memory@;
        if frame_idx >= self.layout.num_frames() {
            return 0;
        }
        let room: usize = self.layout.frame_size();
        let len: usize = if data.len() < room {
            data.len()
        } else {
            room
        };
        let offset: usize = self.layout.frame_offset(frame_idx);
        let mut i: usize = 0;
        assert(before =~= overwritten(before, offset as int, data@.take(0)));
        while i < len
            invariant
                i <= len,
                len <= data@.len(),
                offset + len <= before.len(),
                self.memory@ == overwritten(before, offset as int, data@.take(i as int)),
                self.memory@.len() == before.len(),
                self.layout == old(self).layout,
                self.memory@.len() == self.layout.spec_size(),
                self.layout.spec_frame_size() > 0,
            decreases len - i,
        {
            self.memory[offset + i] = data[i];
            i = i + 1;
            assert(self.memory@ =~= overwritten(before, offset as int, data@.take(i as int)));
        }
        assert(data@.take(len as int) =~= fitting(data@, room as int));
        len
    }
}

/// Two frames do not overlap.
proof fn frames_are_apart(frame_size: int, a: int, b: int)
    requires
        frame_size > 0,
        a < b,
    ensures
        a * frame_size + frame_size <= b * frame_size,
{
    assert(a * frame_size + frame_size <= b * frame_size) by (nonlinear_arith)
        requires
            frame_size > 0,
            a + 1 <= b,
    ;
}

/// A frame gives back what was written to it, as much as fitted.
pub proof fn written_frame_reads_back(umem: UMemModel, frame_idx: int, data: Seq<u8>)
    requires
        umem.frame_size > 0,
        0 <= frame_idx < umem.num_frames(),
    ensures
        frame_written(umem, frame_idx, data).frame(frame_idx).take(
            fitting(data, umem.frame_size).len() as int,
        ) == fitting(data, umem.frame_size),
{
    frame_in_bounds(umem.memory.len() as int, umem.frame_size, frame_idx);
    assert(frame_written(umem, frame_idx, data).frame(frame_idx).take(
        fitting(data, umem.frame_size).len() as int,
    ) =~= fitting(data, umem.frame_size));
}

/// Writing to a frame leaves every other frame as it is.
pub proof fn other_frames_unchanged(umem: UMemModel, frame_idx: int, data: Seq<u8>, other: int)
    requires
        umem.frame_size > 0,
        0 <= frame_idx < umem.num_frames(),
        0 <= other < umem.num_frames(),
        other != frame_idx,
    ensures
        frame_written(umem, frame_idx, data).frame(other) == umem.frame(other),
{
    frame_in_bounds(umem.memory.len() as int, umem.frame_size, frame_idx);
    frame_in_bounds(umem.memory.len() as int, umem.frame_size, other);
    if other < frame_idx {
        frames_are_apart(umem.frame_size, other, frame_idx);
    } else {
        frames_are_apart(umem.frame_size, frame_idx, other);
    }
    assert(frame_written(umem, frame_idx, data).frame(other) =~= umem.frame(other));
}

/// Writing to a frame changes neither the size of the region nor that of its frames.
pub proof fn writing_keeps_the_layout(umem: UMemModel, frame_idx: int, data: Seq<u8>)
    requires
        umem.frame_size > 0,
        0 <= frame_idx,
    ensures
        frame_written(umem, frame_idx, data).memory.len() == umem.memory.len(),
        frame_written(umem, frame_idx, data).frame_size == umem.frame_size,
{
    if frame_idx < umem.num_frames() {
        frame_in_bounds(umem.memory.len() as int, umem.frame_size, frame_idx);
    }
}

/// A frame that was cleared holds only zeros.
pub proof fn cleared_frame_is_zero(umem: UMemModel, frame_idx: int)
    requires
        umem.frame_size > 0,
        0 <= frame_idx < umem.num_frames(),
    ensures
        frame_written(umem, frame_idx, zeros(umem.frame_size as nat)).frame(frame_idx) == zeros(
            umem.frame_size as nat,
        ),
{
    frame_in_bounds(umem.memory.len() as int, umem.frame_size, frame_idx);
    assert(frame_written(umem, frame_idx, zeros(umem.frame_size as nat)).frame(frame_idx) =~= zeros(
        umem.frame_size as nat,
    ));
}

} // verus!
