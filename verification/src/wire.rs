use vstd::prelude::*;

verus! {

/// An ordered byte container with an append side and a monotonically
/// advancing read cursor: the substrate every structured value is
/// serialized into and parsed out of. One buffer serves one message and is
/// never shared across exchanges.
///
/// The bytes live in a `bytebuffer::ByteBuffer`. The field is reachable
/// only through the wrappers below, which keep its write cursor at the end
/// of the data and never touch its bit-level cursors, so writing always
/// appends and reading always consumes from the front.
#[verifier::external_body]
pub struct WireBuffer {
    inner: bytebuffer::ByteBuffer,
}

/// The bytes a wire buffer holds, oldest first.
pub uninterp spec fn wire_data(b: WireBuffer) -> Seq<u8>;

/// How many of the held bytes the read cursor has already consumed.
pub uninterp spec fn wire_rpos(b: WireBuffer) -> int;

/// The bytes the read cursor has not yet consumed.
pub open spec fn wire_rest(b: WireBuffer) -> Seq<u8> {
    wire_data(b).subrange(wire_rpos(b), wire_data(b).len() as int)
}

impl WireBuffer {
    /// Relies on `bytebuffer::ByteBuffer::new`: a fresh, empty buffer with
    /// both cursors at zero.
    #[verifier::external_body]
    pub fn new() -> (b: WireBuffer)
        ensures
            wire_data(b) == Seq::<u8>::empty(),
            wire_rpos(b) == 0,
    {
        WireBuffer { inner: bytebuffer::ByteBuffer::new() }
    }

    /// Relies on `bytebuffer::ByteBuffer::from_vec`: a buffer holding
    /// exactly the given bytes, with the read cursor at the start.
    #[verifier::external_body]
    pub fn from_vec(data: Vec<u8>) -> (b: WireBuffer)
        ensures
            wire_data(b) == data@,
            wire_rpos(b) == 0,
    {
        WireBuffer { inner: bytebuffer::ByteBuffer::from_vec(data) }
    }

    /// Relies on `bytebuffer::ByteBuffer::write_bytes`: appends the given
    /// bytes after the ones already held, leaving the read cursor alone.
    #[verifier::external_body]
    pub fn write(&mut self, bytes: &[u8])
        ensures
            wire_data(*final(self)) == wire_data(*old(self)) + bytes@,
            wire_rpos(*final(self)) == wire_rpos(*old(self)),
    {
        self.inner.write_bytes(bytes);
    }

    /// Relies on `bytebuffer::ByteBuffer::read_bytes`: consumes and
    /// returns the next `count` held bytes. The contract admits only reads
    /// within the data, on which the underlying call cannot fail.
    #[verifier::external_body]
    pub fn read(&mut self, count: usize) -> (r: Vec<u8>)
        requires
            wire_rpos(*old(self)) + count <= wire_data(*old(self)).len(),
        ensures
            wire_data(*final(self)) == wire_data(*old(self)),
            wire_rpos(*final(self)) == wire_rpos(*old(self)) + count,
            r@ == wire_data(*old(self)).subrange(
                wire_rpos(*old(self)),
                wire_rpos(*old(self)) + count,
            ),
    {
        self.inner.read_bytes(count).unwrap()
    }

    /// Relies on `bytebuffer::ByteBuffer::len`: how many bytes are held.
    #[verifier::external_body]
    pub fn len(&self) -> (r: usize)
        ensures
            r == wire_data(*self).len(),
    {
        self.inner.len()
    }

    /// Relies on `bytebuffer::ByteBuffer::get_rpos`: the read cursor,
    /// which never runs past the held bytes.
    #[verifier::external_body]
    pub fn read_pos(&self) -> (r: usize)
        ensures
            r == wire_rpos(*self),
            r <= wire_data(*self).len(),
    {
        self.inner.get_rpos()
    }

    /// Relies on `bytebuffer::ByteBuffer::as_bytes`: a copy of every held
    /// byte, read or not.
    #[verifier::external_body]
    pub fn to_vec(&self) -> (r: Vec<u8>)
        ensures
            r@ == wire_data(*self),
    {
        self.inner.as_bytes().to_vec()
    }
}

} // verus!
