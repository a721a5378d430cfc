//! The byte stream that a rendering script writes its output into.

use vstd::prelude::*;
use vstd::string::*;

verus! {

/// `bytes::BytesMut`: a growable buffer of bytes.
#[verifier::external_type_specification]
#[verifier::external_body]
pub struct ExBytesMut(bytes::BytesMut);

/// The bytes that a `BytesMut` holds, in order.
pub uninterp spec fn bytes_mut_contents(b: bytes::BytesMut) -> Seq<u8>;

/// `BytesMut::new`: an empty buffer.
#[verifier::external_body]
fn bytes_mut_new() -> (b: bytes::BytesMut)
    ensures
        bytes_mut_contents(b) == Seq::<u8>::empty(),
{
    bytes::BytesMut::new()
}

/// `BytesMut::extend_from_slice`: the buffer holds what it held followed by
/// `data` (its capacity must not overflow).
#[verifier::external_body]
fn bytes_mut_extend(b: &mut bytes::BytesMut, data: &[u8])
    requires
        bytes_mut_contents(*old(b)).len() + data@.len() <= isize::MAX,
    ensures
        bytes_mut_contents(*final(b)) == bytes_mut_contents(*old(b)) + data@,
{
    b.extend_from_slice(data);
}

/// `BytesMut::clone`: a buffer with the same bytes.
#[verifier::external_body]
fn bytes_mut_clone(b: &bytes::BytesMut) -> (r: bytes::BytesMut)
    ensures
        bytes_mut_contents(r) == bytes_mut_contents(*b),
{
    b.clone()
}

/// The name under which a `ByteStream` is registered.
pub open spec fn byte_stream_name() -> Seq<char> {
    "ByteStream"@
}

/// A stream that collects the bytes written into it.
pub struct ByteStream {
    inner: bytes::BytesMut,
}

impl ByteStream {
    /// The bytes written so far, in order.
    pub closed spec fn contents(&self) -> Seq<u8> {
        bytes_mut_contents(self.inner)
    }

    /// An empty stream.
    pub fn new() -> (s: ByteStream)
        ensures
            s.contents() == Seq::<u8>::empty(),
    {
        ByteStream { inner: bytes_mut_new() }
    }

    /// The name under which the stream is registered: `ByteStream`.
    pub fn name() -> (r: String)
        ensures
            r@ == byte_stream_name(),
    {
        String::from_str("ByteStream")
    }

    /// Appends `buffer` to the stream and tells how many bytes were written:
    /// all of them.
    pub fn write(&mut self, buffer: &[u8]) -> (n: usize)
        requires
            old(self).contents().len() + buffer@.len() <= isize::MAX,
        ensures
            final(self).contents() == old(self).contents() + buffer@,
            n == buffer@.len(),
    {
        bytes_mut_extend(&mut self.inner, buffer);
        buffer.len()
    }

    /// A copy of everything written so far.
    pub fn consume(&self) -> (r: bytes::BytesMut)
        ensures
            bytes_mut_contents(r) == self.contents(),
    {
        bytes_mut_clone(&self.inner)
    }
}


/// The bytes of `buffers`, one after another.
pub open spec fn concatenation(buffers: Seq<Seq<u8>>) -> Seq<u8>
    decreases buffers.len(),
{
    if buffers.len() == 0 {
        Seq::empty()
    } else {
        concatenation(buffers.drop_last()) + buffers.last()
    }
}

/// A stream that starts empty and takes the writes `buffers[0]`, ...,
/// `buffers[k - 1]` in turn (`states[i]` being its contents after `i`
/// writes, as `ByteStream::new` and `ByteStream::write` state them) holds
/// their concatenation; `consume` gives those contents and leaves them, so
/// every later `consume` gives the same bytes.
pub proof fn law_writes_concatenate(states: Seq<Seq<u8>>, buffers: Seq<Seq<u8>>)
    requires
        states.len() == buffers.len() + 1,
        states[0] == Seq::<u8>::empty(),
        forall|i: int| 0 <= i < buffers.len() ==> #[trigger] states[i + 1] == states[i] + buffers[i],
    ensures
        states.last() == concatenation(buffers),
    decreases buffers.len(),
{
    if buffers.len() == 0 {
        assert(states.last() == states[0]);
    } else {
        let k = buffers.len() - 1;
        let s = states.drop_last();
        let b = buffers.drop_last();
        assert forall|i: int| 0 <= i < b.len() implies #[trigger] s[i + 1] == s[i] + b[i] by {
            assert(states[i + 1] == states[i] + buffers[i]);
        }
        law_writes_concatenate(s, b);
        assert(states[k + 1] == states[k] + buffers[k]);
        assert(states.last() == states[k + 1]);
        assert(s.last() == states[k]);
    }
}

} // verus!
