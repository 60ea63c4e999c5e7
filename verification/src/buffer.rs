use bytes::BytesMut;
use vstd::prelude::*;
use vstd::string::*;

verus! {

#[verifier::external_type_specification]
#[verifier::external_body]
pub struct ExBytesMut(bytes::BytesMut);

/// The bytes that a `BytesMut` holds, in order.
pub uninterp spec fn bytes_mut_contents(b: BytesMut) -> Seq<u8>;

/// `<BytesMut as AsRef<[u8]>>::as_ref`: the bytes the buffer holds. A buffer
/// lives in one allocation, so it never holds more than `isize::MAX` bytes.
#[verifier::external_body]
pub(crate) fn bytes_mut_as_slice(b: &BytesMut) -> (r: &[u8])
    ensures
        r@ == bytes_mut_contents(*b),
        r@.len() <= isize::MAX,
{
    b.as_ref()
}

/// `<BytesMut as std::fmt::Write>::write_str`: appends the UTF-8 bytes of `s`
/// when they fit below `isize::MAX` bytes in all, and reports whether it did;
/// otherwise the buffer is left as it was.
#[verifier::external_body]
pub(crate) fn bytes_mut_write_str(b: &mut BytesMut, s: &str) -> (written: bool)
    requires
        bytes_mut_contents(*old(b)).len() <= isize::MAX,
    ensures
        written == (s.spec_bytes().len() <= isize::MAX - bytes_mut_contents(*old(b)).len()),
        written ==> bytes_mut_contents(*final(b)) == bytes_mut_contents(*old(b)) + s.spec_bytes(),
        !written ==> bytes_mut_contents(*final(b)) == bytes_mut_contents(*old(b)),
{
    std::fmt::Write::write_str(b, s).is_ok()
}

} // verus!
