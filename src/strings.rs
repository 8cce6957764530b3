//! Text held in byte buffers.
use scroll::Error as ScrollError;
use scroll::Pread;
use vstd::prelude::*;

verus! {

/// The characters that the bytes `b` encode in UTF-8, or `None` where `b` is not UTF-8.
pub uninterp spec fn utf8_text(b: Seq<u8>) -> Option<Seq<char>>;

#[verifier::external_type_specification]
#[verifier::external_body]
pub struct ExScrollError(ScrollError);

/// Relies on scroll's `Pread::pread_with` of a `&str` with `StrCtx::Length(len)`:
/// where the `len` bytes from `offset` on lie in `data`, it decodes them as UTF-8 and
/// fails only where they are not UTF-8.
#[verifier::external_body]
pub(crate) fn read_str<'a>(data: &'a [u8], offset: usize, len: usize) -> (r: core::result::Result<
    &'a str,
    ScrollError,
>)
    requires
        offset + len <= data@.len(),
    ensures
        r is Ok <==> utf8_text(data@.subrange(offset as int, offset + len)) is Some,
        r is Ok ==> utf8_text(data@.subrange(offset as int, offset + len)) == Some(r->Ok_0@),
{
    data.pread_with::<&'a str>(offset, scroll::ctx::StrCtx::Length(len))
}

} // verus!
