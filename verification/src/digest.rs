//! The MD5 accumulator that the reader and the writer feed with records.

use vstd::prelude::*;

verus! {

/// The accumulator of the `md5` crate. Nothing inside it is visible to the
/// verifier.
#[verifier::external_type_specification]
#[verifier::external_body]
pub struct ExMd5Context(md5::Context);

/// The bytes that an accumulator has consumed since it was made, in the
/// order in which it consumed them.
pub uninterp spec fn md5_input(ctx: md5::Context) -> Seq<u8>;

/// The MD5 digest of a byte string: what `md5::Context::compute` returns
/// for an accumulator that has consumed that string.
pub uninterp spec fn md5_digest(input: Seq<u8>) -> Seq<u8>;

/// `md5::Context::new`: a fresh accumulator has consumed nothing.
#[verifier::external_body]
pub(crate) fn md5_new() -> (ctx: md5::Context)
    ensures
        md5_input(ctx) == Seq::<u8>::empty(),
{
    md5::Context::new()
}

/// `md5::Context::consume`: the bytes of `data` are added to the end of
/// what the accumulator has consumed.
#[verifier::external_body]
pub(crate) fn md5_consume(ctx: &mut md5::Context, data: &[u8; 32])
    ensures
        md5_input(*final(ctx)) == md5_input(*old(ctx)) + data@,
{
    ctx.consume(data)
}

/// `md5::Context::compute`: the digest of all that the accumulator has
/// consumed, which depends on those bytes alone.
#[verifier::external_body]
pub(crate) fn md5_compute(ctx: md5::Context) -> (digest: [u8; 16])
    ensures
        digest@ == md5_digest(md5_input(ctx)),
{
    ctx.compute().into()
}

/// `Clone::clone` of `md5::Context`: the copy has consumed the same bytes.
pub assume_specification[ <md5::Context as Clone>::clone ](ctx: &md5::Context) -> (copy:
    md5::Context)
    ensures
        md5_input(copy) == md5_input(*ctx),
;

/// The digest of a byte string as the 16 bytes that a digest has.
pub open spec fn md5_of(input: Seq<u8>) -> Seq<u8> {
    Seq::new(16, |i: int| md5_digest(input)[i])
}

/// The digest of all that an accumulator has consumed. The accumulator can
/// go on consuming.
pub(crate) fn md5_finish(ctx: &md5::Context) -> (digest: [u8; 16])
    ensures
        digest@ == md5_of(md5_input(*ctx)),
{
    let digest = md5_compute(ctx.clone());
    assert(digest@ =~= md5_of(md5_input(*ctx)));
    digest
}

} // verus!
