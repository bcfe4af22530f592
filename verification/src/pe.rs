//! The PE export lookup the kernel bootstrap relies on.

use vstd::prelude::*;
use vstd::bytes::spec_u32_from_le_bytes;
use vstd::bytes::u32_from_le_bytes;
use vstd::slice::slice_subrange;

verus! {

/// The relative virtual address under which a 64-bit PE image's export
/// table lists `name`, if the image parses and carries such a plain
/// symbol export.  A function of the image bytes and the name alone.
pub uninterp spec fn pe64_export_rva(image: Seq<u8>, name: Seq<char>) -> Option<u32>;

/// A little-endian 32-bit field of the image at byte offset `off`.
pub open spec fn image_u32(img: Seq<u8>, off: int) -> u32 {
    spec_u32_from_le_bytes(img.subrange(off, off + 4))
}

/// Whether the image may be handed to the PE export lookup.  pelite
/// tests whether an export is forwarded by adding the export data
/// directory's address and size as plain `u32`s, without validating
/// either header field first, so an image that is large enough to carry
/// 64-bit PE headers and whose export directory bounds, read at the
/// conventional offsets, wrap around `u32` is kept away from it.
pub open spec fn pe64_export_bounds_ok(img: Seq<u8>) -> bool {
    let lfanew = image_u32(img, 0x3c) as int;
    ||| img.len() < 0x40
    ||| img.len() < lfanew + 144
    ||| image_u32(img, lfanew + 136) as int + image_u32(img, lfanew + 140) as int
        <= u32::MAX as int
}

/// Decide `pe64_export_bounds_ok` on a concrete image: read the offset
/// of the NT headers, then the export data directory's address and size
/// at the conventional 64-bit PE offsets, and test their sum.
pub fn pe64_bounds_check(img: &Vec<u8>) -> (r: bool)
    ensures
        r == pe64_export_bounds_ok(img@),
{
    if img.len() < 0x40 {
        return true;
    }
    let lfanew = u32_from_le_bytes(slice_subrange(img.as_slice(), 0x3c, 0x40)) as u64;
    if (img.len() as u64) < lfanew + 144 {
        return true;
    }
    let base = lfanew as usize;
    let va = u32_from_le_bytes(slice_subrange(img.as_slice(), base + 136, base + 140)) as u64;
    let sz = u32_from_le_bytes(slice_subrange(img.as_slice(), base + 140, base + 144)) as u64;
    va + sz <= u32::MAX as u64
}

/// Relies on pelite's PeView::from_bytes and GetProcAddress::get_export:
/// parsing the image and looking the name up in its export table depend
/// on the bytes and the name alone, given an aligned buffer — pelite
/// refuses buffers whose address is not 4-byte aligned, so the image is
/// copied into an 8-byte-aligned backing before parsing.  A forwarded
/// export carries no in-image address and counts as absent here.  The
/// bounds precondition keeps out images on which pelite's forwarded-
/// export test would overflow a `u32` addition of two unvalidated
/// header fields.
#[verifier::external_body]
pub(crate) fn pe64_export(image: &Vec<u8>, name: &str) -> (r: Option<u32>)
    requires
        pe64_export_bounds_ok(image@),
    ensures
        r == pe64_export_rva(image@, name@),
{
    let mut backing: Vec<u64> = vec![0u64; image.len() / 8 + 1];
    let bytes: &mut [u8] = bytemuck::cast_slice_mut(&mut backing);
    bytes[..image.len()].copy_from_slice(image.as_slice());
    let pe = match pelite::pe64::PeView::from_bytes(&bytes[..image.len()]) {
        Ok(pe) => pe,
        Err(_) => return None,
    };
    match pelite::pe64::exports::GetProcAddress::get_export(pe, name) {
        Ok(e) => e.symbol(),
        Err(_) => None,
    }
}

} // verus!
