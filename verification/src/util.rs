//! File type detection for the files offered to a receiver.

use vstd::prelude::*;

verus! {

/// `bytes` starts with `prefix`.
pub open spec fn starts_with(bytes: Seq<u8>, prefix: Seq<u8>) -> bool {
    prefix.len() <= bytes.len() && bytes.take(prefix.len() as int) == prefix
}

/// Apple's uniform type identifier of a file from its first bytes: JPEG,
/// PNG, GIF, BMP (a generic image), ZIP, gzip, tar ("ustar" at the start or
/// at offset 257, as generic data), PDF; anything else is generic content.
pub open spec fn spec_uti_type(b: Seq<u8>) -> Seq<char> {
    if starts_with(b, seq![0xFFu8, 0xD8u8, 0xFFu8]) {
        "public.jpeg"@
    } else if starts_with(b, seq![0x89u8, 0x50u8, 0x4Eu8, 0x47u8, 0x0Du8, 0x0Au8, 0x1Au8, 0x0Au8]) {
        "public.png"@
    } else if starts_with(b, seq![0x47u8, 0x49u8, 0x46u8, 0x38u8]) {
        "com.compuserve.gif"@
    } else if starts_with(b, seq![0x42u8, 0x4Du8]) {
        "public.image"@
    } else if starts_with(b, seq![0x50u8, 0x4Bu8]) {
        "public.zip-archive"@
    } else if starts_with(b, seq![0x1Fu8, 0x8Bu8]) {
        "org.gnu.gnu-zip-archive"@
    } else if starts_with(b, ustar()) || (b.len() >= 262 && b.subrange(257, 262) == ustar()) {
        "public.data"@
    } else if starts_with(b, seq![0x25u8, 0x50u8, 0x44u8, 0x46u8]) {
        "com.adobe.pdf"@
    } else {
        "public.content"@
    }
}

/// The bytes of "ustar".
pub open spec fn ustar() -> Seq<u8> {
    seq![0x75u8, 0x73u8, 0x74u8, 0x61u8, 0x72u8]
}

/// Whether `bytes` starts with `prefix`.
pub fn has_prefix(bytes: &[u8], prefix: &[u8]) -> (r: bool)
    ensures
        r == starts_with(bytes@, prefix@),
{
    if prefix.len() > bytes.len() {
        return false;
    }
    let mut i: usize = 0;
    while i < prefix.len()
        invariant
            prefix@.len() <= bytes@.len(),
            i <= prefix@.len(),
            forall|j: int| 0 <= j < i ==> bytes@[j] == prefix@[j],
        decreases prefix@.len() - i,
    {
        if bytes[i] != prefix[i] {
            assert(bytes@.take(prefix@.len() as int)[i as int] != prefix@[i as int]);
            return false;
        }
        i += 1;
    }
    assert(bytes@.take(prefix@.len() as int) =~= prefix@);
    true
}

/// Apple's uniform type identifier of a file, from its first bytes.
pub fn get_uti_type(bytes: &[u8]) -> (r: &'static str)
    ensures
        r@ == spec_uti_type(bytes@),
{
    proof {
        reveal_strlit("public.jpeg");
        reveal_strlit("public.png");
        reveal_strlit("com.compuserve.gif");
        reveal_strlit("public.image");
        reveal_strlit("public.zip-archive");
        reveal_strlit("org.gnu.gnu-zip-archive");
        reveal_strlit("public.data");
        reveal_strlit("com.adobe.pdf");
        reveal_strlit("public.content");
    }
    let tar_magic: [u8; 5] = [0x75, 0x73, 0x74, 0x61, 0x72];
    assert(tar_magic@ == ustar());
    let jpeg: [u8; 3] = [0xFF, 0xD8, 0xFF];
    let png: [u8; 8] = [0x89, 0x50, 0x4E, 0x47, 0x0D, 0x0A, 0x1A, 0x0A];
    let gif: [u8; 4] = [0x47, 0x49, 0x46, 0x38];
    let bmp: [u8; 2] = [0x42, 0x4D];
    let zip: [u8; 2] = [0x50, 0x4B];
    let gz: [u8; 2] = [0x1F, 0x8B];
    let pdf: [u8; 4] = [0x25, 0x50, 0x44, 0x46];
    assert(jpeg@ == seq![0xFFu8, 0xD8u8, 0xFFu8]);
    assert(png@ == seq![0x89u8, 0x50u8, 0x4Eu8, 0x47u8, 0x0Du8, 0x0Au8, 0x1Au8, 0x0Au8]);
    assert(gif@ == seq![0x47u8, 0x49u8, 0x46u8, 0x38u8]);
    assert(bmp@ == seq![0x42u8, 0x4Du8]);
    assert(zip@ == seq![0x50u8, 0x4Bu8]);
    assert(gz@ == seq![0x1Fu8, 0x8Bu8]);
    assert(pdf@ == seq![0x25u8, 0x50u8, 0x44u8, 0x46u8]);
    if has_prefix(bytes, jpeg.as_slice()) {
        return "public.jpeg";
    }
    if has_prefix(bytes, png.as_slice()) {
        return "public.png";
    }
    if has_prefix(bytes, gif.as_slice()) {
        return "com.compuserve.gif";
    }
    if has_prefix(bytes, bmp.as_slice()) {
        return "public.image";
    }
    if has_prefix(bytes, zip.as_slice()) {
        return "public.zip-archive";
    }
    if has_prefix(bytes, gz.as_slice()) {
        return "org.gnu.gnu-zip-archive";
    }
    let tar_at_257 = bytes.len() >= 262 && has_prefix(vstd::slice::slice_subrange(bytes, 257, 262), tar_magic.as_slice());
    proof {
        if bytes@.len() >= 262 {
            assert(bytes@.subrange(257, 262).take(5) =~= bytes@.subrange(257, 262));
        }
    }
    if has_prefix(bytes, tar_magic.as_slice()) || tar_at_257 {
        return "public.data";
    }
    if has_prefix(bytes, pdf.as_slice()) {
        return "com.adobe.pdf";
    }
    "public.content"
}

} // verus!
