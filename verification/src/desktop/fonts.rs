//! Which system font files the desktop client can use for Chinese text.

use vstd::prelude::*;

verus! {

/// The font faces tried, in order: `(name, path, face index)`.
pub fn font_candidates() -> (r: Vec<(&'static str, &'static str, u32)>)
    ensures
        r@.len() == 5,
        r@[0].0@ == "msyh"@ && r@[0].1@ == "C:\\Windows\\Fonts\\msyh.ttc"@ && r@[0].2 == 0,
        r@[1].0@ == "msyhl"@ && r@[1].1@ == "C:\\Windows\\Fonts\\msyhl.ttc"@ && r@[1].2 == 0,
        r@[2].0@ == "simhei"@ && r@[2].1@ == "C:\\Windows\\Fonts\\simhei.ttf"@ && r@[2].2 == 0,
        r@[3].0@ == "simkai"@ && r@[3].1@ == "C:\\Windows\\Fonts\\simkai.ttf"@ && r@[3].2 == 0,
        r@[4].0@ == "simsun"@ && r@[4].1@ == "C:\\Windows\\Fonts\\simsun.ttc"@ && r@[4].2 == 0,
{
    vec![
        ("msyh", "C:\\Windows\\Fonts\\msyh.ttc", 0),
        ("msyhl", "C:\\Windows\\Fonts\\msyhl.ttc", 0),
        ("simhei", "C:\\Windows\\Fonts\\simhei.ttf", 0),
        ("simkai", "C:\\Windows\\Fonts\\simkai.ttf", 0),
        ("simsun", "C:\\Windows\\Fonts\\simsun.ttc", 0),
    ]
}

/// The first four bytes of a font file that the renderer reads: a font
/// collection (`ttcf`), OpenType (`OTTO`), TrueType (`true` or 0 1 0 0) or
/// PostScript (`typ1`).
pub open spec fn face_magic(m: Seq<u8>) -> bool {
    m == seq![0x74u8, 0x74, 0x63, 0x66] || m == seq![0x4fu8, 0x54, 0x54, 0x4f] || m == seq![
        0x74u8,
        0x72,
        0x75,
        0x65,
    ] || m == seq![0u8, 1, 0, 0] || m == seq![0x74u8, 0x79, 0x70, 0x31]
}

pub fn font_face_ok(bytes: &[u8]) -> (r: bool)
    requires
        bytes@.len() >= 4,
    ensures
        r == face_magic(bytes@.take(4)),
{
    let (a, b, c, d) = (bytes[0], bytes[1], bytes[2], bytes[3]);
    let ghost m = bytes@.take(4);
    assert(m[0] == a && m[1] == b && m[2] == c && m[3] == d);
    let r = (a == 0x74 && b == 0x74 && c == 0x63 && d == 0x66) || (a == 0x4f && b == 0x54 && c
        == 0x54 && d == 0x4f) || (a == 0x74 && b == 0x72 && c == 0x75 && d == 0x65) || (a == 0
        && b == 1 && c == 0 && d == 0) || (a == 0x74 && b == 0x79 && c == 0x70 && d == 0x31);
    proof {
        if a == 0x74 && b == 0x74 && c == 0x63 && d == 0x66 {
            assert(m =~= seq![0x74u8, 0x74, 0x63, 0x66]);
        }
        if a == 0x4f && b == 0x54 && c == 0x54 && d == 0x4f {
            assert(m =~= seq![0x4fu8, 0x54, 0x54, 0x4f]);
        }
        if a == 0x74 && b == 0x72 && c == 0x75 && d == 0x65 {
            assert(m =~= seq![0x74u8, 0x72, 0x75, 0x65]);
        }
        if a == 0 && b == 1 && c == 0 && d == 0 {
            assert(m =~= seq![0u8, 1, 0, 0]);
        }
        if a == 0x74 && b == 0x79 && c == 0x70 && d == 0x31 {
            assert(m =~= seq![0x74u8, 0x79, 0x70, 0x31]);
        }
    }
    r
}

/// Whether a read font file is used: more than four bytes, with a face
/// magic.
pub fn usable_font(bytes: &[u8]) -> (r: bool)
    ensures
        r == (bytes@.len() > 4 && face_magic(bytes@.take(4))),
{
    bytes.len() > 4 && font_face_ok(bytes)
}

} // verus!
