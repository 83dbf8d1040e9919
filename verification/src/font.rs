use vstd::prelude::*;

verus! {

/// The builtin glyph table: sixteen hexadecimal digits, five bytes each,
/// stored at the bottom of the address space.
pub open spec fn font_seq() -> Seq<u8> {
    seq![
    0xF0u8, 0x90u8, 0x90u8, 0x90u8, 0xF0u8,
    0x20u8, 0x60u8, 0x20u8, 0x20u8, 0x70u8,
    0xF0u8, 0x10u8, 0xF0u8, 0x80u8, 0xF0u8,
    0xF0u8, 0x10u8, 0xF0u8, 0x10u8, 0xF0u8,
    0x90u8, 0x90u8, 0xF0u8, 0x10u8, 0x10u8,
    0xF0u8, 0x80u8, 0xF0u8, 0x10u8, 0xF0u8,
    0xF0u8, 0x80u8, 0xF0u8, 0x90u8, 0xF0u8,
    0xF0u8, 0x10u8, 0x20u8, 0x40u8, 0x40u8,
    0xF0u8, 0x90u8, 0xF0u8, 0x90u8, 0xF0u8,
    0xF0u8, 0x90u8, 0xF0u8, 0x10u8, 0xF0u8,
    0xF0u8, 0x90u8, 0xF0u8, 0x90u8, 0x90u8,
    0xE0u8, 0x90u8, 0xE0u8, 0x90u8, 0xE0u8,
    0xF0u8, 0x80u8, 0x80u8, 0x80u8, 0xF0u8,
    0xE0u8, 0x90u8, 0x90u8, 0x90u8, 0xE0u8,
    0xF0u8, 0x80u8, 0xF0u8, 0x80u8, 0xF0u8,
    0xF0u8, 0x80u8, 0xF0u8, 0x80u8, 0x80u8,
    ]
}

/// Builds the glyph table as a byte vector, one glyph per five bytes.
pub fn font_table() -> (v: Vec<u8>)
    ensures
        v@ =~= font_seq(),
        v@.len() == 80,
{
    let mut v: Vec<u8> = Vec::new();
    v.push(0xF0); v.push(0x90); v.push(0x90); v.push(0x90); v.push(0xF0);
    v.push(0x20); v.push(0x60); v.push(0x20); v.push(0x20); v.push(0x70);
    v.push(0xF0); v.push(0x10); v.push(0xF0); v.push(0x80); v.push(0xF0);
    v.push(0xF0); v.push(0x10); v.push(0xF0); v.push(0x10); v.push(0xF0);
    v.push(0x90); v.push(0x90); v.push(0xF0); v.push(0x10); v.push(0x10);
    v.push(0xF0); v.push(0x80); v.push(0xF0); v.push(0x10); v.push(0xF0);
    v.push(0xF0); v.push(0x80); v.push(0xF0); v.push(0x90); v.push(0xF0);
    v.push(0xF0); v.push(0x10); v.push(0x20); v.push(0x40); v.push(0x40);
    v.push(0xF0); v.push(0x90); v.push(0xF0); v.push(0x90); v.push(0xF0);
    v.push(0xF0); v.push(0x90); v.push(0xF0); v.push(0x10); v.push(0xF0);
    v.push(0xF0); v.push(0x90); v.push(0xF0); v.push(0x90); v.push(0x90);
    v.push(0xE0); v.push(0x90); v.push(0xE0); v.push(0x90); v.push(0xE0);
    v.push(0xF0); v.push(0x80); v.push(0x80); v.push(0x80); v.push(0xF0);
    v.push(0xE0); v.push(0x90); v.push(0x90); v.push(0x90); v.push(0xE0);
    v.push(0xF0); v.push(0x80); v.push(0xF0); v.push(0x80); v.push(0xF0);
    v.push(0xF0); v.push(0x80); v.push(0xF0); v.push(0x80); v.push(0x80);
    v
}

} // verus!
