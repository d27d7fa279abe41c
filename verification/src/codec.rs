//! The boundary to the outside crates: JSON parsing through serde_json, PNG
//! serialization through image, and one character-to-string conversion.
//!
//! Each function here is trusted: its body makes the outside call and its
//! contract states what that call's source shows.

use vstd::prelude::*;

verus! {

/// What serde_json makes of a text expected to be a JSON array of arrays of
/// strings: the grid when the text parses as that shape, `None` otherwise.
/// A function of the text alone.
pub uninterp spec fn json_grid_of(s: Seq<char>) -> Option<Seq<Seq<Seq<char>>>>;

/// What serde_json makes of a text expected to be a JSON object from names
/// to such grids: the mapping (duplicate keys resolved last-write-wins), or
/// `None` when the text does not parse as that shape.
pub uninterp spec fn json_textures_of(s: Seq<char>) -> Option<
    Map<Seq<char>, Seq<Seq<Seq<char>>>>,
>;

/// What the PNG serializer of the image crate produces for an RGBA buffer of
/// the given dimensions. Deterministic: a function of its arguments alone.
pub uninterp spec fn png_bytes_of(width: u32, height: u32, rgba: Seq<u8>) -> Seq<u8>;

/// A non-empty byte sequence opening with the eight-byte PNG signature.
pub open spec fn has_png_magic(b: Seq<u8>) -> bool {
    &&& b.len() > 8
    &&& b[0] == 137
    &&& b[1] == 80
    &&& b[2] == 78
    &&& b[3] == 71
    &&& b[4] == 13
    &&& b[5] == 10
    &&& b[6] == 26
    &&& b[7] == 10
}

/// The mapping a sequence of key-value pairs denotes, later pairs winning.
pub open spec fn pairs_to_map(ps: Seq<(Seq<char>, Seq<Seq<Seq<char>>>)>) -> Map<
    Seq<char>,
    Seq<Seq<Seq<char>>>,
>
    decreases ps.len(),
{
    if ps.len() == 0 {
        Map::empty()
    } else {
        pairs_to_map(ps.drop_last()).insert(ps.last().0, ps.last().1)
    }
}

#[verifier::external_type_specification]
#[verifier::external_body]
pub struct ExJsonError(serde_json::Error);

#[verifier::external_type_specification]
#[verifier::external_body]
pub struct ExImageError(image::ImageError);

/// Relies on serde_json::from_str deserializing into nested vectors of
/// strings: it succeeds exactly on texts of that JSON shape, and the result
/// depends on the text alone.
#[verifier::external_body]
pub fn parse_pixel_grid(s: &str) -> (r: Result<Vec<Vec<String>>, serde_json::Error>)
    ensures
        r is Ok <==> json_grid_of(s@) is Some,
        r is Ok ==> (r->Ok_0).deep_view() == json_grid_of(s@)->Some_0,
{
    serde_json::from_str(s)
}

/// Relies on serde_json::from_str deserializing a JSON object into a
/// HashMap: it succeeds exactly on texts of that shape, the returned pairs
/// carry distinct keys, and their mapping depends on the text alone. The
/// order of the pairs is left open.
#[verifier::external_body]
pub fn parse_texture_table(s: &str) -> (r: Result<
    Vec<(String, Vec<Vec<String>>)>,
    serde_json::Error,
>)
    ensures
        r is Ok <==> json_textures_of(s@) is Some,
        r is Ok ==> {
            let ps = (r->Ok_0).deep_view();
            &&& (forall|i: int, j: int| 0 <= i < j < ps.len() ==> ps[i].0 != ps[j].0)
            &&& pairs_to_map(ps) == json_textures_of(s@)->Some_0
        },
{
    match serde_json::from_str::<std::collections::HashMap<String, Vec<Vec<String>>>>(s) {
        Ok(m) => Ok(m.into_iter().collect()),
        Err(e) => Err(e),
    }
}

/// Relies on image::RgbaImage::from_raw, which accepts a buffer of exactly
/// 4*width*height bytes, and on ImageBuffer::write_to with PNG output, whose
/// byte stream is deterministic and (as the png crate's encoder shows)
/// starts with the eight-byte PNG signature followed by the header chunk.
/// Handed an exactly-sized 8-bit RGBA buffer and an in-memory writer, that
/// encode path fails exactly when a dimension is zero.
#[verifier::external_body]
pub fn encode_png_raw(width: u32, height: u32, rgba: Vec<u8>) -> (r: Result<
    Vec<u8>,
    image::ImageError,
>)
    requires
        rgba@.len() == 4 * width * height,
    ensures
        (r is Ok) <==> (width >= 1 && height >= 1),
        r is Ok ==> (r->Ok_0)@ == png_bytes_of(width, height, rgba@) && has_png_magic(
            (r->Ok_0)@,
        ),
{
    let img = image::RgbaImage::from_raw(width, height, rgba).unwrap();
    let mut buf: Vec<u8> = Vec::new();
    match img.write_to(&mut std::io::Cursor::new(&mut buf), image::ImageOutputFormat::Png) {
        Ok(()) => Ok(buf),
        Err(e) => Err(e),
    }
}

/// Relies on String's FromIterator over characters: the string made of
/// exactly the given characters, in order.
#[verifier::external_body]
pub fn string_from_chars(v: Vec<char>) -> (r: String)
    ensures
        r@ == v@,
{
    v.into_iter().collect()
}

} // verus!
