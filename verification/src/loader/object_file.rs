//! What the `object` crate reads from an executable image, as plain values.
//!
//! Each query parses the image bytes again with `object::File::parse`, which depends on
//! the bytes alone, and hands back plain values. The results are named here; nothing
//! below states what the parser computes beyond those names.

use vstd::prelude::*;
use object::{Object, ObjectSegment, ObjectSymbol};

verus! {

/// The message `object::File::parse` fails with on the bytes, or `None` when it parses.
pub uninterp spec fn parse_failure(data: Seq<u8>) -> Option<Seq<char>>;

/// `Object::entry` of the parsed image.
pub uninterp spec fn entry_of(data: Seq<u8>) -> u64;

/// The address and size (`ObjectSegment::address`, `size`) of each segment, in order.
pub uninterp spec fn segments_of(data: Seq<u8>) -> Seq<(u64, u64)>;

/// `ObjectSegment::data` of segment `i`: its bytes, or the message of its failure.
pub uninterp spec fn segment_data_of(data: Seq<u8>, i: int) -> Result<Seq<u8>, Seq<char>>;

/// Each dynamic symbol's address, whether it is undefined, and its name (`None` when the
/// name cannot be read).
pub uninterp spec fn dynamic_symbols_of(data: Seq<u8>) -> Seq<(u64, bool, Option<Seq<char>>)>;

/// The dynamic relocations, `None` when the image has none: each one's offset, the
/// index of its target symbol when the target is a symbol, and its addend.
pub uninterp spec fn dynamic_relocations_of(data: Seq<u8>) -> Option<Seq<(u64, Option<usize>, i64)>>;

/// Each symbol of the symbol table: whether it is undefined, and its name (`None` when
/// the name cannot be read).
pub uninterp spec fn symbols_of(data: Seq<u8>) -> Seq<(bool, Option<Seq<char>>)>;

/// Parses the image with `object::File::parse`; on failure gives the error's text.
#[verifier::external_body]
pub(crate) fn parse_check(data: &[u8]) -> (r: Result<(), String>)
    ensures
        match parse_failure(data@) {
            None => r is Ok,
            Some(m) => r matches Err(e) && e@ == m,
        },
{
    match object::File::parse(data) {
        Ok(_) => Ok(()),
        Err(e) => Err(e.to_string()),
    }
}

/// `Object::entry` of the parsed image.
#[verifier::external_body]
pub(crate) fn file_entry(data: &[u8]) -> (r: u64)
    requires
        parse_failure(data@) is None,
    ensures
        r == entry_of(data@),
{
    object::File::parse(data).map(|f| f.entry()).unwrap_or_default()
}

/// `Object::segments` of the parsed image: address and size of each.
#[verifier::external_body]
pub(crate) fn file_segments(data: &[u8]) -> (r: Vec<(u64, u64)>)
    requires
        parse_failure(data@) is None,
    ensures
        r@ == segments_of(data@),
{
    match object::File::parse(data) {
        Ok(f) => f.segments().map(|s| (s.address(), s.size())).collect(),
        Err(_) => Vec::new(),
    }
}

/// `ObjectSegment::data` of segment `i` of the parsed image; a failure gives its text.
#[verifier::external_body]
pub(crate) fn file_segment_data(data: &[u8], i: usize) -> (r: Result<Vec<u8>, String>)
    requires
        parse_failure(data@) is None,
        i < segments_of(data@).len(),
    ensures
        match segment_data_of(data@, i as int) {
            Ok(b) => r matches Ok(v) && v@ == b,
            Err(m) => r matches Err(e) && e@ == m,
        },
{
    let f = object::File::parse(data).map_err(|e| e.to_string())?;
    let seg = f.segments().nth(i).ok_or_else(String::new)?;
    seg.data().map(|d| d.to_vec()).map_err(|e| e.to_string())
}

/// `Object::dynamic_symbols` of the parsed image: address, undefinedness and name.
#[verifier::external_body]
pub(crate) fn file_dynamic_symbols(data: &[u8]) -> (r: Vec<(u64, bool, Option<String>)>)
    requires
        parse_failure(data@) is None,
    ensures
        r.deep_view() == dynamic_symbols_of(data@),
{
    match object::File::parse(data) {
        Ok(f) => f.dynamic_symbols().map(|s| (s.address(), s.is_undefined(), s.name().ok().map(String::from))).collect(),
        Err(_) => Vec::new(),
    }
}

/// `Object::dynamic_relocations` of the parsed image: offset, symbol target, addend.
#[verifier::external_body]
pub(crate) fn file_dynamic_relocations(data: &[u8]) -> (r: Option<Vec<(u64, Option<usize>, i64)>>)
    requires
        parse_failure(data@) is None,
    ensures
        r.deep_view() == dynamic_relocations_of(data@),
{
    let f = object::File::parse(data).ok()?;
    let relocs = f.dynamic_relocations()?;
    Some(relocs.map(|(a, r)| match r.target() {
        object::RelocationTarget::Symbol(s) => (a, Some(s.0), r.addend()),
        _ => (a, None, r.addend()),
    }).collect())
}

/// `Object::symbols` of the parsed image: undefinedness and name.
#[verifier::external_body]
pub(crate) fn file_symbols(data: &[u8]) -> (r: Vec<(bool, Option<String>)>)
    requires
        parse_failure(data@) is None,
    ensures
        r.deep_view() == symbols_of(data@),
{
    match object::File::parse(data) {
        Ok(f) => f.symbols().map(|s| (s.is_undefined(), s.name().ok().map(String::from))).collect(),
        Err(_) => Vec::new(),
    }
}

} // verus!
