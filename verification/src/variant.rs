//! The dynamically typed value of a property-query response, and the
//! decoders that extract concrete scalars, strings and mapping entries from
//! it. Every decoder degrades to "value unavailable" on a shape mismatch
//! instead of failing.

use vstd::prelude::*;

use crate::text::str_eq;

verus! {

/// A recursively typed property-response value.
pub enum Variant {
    /// An unsigned 32-bit integer.
    U32(u32),
    /// A signed 32-bit integer.
    I32(i32),
    /// A 64-bit floating-point number, carried by its bit pattern.
    FloatBits(u64),
    /// A text value.
    Str(String),
    /// An ordered sequence of values.
    List(Vec<Variant>),
    /// A mapping, as the ordered sequence of its key-value entries.
    Mapping(Vec<(Variant, Variant)>),
    /// One layer of labelled indirection around a value.
    Labelled(Box<Variant>),
}

/// Remove one layer of labelled indirection, if present.
pub open spec fn peel(v: Variant) -> Variant {
    match v {
        Variant::Labelled(inner) => *inner,
        _ => v,
    }
}

/// Executable mirror of `peel`.
pub fn peel_ref(v: &Variant) -> (r: &Variant)
    ensures
        *r == peel(*v),
{
    match v {
        Variant::Labelled(inner) => &**inner,
        _ => v,
    }
}

/// A signed 32-bit value reinterpreted as its unsigned bit pattern.
pub open spec fn as_unsigned(x: i32) -> u32 {
    if x >= 0 {
        x as u32
    } else {
        (x + 0x1_0000_0000) as u32
    }
}

/// Reinterpret a signed 32-bit value as its unsigned bit pattern.
pub fn reinterpret_unsigned(x: i32) -> (r: u32)
    ensures
        r == as_unsigned(x),
{
    if x >= 0 {
        x as u32
    } else {
        ((x as i64) + 0x1_0000_0000i64) as u32
    }
}

/// What `as_u32` returns: the value of an unsigned or signed 32-bit integer,
/// the signed case reinterpreted as unsigned, after unwrapping one labelled
/// layer; nothing for every other shape.
pub open spec fn as_u32_spec(v: Variant) -> Option<u32> {
    match peel(v) {
        Variant::U32(x) => Some(x),
        Variant::I32(x) => Some(as_unsigned(x)),
        _ => None,
    }
}

/// Decode an integer-shaped value as unsigned 32-bit.
pub fn as_u32(v: &Variant) -> (r: Option<u32>)
    ensures
        r == as_u32_spec(*v),
{
    match peel_ref(v) {
        Variant::U32(x) => Some(*x),
        Variant::I32(x) => Some(reinterpret_unsigned(*x)),
        _ => None,
    }
}

/// What `as_str` returns: the characters of a text-shaped value, after
/// unwrapping one labelled layer; nothing for every other shape.
pub open spec fn as_str_spec(v: Variant) -> Option<Seq<char>> {
    match peel(v) {
        Variant::Str(s) => Some(s@),
        _ => None,
    }
}

/// Decode a text-shaped value.
pub fn as_str<'a>(v: &'a Variant) -> (r: Option<&'a String>)
    ensures
        match r {
            Some(s) => as_str_spec(*v) == Some(s@),
            None => as_str_spec(*v) is None,
        },
{
    match peel_ref(v) {
        Variant::Str(s) => Some(s),
        _ => None,
    }
}

/// What `as_float_bits` returns: the bit pattern of a float-shaped value,
/// after unwrapping one labelled layer; nothing for every other shape.
pub open spec fn as_float_bits_spec(v: Variant) -> Option<u64> {
    match peel(v) {
        Variant::FloatBits(b) => Some(b),
        _ => None,
    }
}

/// Decode a float-shaped value as its 64-bit pattern.
pub fn as_float_bits(v: &Variant) -> (r: Option<u64>)
    ensures
        r == as_float_bits_spec(*v),
{
    match peel_ref(v) {
        Variant::FloatBits(b) => Some(*b),
        _ => None,
    }
}

/// The first element of a sequence-shaped response, or nothing when it is
/// empty.
pub fn first_of<'a>(items: &'a Vec<Variant>) -> (r: Option<&'a Variant>)
    ensures
        match r {
            Some(v) => items@.len() > 0 && *v == items@[0],
            None => items@.len() == 0,
        },
{
    if items.len() > 0 {
        Some(&items[0])
    } else {
        None
    }
}

/// The value of the first entry whose key is the given text, scanning the
/// entries in order.
pub open spec fn mapping_lookup_str(pairs: Seq<(Variant, Variant)>, key: Seq<char>) -> Option<
    Variant,
>
    decreases pairs.len(),
{
    if pairs.len() == 0 {
        None
    } else if pairs[0].0 matches Variant::Str(s) && s@ == key {
        Some(pairs[0].1)
    } else {
        mapping_lookup_str(pairs.drop_first(), key)
    }
}

/// The value of the first entry whose key is the given unsigned integer,
/// scanning the entries in order.
pub open spec fn mapping_lookup_u32(pairs: Seq<(Variant, Variant)>, key: u32) -> Option<Variant>
    decreases pairs.len(),
{
    if pairs.len() == 0 {
        None
    } else if pairs[0].0 matches Variant::U32(k) && k == key {
        Some(pairs[0].1)
    } else {
        mapping_lookup_u32(pairs.drop_first(), key)
    }
}

/// What looking a text key up in a value yields: the first matching entry of
/// a mapping-shaped value, nothing for an absent key or any other shape.
pub open spec fn lookup_str_spec(v: Variant, key: Seq<char>) -> Option<Variant> {
    match v {
        Variant::Mapping(pairs) => mapping_lookup_str(pairs@, key),
        _ => None,
    }
}

/// Look a text key up in a mapping-shaped value.
pub fn lookup_mapping_str<'a>(v: &'a Variant, key: &str) -> (r: Option<&'a Variant>)
    ensures
        match r {
            Some(val) => lookup_str_spec(*v, key@) == Some(*val),
            None => lookup_str_spec(*v, key@) is None,
        },
{
    match v {
        Variant::Mapping(pairs) => {
            let n = pairs.len();
            let mut i: usize = 0;
            proof {
                assert(pairs@.skip(0) =~= pairs@);
            }
            while i < n
                invariant
                    n == pairs@.len(),
                    i <= n,
                    lookup_str_spec(*v, key@) == mapping_lookup_str(pairs@, key@),
                    mapping_lookup_str(pairs@.skip(i as int), key@) == mapping_lookup_str(
                        pairs@,
                        key@,
                    ),
                decreases n - i,
            {
                proof {
                    crate::text::lemma_skip_step(pairs@, i as int);
                }
                match &pairs[i].0 {
                    Variant::Str(s) => {
                        if str_eq(s.as_str(), key) {
                            return Some(&pairs[i].1);
                        }
                    },
                    _ => {},
                }
                i += 1;
            }
            proof {
                assert(pairs@.skip(n as int) =~= Seq::<(Variant, Variant)>::empty());
            }
            None
        },
        _ => None,
    }
}

/// Look an unsigned-integer key up in a mapping-shaped value.
pub open spec fn lookup_u32_spec(v: Variant, key: u32) -> Option<Variant> {
    match v {
        Variant::Mapping(pairs) => mapping_lookup_u32(pairs@, key),
        _ => None,
    }
}

/// Look an unsigned-integer key up in a mapping-shaped value.
pub fn lookup_mapping_u32<'a>(v: &'a Variant, key: u32) -> (r: Option<&'a Variant>)
    ensures
        match r {
            Some(val) => lookup_u32_spec(*v, key) == Some(*val),
            None => lookup_u32_spec(*v, key) is None,
        },
{
    match v {
        Variant::Mapping(pairs) => {
            let n = pairs.len();
            let mut i: usize = 0;
            proof {
                assert(pairs@.skip(0) =~= pairs@);
            }
            while i < n
                invariant
                    n == pairs@.len(),
                    i <= n,
                    lookup_u32_spec(*v, key) == mapping_lookup_u32(pairs@, key),
                    mapping_lookup_u32(pairs@.skip(i as int), key) == mapping_lookup_u32(
                        pairs@,
                        key,
                    ),
                decreases n - i,
            {
                proof {
                    crate::text::lemma_skip_step(pairs@, i as int);
                }
                match &pairs[i].0 {
                    Variant::U32(k) => {
                        if *k == key {
                            return Some(&pairs[i].1);
                        }
                    },
                    _ => {},
                }
                i += 1;
            }
            proof {
                assert(pairs@.skip(n as int) =~= Seq::<(Variant, Variant)>::empty());
            }
            None
        },
        _ => None,
    }
}

/// Decoding round-trip: an unsigned integer wrapped in one labelled layer
/// decodes back to the original value.
pub proof fn lemma_labelled_u32_roundtrip(b: Box<Variant>, x: u32)
    requires
        *b == Variant::U32(x),
    ensures
        as_u32_spec(Variant::Labelled(b)) == Some(x),
{
}

/// A float-shaped value never decodes as an unsigned integer.
pub proof fn lemma_float_is_not_u32(bits: u64)
    ensures
        as_u32_spec(Variant::FloatBits(bits)) is None,
{
}

} // verus!
