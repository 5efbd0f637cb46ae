//! The semantic projection of raw IFD entries: a fixed table from
//! tag id to a named, typed `TiffTag` variant.

use vstd::prelude::*;

use crate::error::DecodeError;
use crate::tiff::{IFDEntry, IFDEntryValue, TiffError};
use crate::utils::{dec_seq, dec_seq_signed, i32_to_decimal, lossy_string, u32_to_decimal,
    utf8_lossy};

verus! {

/// An exact numeric value read from a TIFF entry: an unsigned or
/// signed rational kept as its numerator/denominator pair, or the
/// raw bit pattern of an IEEE-754 double.
///
/// The quotient (or the floating-point reading of the bits) is left
/// to the caller; nothing lossy happens during decoding.
#[derive(Debug, Clone, Copy, PartialEq, Eq, Structural)]
pub enum RationalValue {
    Rational(u32, u32),
    SRational(i32, i32),
    DoubleBits(u64),
}

/// Whether every value is ASCII-typed.
pub open spec fn all_ascii(vs: Seq<IFDEntryValue>) -> bool {
    forall|i: int| 0 <= i < vs.len() ==> (#[trigger] vs[i]) matches IFDEntryValue::ASCII(_)
}

/// The bytes of a run of ASCII values, with the trailing NUL
/// terminators stripped; interior NULs stay in place.
pub open spec fn ascii_bytes(vs: Seq<IFDEntryValue>) -> Seq<u8> {
    crate::utils::strip_trailing_nul(raw_bytes(vs))
}

/// Whether every value is byte-sized (BYTE, ASCII or UNDEFINED).
pub open spec fn all_raw_bytes(vs: Seq<IFDEntryValue>) -> bool {
    forall|i: int|
        0 <= i < vs.len() ==> ((#[trigger] vs[i]) matches IFDEntryValue::BYTE(_) || vs[
            i
        ] matches IFDEntryValue::ASCII(_) || vs[i] matches IFDEntryValue::UNDEFINED(_))
}

/// The payload byte of a byte-sized value.
pub open spec fn raw_byte_of(v: IFDEntryValue) -> u8 {
    match v {
        IFDEntryValue::BYTE(b) => b,
        IFDEntryValue::ASCII(b) => b,
        IFDEntryValue::UNDEFINED(b) => b,
        _ => 0,
    }
}

/// The bytes of a run of byte-sized values, in order.
pub open spec fn raw_bytes(vs: Seq<IFDEntryValue>) -> Seq<u8> {
    vs.map_values(|v: IFDEntryValue| raw_byte_of(v))
}

/// Whether every value is UNDEFINED-typed.
pub open spec fn all_undefined(vs: Seq<IFDEntryValue>) -> bool {
    forall|i: int| 0 <= i < vs.len() ==> (#[trigger] vs[i]) matches IFDEntryValue::UNDEFINED(_)
}

/// Whether every value is numeric in the wide sense: an unsigned or
/// signed rational, or a double.
pub open spec fn all_rational(vs: Seq<IFDEntryValue>) -> bool {
    forall|i: int|
        0 <= i < vs.len() ==> ((#[trigger] vs[i]) matches IFDEntryValue::RATIONAL(_, _) || vs[
            i
        ] matches IFDEntryValue::SRATIONAL(_, _) || vs[i] matches IFDEntryValue::DOUBLE(_))
}

/// The exact numeric reading of one rational or double value.
pub open spec fn rational_of(v: IFDEntryValue) -> RationalValue {
    match v {
        IFDEntryValue::RATIONAL(a, b) => RationalValue::Rational(a, b),
        IFDEntryValue::SRATIONAL(a, b) => RationalValue::SRational(a, b),
        IFDEntryValue::DOUBLE(d) => RationalValue::DoubleBits(d),
        _ => RationalValue::Rational(0, 0),
    }
}

/// The exact numeric readings of a run of rational or double values.
pub open spec fn rational_seq(vs: Seq<IFDEntryValue>) -> Seq<RationalValue> {
    vs.map_values(|v: IFDEntryValue| rational_of(v))
}

/// The `"numerator/denominator"` rendering of an unsigned rational.
pub open spec fn rational_repr(a: u32, b: u32) -> Seq<char> {
    dec_seq(a as nat) + seq!['/'] + dec_seq(b as nat)
}

/// The `"numerator/denominator"` rendering of a signed rational.
pub open spec fn srational_repr(a: i32, b: i32) -> Seq<char> {
    dec_seq_signed(a as int) + seq!['/'] + dec_seq_signed(b as int)
}

/// Extracts the string held by an all-ASCII entry, dropping the
/// trailing NUL terminators; any other value type is a
/// `TypeMismatch`.
fn ascii_string_of(entry: &IFDEntry) -> (r: Result<String, TiffError>)
    ensures
        match r {
            Ok(s) => all_ascii(entry.values@) && s@ == utf8_lossy(ascii_bytes(entry.values@)),
            Err(e) => !all_ascii(entry.values@) && e == (TiffError(DecodeError::TypeMismatch)),
        },
{
    let ghost vs = entry.values@;
    let mut kept: Vec<u8> = Vec::new();
    let mut i: usize = 0;
    while i < entry.values.len()
        invariant
            vs == entry.values@,
            i <= vs.len(),
            all_ascii(vs.subrange(0, i as int)),
            kept@ == raw_bytes(vs.subrange(0, i as int)),
        decreases vs.len() - i,
    {
        match entry.values[i] {
            IFDEntryValue::ASCII(b) => kept.push(b),
            _ => {
                return Err(TiffError(DecodeError::TypeMismatch));
            },
        }
        proof {
            assert(vs.subrange(0, i + 1).drop_last() =~= vs.subrange(0, i as int));
            assert(vs.subrange(0, i + 1).last() == vs[i as int]);
            assert(raw_bytes(vs.subrange(0, i + 1)) =~= raw_bytes(vs.subrange(0, i as int)).push(
                raw_byte_of(vs[i as int]),
            ));
        }
        i = i + 1;
    }
    proof {
        assert(vs.subrange(0, vs.len() as int) =~= vs);
    }
    crate::utils::drop_trailing_nuls(&mut kept);
    Ok(lossy_string(kept.as_slice()))
}

/// Extracts the payload bytes of an entry whose values are all
/// byte-sized (BYTE, ASCII or UNDEFINED), in order.
fn bytes_of(entry: &IFDEntry) -> (r: Result<Vec<u8>, TiffError>)
    ensures
        match r {
            Ok(v) => all_raw_bytes(entry.values@) && v@ == raw_bytes(entry.values@),
            Err(e) => !all_raw_bytes(entry.values@) && e == (TiffError(DecodeError::TypeMismatch)),
        },
{
    let ghost vs = entry.values@;
    let mut out: Vec<u8> = Vec::new();
    let mut i: usize = 0;
    while i < entry.values.len()
        invariant
            vs == entry.values@,
            i <= vs.len(),
            all_raw_bytes(vs.subrange(0, i as int)),
            out@ == raw_bytes(vs.subrange(0, i as int)),
        decreases vs.len() - i,
    {
        match entry.values[i] {
            IFDEntryValue::BYTE(b) => out.push(b),
            IFDEntryValue::ASCII(b) => out.push(b),
            IFDEntryValue::UNDEFINED(b) => out.push(b),
            _ => {
                return Err(TiffError(DecodeError::TypeMismatch));
            },
        }
        proof {
            assert(vs.subrange(0, i + 1).drop_last() =~= vs.subrange(0, i as int));
            assert(vs.subrange(0, i + 1).last() == vs[i as int]);
            assert(raw_bytes(vs.subrange(0, i + 1)) =~= raw_bytes(vs.subrange(0, i as int)).push(
                raw_byte_of(vs[i as int]),
            ));
        }
        i = i + 1;
    }
    proof {
        assert(vs.subrange(0, vs.len() as int) =~= vs);
    }
    Ok(out)
}

/// Decodes an all-UNDEFINED entry's bytes as lossy UTF-8.
fn undefined_string_of(entry: &IFDEntry) -> (r: Result<String, TiffError>)
    ensures
        match r {
            Ok(s) => all_undefined(entry.values@) && s@ == utf8_lossy(raw_bytes(entry.values@)),
            Err(e) => !all_undefined(entry.values@) && e == (TiffError(DecodeError::TypeMismatch)),
        },
{
    let ghost vs = entry.values@;
    let mut out: Vec<u8> = Vec::new();
    let mut i: usize = 0;
    while i < entry.values.len()
        invariant
            vs == entry.values@,
            i <= vs.len(),
            all_undefined(vs.subrange(0, i as int)),
            out@ == raw_bytes(vs.subrange(0, i as int)),
        decreases vs.len() - i,
    {
        match entry.values[i] {
            IFDEntryValue::UNDEFINED(b) => out.push(b),
            _ => {
                return Err(TiffError(DecodeError::TypeMismatch));
            },
        }
        proof {
            assert(vs.subrange(0, i + 1).drop_last() =~= vs.subrange(0, i as int));
            assert(vs.subrange(0, i + 1).last() == vs[i as int]);
            assert(raw_bytes(vs.subrange(0, i + 1)) =~= raw_bytes(vs.subrange(0, i as int)).push(
                raw_byte_of(vs[i as int]),
            ));
        }
        i = i + 1;
    }
    proof {
        assert(vs.subrange(0, vs.len() as int) =~= vs);
    }
    Ok(lossy_string(out.as_slice()))
}

/// Extracts the exact numeric values of an entry whose values are
/// all rationals or doubles.
fn rationals_of(entry: &IFDEntry) -> (r: Result<Vec<RationalValue>, TiffError>)
    ensures
        match r {
            Ok(v) => all_rational(entry.values@) && v@ == rational_seq(entry.values@),
            Err(e) => !all_rational(entry.values@) && e == (TiffError(DecodeError::TypeMismatch)),
        },
{
    let ghost vs = entry.values@;
    let mut out: Vec<RationalValue> = Vec::new();
    let mut i: usize = 0;
    while i < entry.values.len()
        invariant
            vs == entry.values@,
            i <= vs.len(),
            all_rational(vs.subrange(0, i as int)),
            out@ == rational_seq(vs.subrange(0, i as int)),
        decreases vs.len() - i,
    {
        match entry.values[i] {
            IFDEntryValue::RATIONAL(a, b) => out.push(RationalValue::Rational(a, b)),
            IFDEntryValue::SRATIONAL(a, b) => out.push(RationalValue::SRational(a, b)),
            IFDEntryValue::DOUBLE(d) => out.push(RationalValue::DoubleBits(d)),
            _ => {
                return Err(TiffError(DecodeError::TypeMismatch));
            },
        }
        proof {
            assert(vs.subrange(0, i + 1).drop_last() =~= vs.subrange(0, i as int));
            assert(vs.subrange(0, i + 1).last() == vs[i as int]);
            assert(rational_seq(vs.subrange(0, i + 1)) =~= rational_seq(
                vs.subrange(0, i as int),
            ).push(rational_of(vs[i as int])));
        }
        i = i + 1;
    }
    proof {
        assert(vs.subrange(0, vs.len() as int) =~= vs);
    }
    Ok(out)
}

/// Extracts the single rational or double of a one-value entry.
fn single_rational_of(entry: &IFDEntry) -> (r: Result<RationalValue, TiffError>)
    ensures
        match r {
            Ok(v) => entry.values@.len() == 1 && (entry.values@[0] matches IFDEntryValue::RATIONAL(
                _,
                _,
            ) || entry.values@[0] matches IFDEntryValue::SRATIONAL(_, _)
                || entry.values@[0] matches IFDEntryValue::DOUBLE(_)) && v == rational_of(
                entry.values@[0],
            ),
            Err(e) => {
                &&& entry.values@.len() != 1 ==> e == (TiffError(DecodeError::ArityMismatch))
                &&& entry.values@.len() == 1 ==> !(entry.values@[0]
                    matches IFDEntryValue::RATIONAL(_, _) || entry.values@[0]
                    matches IFDEntryValue::SRATIONAL(_, _) || entry.values@[0]
                    matches IFDEntryValue::DOUBLE(_))
                &&& entry.values@.len() == 1 ==> e == (TiffError(DecodeError::TypeMismatch))
            },
        },
{
    let v = entry.get_single_value()?;
    match v {
        IFDEntryValue::RATIONAL(a, b) => Ok(RationalValue::Rational(a, b)),
        IFDEntryValue::SRATIONAL(a, b) => Ok(RationalValue::SRational(a, b)),
        IFDEntryValue::DOUBLE(d) => Ok(RationalValue::DoubleBits(d)),
        _ => Err(TiffError(DecodeError::TypeMismatch)),
    }
}

/// Renders a one-value RATIONAL or SRATIONAL entry exactly as
/// `"numerator/denominator"`.
fn rational_repr_of(entry: &IFDEntry) -> (r: Result<String, TiffError>)
    ensures
        match r {
            Ok(s) => entry.values@.len() == 1 && match entry.values@[0] {
                IFDEntryValue::RATIONAL(a, b) => s@ == rational_repr(a, b),
                IFDEntryValue::SRATIONAL(a, b) => s@ == srational_repr(a, b),
                _ => false,
            },
            Err(e) => {
                &&& entry.values@.len() != 1 ==> e == (TiffError(DecodeError::ArityMismatch))
                &&& entry.values@.len() == 1 ==> !(entry.values@[0]
                    matches IFDEntryValue::RATIONAL(_, _) || entry.values@[0]
                    matches IFDEntryValue::SRATIONAL(_, _))
                &&& entry.values@.len() == 1 ==> e == (TiffError(DecodeError::TypeMismatch))
            },
        },
{
    proof {
        reveal_strlit("/");
    }
    let v = entry.get_single_value()?;
    match v {
        IFDEntryValue::RATIONAL(a, b) => {
            let mut s = u32_to_decimal(a);
            s.append("/");
            let den = u32_to_decimal(b);
            s.append(den.as_str());
            proof {
                assert(("/"@) =~= seq!['/']);
            }
            Ok(s)
        },
        IFDEntryValue::SRATIONAL(a, b) => {
            let mut s = i32_to_decimal(a);
            s.append("/");
            let den = i32_to_decimal(b);
            s.append(den.as_str());
            proof {
                assert(("/"@) =~= seq!['/']);
            }
            Ok(s)
        },
        _ => Err(TiffError(DecodeError::TypeMismatch)),
    }
}

/// Extracts the single SHORT of a one-value entry.
fn ushort_of(entry: &IFDEntry) -> (r: Result<u16, TiffError>)
    ensures
        match r {
            Ok(v) => entry.values@.len() == 1 && entry.values@[0] == IFDEntryValue::SHORT(v),
            Err(e) => {
                &&& entry.values@.len() != 1 ==> e == (TiffError(DecodeError::ArityMismatch))
                &&& entry.values@.len() == 1 ==> !(entry.values@[
                    0
                ] matches IFDEntryValue::SHORT(_)) && e == (TiffError(DecodeError::TypeMismatch))
            },
        },
{
    let v = entry.get_single_value()?;
    match v {
        IFDEntryValue::SHORT(x) => Ok(x),
        _ => Err(TiffError(DecodeError::TypeMismatch)),
    }
}

/// Extracts the single LONG of a one-value entry.
fn ulong_of(entry: &IFDEntry) -> (r: Result<u32, TiffError>)
    ensures
        match r {
            Ok(v) => entry.values@.len() == 1 && entry.values@[0] == IFDEntryValue::LONG(v),
            Err(e) => {
                &&& entry.values@.len() != 1 ==> e == (TiffError(DecodeError::ArityMismatch))
                &&& entry.values@.len() == 1 ==> !(entry.values@[0] matches IFDEntryValue::LONG(_))
                    && e == (TiffError(DecodeError::TypeMismatch))
            },
        },
{
    let v = entry.get_single_value()?;
    match v {
        IFDEntryValue::LONG(x) => Ok(x),
        _ => Err(TiffError(DecodeError::TypeMismatch)),
    }
}

/// Extracts the single BYTE of a one-value entry.
fn ubyte_of(entry: &IFDEntry) -> (r: Result<u8, TiffError>)
    ensures
        match r {
            Ok(v) => entry.values@.len() == 1 && entry.values@[0] == IFDEntryValue::BYTE(v),
            Err(e) => {
                &&& entry.values@.len() != 1 ==> e == (TiffError(DecodeError::ArityMismatch))
                &&& entry.values@.len() == 1 ==> !(entry.values@[0] matches IFDEntryValue::BYTE(_))
                    && e == (TiffError(DecodeError::TypeMismatch))
            },
        },
{
    let v = entry.get_single_value()?;
    match v {
        IFDEntryValue::BYTE(x) => Ok(x),
        _ => Err(TiffError(DecodeError::TypeMismatch)),
    }
}

/// The u32 reading of a one-value SHORT or LONG entry.
pub open spec fn ushort_or_ulong_val(v: IFDEntryValue) -> nat {
    match v {
        IFDEntryValue::SHORT(x) => x as nat,
        IFDEntryValue::LONG(x) => x as nat,
        _ => 0,
    }
}

/// Extracts the single SHORT (widened) or LONG of a one-value entry.
fn ushort_or_ulong_of(entry: &IFDEntry) -> (r: Result<u32, TiffError>)
    ensures
        match r {
            Ok(v) => entry.values@.len() == 1 && (entry.values@[0] matches IFDEntryValue::SHORT(_)
                || entry.values@[0] matches IFDEntryValue::LONG(_)) && v == ushort_or_ulong_val(
                entry.values@[0],
            ),
            Err(e) => {
                &&& entry.values@.len() != 1 ==> e == (TiffError(DecodeError::ArityMismatch))
                &&& entry.values@.len() == 1 ==> !(entry.values@[0]
                    matches IFDEntryValue::SHORT(_) || entry.values@[0]
                    matches IFDEntryValue::LONG(_))
                &&& entry.values@.len() == 1 ==> e == (TiffError(DecodeError::TypeMismatch))
            },
        },
{
    let v = entry.get_single_value()?;
    match v {
        IFDEntryValue::SHORT(x) => Ok(x as u32),
        IFDEntryValue::LONG(x) => Ok(x),
        _ => Err(TiffError(DecodeError::TypeMismatch)),
    }
}

/// The descriptive string for a coded compression scheme.
pub open spec fn compression_name(code: u16) -> Seq<char> {
    if code == 1 {
        "No compression"@
    } else if code == 2 {
        "CCITT modified Huffman RLE"@
    } else if code == 3 {
        "CCITT Group 3 fax encoding"@
    } else if code == 4 {
        "CCITT Group 4 fax encoding"@
    } else if code == 5 {
        "LZW"@
    } else if code == 6 {
        "JPEG (old-style)"@
    } else if code == 7 {
        "JPEG (new-style)"@
    } else if code == 8 {
        "Deflate"@
    } else if code == 32773 {
        "PackBits"@
    } else {
        "Invalid/Unknown"@
    }
}

/// Renders a coded compression scheme as its descriptive string.
fn compression_string(code: u16) -> (s: String)
    ensures
        s@ == compression_name(code),
{
    let text = match code {
        1 => "No compression",
        2 => "CCITT modified Huffman RLE",
        3 => "CCITT Group 3 fax encoding",
        4 => "CCITT Group 4 fax encoding",
        5 => "LZW",
        6 => "JPEG (old-style)",
        7 => "JPEG (new-style)",
        8 => "Deflate",
        32773 => "PackBits",
        _ => "Invalid/Unknown",
    };
    text.to_owned()
}

/// The descriptive string for a coded resolution unit.
pub open spec fn resolution_unit_name(code: u16) -> Seq<char> {
    if code == 1 {
        "none"@
    } else if code == 2 {
        "inch"@
    } else if code == 3 {
        "centimeter"@
    } else {
        "invalid"@
    }
}

/// Renders a coded resolution unit as its descriptive string.
fn resolution_unit_string(code: u16) -> (s: String)
    ensures
        s@ == resolution_unit_name(code),
{
    let text = match code {
        1 => "none",
        2 => "inch",
        3 => "centimeter",
        _ => "invalid",
    };
    text.to_owned()
}

/// The descriptive string for a coded exposure program.
pub open spec fn exposure_program_name(code: u16) -> Seq<char> {
    if code == 0 {
        "Not defined"@
    } else if code == 1 {
        "Manual"@
    } else if code == 2 {
        "Normal program"@
    } else if code == 3 {
        "Aperture priority"@
    } else if code == 4 {
        "Shutter priority"@
    } else if code == 5 {
        "Creative program (biased toward depth of field)"@
    } else if code == 6 {
        "Action program (biased toward fast shutter speed)"@
    } else if code == 7 {
        "Portrait mode (for closeup photos with the background out of focus)"@
    } else if code == 8 {
        "Landscape mode (for landscape photos with the background in focus)"@
    } else {
        "Invalid"@
    }
}

/// Renders a coded exposure program as its descriptive string.
fn exposure_program_string(code: u16) -> (s: String)
    ensures
        s@ == exposure_program_name(code),
{
    let text = match code {
        0 => "Not defined",
        1 => "Manual",
        2 => "Normal program",
        3 => "Aperture priority",
        4 => "Shutter priority",
        5 => "Creative program (biased toward depth of field)",
        6 => "Action program (biased toward fast shutter speed)",
        7 => "Portrait mode (for closeup photos with the background out of focus)",
        8 => "Landscape mode (for landscape photos with the background in focus)",
        _ => "Invalid",
    };
    text.to_owned()
}

/// The descriptive string for a coded metering mode.
pub open spec fn metering_mode_name(code: u16) -> Seq<char> {
    if code == 0 {
        "Unknown"@
    } else if code == 1 {
        "Average"@
    } else if code == 2 {
        "CenterWeightedAverage"@
    } else if code == 3 {
        "Spot"@
    } else if code == 4 {
        "MultiSpot"@
    } else if code == 5 {
        "Pattern"@
    } else if code == 6 {
        "Partial"@
    } else if code == 255 {
        "Other"@
    } else {
        "Invalid"@
    }
}

/// Renders a coded metering mode as its descriptive string.
fn metering_mode_string(code: u16) -> (s: String)
    ensures
        s@ == metering_mode_name(code),
{
    let text = match code {
        0 => "Unknown",
        1 => "Average",
        2 => "CenterWeightedAverage",
        3 => "Spot",
        4 => "MultiSpot",
        5 => "Pattern",
        6 => "Partial",
        255 => "Other",
        _ => "Invalid",
    };
    text.to_owned()
}

/// The descriptive string for a coded light source.
pub open spec fn light_source_name(code: u16) -> Seq<char> {
    if code == 0 {
        "Unknown"@
    } else if code == 1 {
        "Daylight"@
    } else if code == 2 {
        "Fluorescent"@
    } else if code == 3 {
        "Tungsten (incandescent light)"@
    } else if code == 4 {
        "Flash"@
    } else if code == 9 {
        "Fine weather"@
    } else if code == 10 {
        "Cloudy weather"@
    } else if code == 11 {
        "Shade"@
    } else if code == 12 {
        "Daylight fluorescent (D 5700 - 7100K)"@
    } else if code == 13 {
        "Day white fluorescent (N 4600 - 5400K)"@
    } else if code == 14 {
        "Cool white fluorescent (W 3900 - 4500K)"@
    } else if code == 15 {
        "White fluorescent (WW 3200 - 3700K)"@
    } else if code == 17 {
        "Standard light A"@
    } else if code == 18 {
        "Standard light B"@
    } else if code == 19 {
        "Standard light C"@
    } else if code == 20 {
        "D55"@
    } else if code == 21 {
        "D65"@
    } else if code == 22 {
        "D75"@
    } else if code == 23 {
        "D50"@
    } else if code == 24 {
        "ISO studio tungsten"@
    } else if code == 255 {
        "Other light source"@
    } else {
        "Invalid"@
    }
}

/// Renders a coded light source as its descriptive string.
fn light_source_string(code: u16) -> (s: String)
    ensures
        s@ == light_source_name(code),
{
    let text = match code {
        0 => "Unknown",
        1 => "Daylight",
        2 => "Fluorescent",
        3 => "Tungsten (incandescent light)",
        4 => "Flash",
        9 => "Fine weather",
        10 => "Cloudy weather",
        11 => "Shade",
        12 => "Daylight fluorescent (D 5700 - 7100K)",
        13 => "Day white fluorescent (N 4600 - 5400K)",
        14 => "Cool white fluorescent (W 3900 - 4500K)",
        15 => "White fluorescent (WW 3200 - 3700K)",
        17 => "Standard light A",
        18 => "Standard light B",
        19 => "Standard light C",
        20 => "D55",
        21 => "D65",
        22 => "D75",
        23 => "D50",
        24 => "ISO studio tungsten",
        255 => "Other light source",
        _ => "Invalid",
    };
    text.to_owned()
}

/// The descriptive string for a coded flash state.
pub open spec fn flash_name(code: u16) -> Seq<char> {
    if code == 0x0000 {
        "Flash did not fire"@
    } else if code == 0x0001 {
        "Flash fired"@
    } else if code == 0x0005 {
        "Strobe return light not detected"@
    } else if code == 0x0007 {
        "Strobe return light detected"@
    } else if code == 0x0009 {
        "Flash fired, compulsory flash mode"@
    } else if code == 0x000D {
        "Flash fired, compulsory flash mode, return light not detected"@
    } else if code == 0x000F {
        "Flash fired, compulsory flash mode, return light detected"@
    } else if code == 0x0010 {
        "Flash did not fire, compulsory flash mode"@
    } else if code == 0x0018 {
        "Flash did not fire, auto mode"@
    } else if code == 0x0019 {
        "Flash fired, auto mode"@
    } else if code == 0x001D {
        "Flash fired, auto mode, return light not detected"@
    } else if code == 0x001F {
        "Flash fired, auto mode, return light detected"@
    } else if code == 0x0020 {
        "No flash function"@
    } else if code == 0x0041 {
        "Flash fired, red-eye reduction mode"@
    } else if code == 0x0045 {
        "Flash fired, red-eye reduction mode, return light not detected"@
    } else if code == 0x0047 {
        "Flash fired, red-eye reduction mode, return light detected"@
    } else if code == 0x0049 {
        "Flash fired, compulsory flash mode, red-eye reduction mode"@
    } else if code == 0x004D {
        "Flash fired, compulsory flash mode, red-eye reduction mode, return light not detected"@
    } else if code == 0x004F {
        "Flash fired, compulsory flash mode, red-eye reduction mode, return light detected"@
    } else if code == 0x0059 {
        "Flash fired, auto mode, red-eye reduction mode"@
    } else if code == 0x005D {
        "Flash fired, auto mode, return light not detected, red-eye reduction mode"@
    } else if code == 0x005F {
        "Flash fired, auto mode, return light detected, red-eye reduction mode"@
    } else {
        "Invalid"@
    }
}

/// Renders a coded flash state as its descriptive string.
fn flash_string(code: u16) -> (s: String)
    ensures
        s@ == flash_name(code),
{
    let text = match code {
        0x0000 => "Flash did not fire",
        0x0001 => "Flash fired",
        0x0005 => "Strobe return light not detected",
        0x0007 => "Strobe return light detected",
        0x0009 => "Flash fired, compulsory flash mode",
        0x000D => "Flash fired, compulsory flash mode, return light not detected",
        0x000F => "Flash fired, compulsory flash mode, return light detected",
        0x0010 => "Flash did not fire, compulsory flash mode",
        0x0018 => "Flash did not fire, auto mode",
        0x0019 => "Flash fired, auto mode",
        0x001D => "Flash fired, auto mode, return light not detected",
        0x001F => "Flash fired, auto mode, return light detected",
        0x0020 => "No flash function",
        0x0041 => "Flash fired, red-eye reduction mode",
        0x0045 => "Flash fired, red-eye reduction mode, return light not detected",
        0x0047 => "Flash fired, red-eye reduction mode, return light detected",
        0x0049 => "Flash fired, compulsory flash mode, red-eye reduction mode",
        0x004D => "Flash fired, compulsory flash mode, red-eye reduction mode, return light not detected",
        0x004F => "Flash fired, compulsory flash mode, red-eye reduction mode, return light detected",
        0x0059 => "Flash fired, auto mode, red-eye reduction mode",
        0x005D => "Flash fired, auto mode, return light not detected, red-eye reduction mode",
        0x005F => "Flash fired, auto mode, return light detected, red-eye reduction mode",
        _ => "Invalid",
    };
    text.to_owned()
}

/// The descriptive string for a coded altitude reference.
pub open spec fn altitude_ref_name(code: u8) -> Seq<char> {
    if code == 0 {
        "Above sea level"@
    } else if code == 1 {
        "Below sea level"@
    } else {
        "Invalid"@
    }
}

/// Renders a coded altitude reference as its descriptive string.
fn altitude_ref_string(code: u8) -> (s: String)
    ensures
        s@ == altitude_ref_name(code),
{
    let text = match code {
        0 => "Above sea level",
        1 => "Below sea level",
        _ => "Invalid",
    };
    text.to_owned()
}

/// The descriptive string for a coded sensing method.
pub open spec fn sensing_method_name(code: u16) -> Seq<char> {
    if code == 1 {
        "Not defined"@
    } else if code == 2 {
        "One-chip color area sensor"@
    } else if code == 3 {
        "Two-chip color area sensor"@
    } else if code == 4 {
        "Three-chip color area sensor"@
    } else if code == 5 {
        "Color sequential area sensor"@
    } else if code == 7 {
        "Trilinear sensor"@
    } else if code == 8 {
        "Color sequential linear sensor"@
    } else {
        "Invalid"@
    }
}

/// Renders a coded sensing method as its descriptive string.
fn sensing_method_string(code: u16) -> (s: String)
    ensures
        s@ == sensing_method_name(code),
{
    let text = match code {
        1 => "Not defined",
        2 => "One-chip color area sensor",
        3 => "Two-chip color area sensor",
        4 => "Three-chip color area sensor",
        5 => "Color sequential area sensor",
        7 => "Trilinear sensor",
        8 => "Color sequential linear sensor",
        _ => "Invalid",
    };
    text.to_owned()
}

/// The descriptive string for a coded exposure mode.
pub open spec fn exposure_mode_name(code: u16) -> Seq<char> {
    if code == 0 {
        "Auto exposure"@
    } else if code == 1 {
        "Manual exposure"@
    } else if code == 2 {
        "Auto bracket"@
    } else {
        "Invalid"@
    }
}

/// Renders a coded exposure mode as its descriptive string.
fn exposure_mode_string(code: u16) -> (s: String)
    ensures
        s@ == exposure_mode_name(code),
{
    let text = match code {
        0 => "Auto exposure",
        1 => "Manual exposure",
        2 => "Auto bracket",
        _ => "Invalid",
    };
    text.to_owned()
}

/// The descriptive string for a coded white balance.
pub open spec fn white_balance_name(code: u16) -> Seq<char> {
    if code == 0 {
        "Auto white balance"@
    } else if code == 1 {
        "Manual white balance"@
    } else {
        "Invalid"@
    }
}

/// Renders a coded white balance as its descriptive string.
fn white_balance_string(code: u16) -> (s: String)
    ensures
        s@ == white_balance_name(code),
{
    let text = match code {
        0 => "Auto white balance",
        1 => "Manual white balance",
        _ => "Invalid",
    };
    text.to_owned()
}

/// The descriptive string for a coded scene capture type.
pub open spec fn scene_capture_type_name(code: u16) -> Seq<char> {
    if code == 0 {
        "Standard"@
    } else if code == 1 {
        "Landscape"@
    } else if code == 2 {
        "Portrait"@
    } else if code == 3 {
        "Night scene"@
    } else {
        "Invalid"@
    }
}

/// Renders a coded scene capture type as its descriptive string.
fn scene_capture_type_string(code: u16) -> (s: String)
    ensures
        s@ == scene_capture_type_name(code),
{
    let text = match code {
        0 => "Standard",
        1 => "Landscape",
        2 => "Portrait",
        3 => "Night scene",
        _ => "Invalid",
    };
    text.to_owned()
}

/// The descriptive string for a coded gain control.
pub open spec fn gain_control_name(code: u16) -> Seq<char> {
    if code == 0 {
        "None"@
    } else if code == 1 {
        "Low gain up"@
    } else if code == 2 {
        "High gain up"@
    } else if code == 3 {
        "Low gain down"@
    } else if code == 4 {
        "High gain down"@
    } else {
        "Invalid"@
    }
}

/// Renders a coded gain control as its descriptive string.
fn gain_control_string(code: u16) -> (s: String)
    ensures
        s@ == gain_control_name(code),
{
    let text = match code {
        0 => "None",
        1 => "Low gain up",
        2 => "High gain up",
        3 => "Low gain down",
        4 => "High gain down",
        _ => "Invalid",
    };
    text.to_owned()
}

/// The descriptive string for a coded contrast setting.
pub open spec fn contrast_name(code: u16) -> Seq<char> {
    if code == 0 {
        "Normal"@
    } else if code == 1 {
        "Soft"@
    } else if code == 2 {
        "Hard"@
    } else {
        "Invalid"@
    }
}

/// Renders a coded contrast setting as its descriptive string.
fn contrast_string(code: u16) -> (s: String)
    ensures
        s@ == contrast_name(code),
{
    let text = match code {
        0 => "Normal",
        1 => "Soft",
        2 => "Hard",
        _ => "Invalid",
    };
    text.to_owned()
}

/// The descriptive string for a coded saturation setting.
pub open spec fn saturation_name(code: u16) -> Seq<char> {
    if code == 0 {
        "Normal"@
    } else if code == 1 {
        "Low saturation"@
    } else if code == 2 {
        "High saturation"@
    } else {
        "Invalid"@
    }
}

/// Renders a coded saturation setting as its descriptive string.
fn saturation_string(code: u16) -> (s: String)
    ensures
        s@ == saturation_name(code),
{
    let text = match code {
        0 => "Normal",
        1 => "Low saturation",
        2 => "High saturation",
        _ => "Invalid",
    };
    text.to_owned()
}

/// The descriptive string for a coded sharpness setting.
pub open spec fn sharpness_name(code: u16) -> Seq<char> {
    if code == 0 {
        "Normal"@
    } else if code == 1 {
        "Soft"@
    } else if code == 2 {
        "Hard"@
    } else {
        "Invalid"@
    }
}

/// Renders a coded sharpness setting as its descriptive string.
fn sharpness_string(code: u16) -> (s: String)
    ensures
        s@ == sharpness_name(code),
{
    let text = match code {
        0 => "Normal",
        1 => "Soft",
        2 => "Hard",
        _ => "Invalid",
    };
    text.to_owned()
}

/// The descriptive string for a coded subject distance range.
pub open spec fn subject_distance_range_name(code: u16) -> Seq<char> {
    if code == 0 {
        "Unknown"@
    } else if code == 1 {
        "Macro"@
    } else if code == 2 {
        "Close view"@
    } else if code == 3 {
        "Distant view"@
    } else {
        "Invalid"@
    }
}

/// Renders a coded subject distance range as its descriptive string.
fn subject_distance_range_string(code: u16) -> (s: String)
    ensures
        s@ == subject_distance_range_name(code),
{
    let text = match code {
        0 => "Unknown",
        1 => "Macro",
        2 => "Close view",
        3 => "Distant view",
        _ => "Invalid",
    };
    text.to_owned()
}

/// A semantically decoded TIFF/EXIF tag.
///
/// Each variant is produced from a raw entry by a fixed per-tag-id
/// table; ids with no table entry surface as `Unknown`, carrying the
/// raw entry. Values that the common convention renders as floats
/// (resolutions, GPS coordinates) are kept as exact rationals.
#[derive(Debug, Clone, PartialEq)]
pub enum TiffTag {
    Unknown(IFDEntry),
    GPSVersionID(Vec<u8>),
    GPSLatitudeRef(String),
    GPSLatitude(Vec<RationalValue>),
    GPSLongitudeRef(String),
    GPSLongitude(Vec<RationalValue>),
    GPSAltitudeRef(String),
    GPSAltitude(RationalValue),
    GPSTimeStamp(Vec<RationalValue>),
    GPSSatellites(String),
    GPSStatus(String),
    GPSImgDirectionRef(String),
    GPSImgDirection(RationalValue),
    GPSMapDatum(String),
    GPSDateStamp(String),
    Compression(String),
    ImageDescription(String),
    Make(String),
    Model(String),
    Orientation(u16),
    XResolution(RationalValue),
    YResolution(RationalValue),
    ResolutionUnit(String),
    Software(String),
    DateTime(String),
    Artist(String),
    Copyright(String),
    ExposureTime(String),
    FNumber(String),
    ExifIfdPointer(u32),
    ExposureProgram(String),
    GpsIfdPointer(u32),
    ExifVersion(String),
    DateTimeOriginal(String),
    DateTimeDigitized(String),
    CompressedBitsPerPixel(String),
    ShutterSpeedValue(String),
    ApertureValue(String),
    ExposureBiasValue(String),
    MaxApertureValue(String),
    MeteringMode(String),
    LightSource(String),
    Flash(String),
    FocalLength(String),
    MakerNote(Vec<u8>),
    UserComment(String),
    SubsecTime(String),
    SubsecTimeOriginal(String),
    SubsecTimeDigitized(String),
    FlashpixVersion(String),
    PixelXDimension(u32),
    PixelYDimension(u32),
    FocalPlaneXResolution(String),
    FocalPlaneYResolution(String),
    FocalPlaneResolutionUnit(String),
    SensingMethod(String),
    ExposureMode(String),
    WhiteBalance(String),
    DigitalZoomRatio(String),
    FocalLengthIn35mmFilm(u16),
    SceneCaptureType(String),
    GainControl(String),
    Contrast(String),
    Saturation(String),
    Sharpness(String),
    SubjectDistanceRange(String),
}

/// Whether `v` is numeric in the wide sense accepted where a float
/// was conventional: an unsigned or signed rational, or a double.
pub open spec fn is_wide_rational(v: IFDEntryValue) -> bool {
    v matches IFDEntryValue::RATIONAL(_, _) || v matches IFDEntryValue::SRATIONAL(_, _)
        || v matches IFDEntryValue::DOUBLE(_)
}

/// The payload of a SHORT value.
pub open spec fn short_payload(v: IFDEntryValue) -> u16 {
    match v {
        IFDEntryValue::SHORT(x) => x,
        _ => 0,
    }
}

/// A tag id outside the table projects to `Unknown`, carrying the
/// raw entry unchanged.
pub open spec fn unknown_projection(tag: u16, vs: Seq<IFDEntryValue>, r: Result<
    TiffTag,
    TiffError,
>) -> bool {
    match r {
        Ok(TiffTag::Unknown(en)) => en.tag == tag && en.values@ == vs,
        _ => false,
    }
}

/// The projection table for the GPS directory's tag ids.
pub open spec fn projects_gps_tag(tag: u16, vs: Seq<IFDEntryValue>, r: Result<TiffTag, TiffError>) -> bool {
    if tag == 0 {
        match r {
            Ok(TiffTag::GPSVersionID(payload)) => all_raw_bytes(vs) && vs.len() == 4 && payload@ == raw_bytes(vs),
            Err(e) => (!all_raw_bytes(vs) && e == (TiffError(DecodeError::TypeMismatch))) || (all_raw_bytes(vs) && vs.len() != 4 && e == (TiffError(DecodeError::ArityMismatch))),
            _ => false,
        }
    } else if tag == 1 {
        match r {
            Ok(TiffTag::GPSLatitudeRef(payload)) => all_ascii(vs) && payload@ == utf8_lossy(ascii_bytes(vs)),
            Err(e) => !all_ascii(vs) && e == (TiffError(DecodeError::TypeMismatch)),
            _ => false,
        }
    } else if tag == 2 {
        match r {
            Ok(TiffTag::GPSLatitude(payload)) => all_rational(vs) && vs.len() == 3 && payload@ == rational_seq(vs),
            Err(e) => (!all_rational(vs) && e == (TiffError(DecodeError::TypeMismatch))) || (all_rational(vs) && vs.len() != 3 && e == (TiffError(DecodeError::ArityMismatch))),
            _ => false,
        }
    } else if tag == 3 {
        match r {
            Ok(TiffTag::GPSLongitudeRef(payload)) => all_ascii(vs) && payload@ == utf8_lossy(ascii_bytes(vs)),
            Err(e) => !all_ascii(vs) && e == (TiffError(DecodeError::TypeMismatch)),
            _ => false,
        }
    } else if tag == 4 {
        match r {
            Ok(TiffTag::GPSLongitude(payload)) => all_rational(vs) && vs.len() == 3 && payload@ == rational_seq(vs),
            Err(e) => (!all_rational(vs) && e == (TiffError(DecodeError::TypeMismatch))) || (all_rational(vs) && vs.len() != 3 && e == (TiffError(DecodeError::ArityMismatch))),
            _ => false,
        }
    } else if tag == 5 {
        match r {
            Ok(TiffTag::GPSAltitudeRef(payload)) => vs.len() == 1 && (vs[0] matches IFDEntryValue::BYTE(_)) && payload@ == altitude_ref_name(raw_byte_of(vs[0])),
            Err(e) => (vs.len() != 1 && e == (TiffError(DecodeError::ArityMismatch))) || (vs.len() == 1 && !(vs[0] matches IFDEntryValue::BYTE(_)) && e == (TiffError(DecodeError::TypeMismatch))),
            _ => false,
        }
    } else if tag == 6 {
        match r {
            Ok(TiffTag::GPSAltitude(payload)) => vs.len() == 1 && is_wide_rational(vs[0]) && payload == rational_of(vs[0]),
            Err(e) => (vs.len() != 1 && e == (TiffError(DecodeError::ArityMismatch))) || (vs.len() == 1 && !is_wide_rational(vs[0]) && e == (TiffError(DecodeError::TypeMismatch))),
            _ => false,
        }
    } else if tag == 7 {
        match r {
            Ok(TiffTag::GPSTimeStamp(payload)) => all_rational(vs) && vs.len() == 3 && payload@ == rational_seq(vs),
            Err(e) => (!all_rational(vs) && e == (TiffError(DecodeError::TypeMismatch))) || (all_rational(vs) && vs.len() != 3 && e == (TiffError(DecodeError::ArityMismatch))),
            _ => false,
        }
    } else if tag == 8 {
        match r {
            Ok(TiffTag::GPSSatellites(payload)) => all_ascii(vs) && payload@ == utf8_lossy(ascii_bytes(vs)),
            Err(e) => !all_ascii(vs) && e == (TiffError(DecodeError::TypeMismatch)),
            _ => false,
        }
    } else if tag == 9 {
        match r {
            Ok(TiffTag::GPSStatus(payload)) => all_ascii(vs) && payload@ == utf8_lossy(ascii_bytes(vs)),
            Err(e) => !all_ascii(vs) && e == (TiffError(DecodeError::TypeMismatch)),
            _ => false,
        }
    } else if tag == 16 {
        match r {
            Ok(TiffTag::GPSImgDirectionRef(payload)) => all_ascii(vs) && payload@ == utf8_lossy(ascii_bytes(vs)),
            Err(e) => !all_ascii(vs) && e == (TiffError(DecodeError::TypeMismatch)),
            _ => false,
        }
    } else if tag == 17 {
        match r {
            Ok(TiffTag::GPSImgDirection(payload)) => vs.len() == 1 && is_wide_rational(vs[0]) && payload == rational_of(vs[0]),
            Err(e) => (vs.len() != 1 && e == (TiffError(DecodeError::ArityMismatch))) || (vs.len() == 1 && !is_wide_rational(vs[0]) && e == (TiffError(DecodeError::TypeMismatch))),
            _ => false,
        }
    } else if tag == 18 {
        match r {
            Ok(TiffTag::GPSMapDatum(payload)) => all_ascii(vs) && payload@ == utf8_lossy(ascii_bytes(vs)),
            Err(e) => !all_ascii(vs) && e == (TiffError(DecodeError::TypeMismatch)),
            _ => false,
        }
    } else if tag == 29 {
        match r {
            Ok(TiffTag::GPSDateStamp(payload)) => all_ascii(vs) && payload@ == utf8_lossy(ascii_bytes(vs)),
            Err(e) => !all_ascii(vs) && e == (TiffError(DecodeError::TypeMismatch)),
            _ => false,
        }
    } else {
        unknown_projection(tag, vs, r)
    }
}

/// The projection table for the baseline image tag ids.
pub open spec fn projects_image_tag(tag: u16, vs: Seq<IFDEntryValue>, r: Result<TiffTag, TiffError>) -> bool {
    if tag == 259 {
        match r {
            Ok(TiffTag::Compression(payload)) => vs.len() == 1 && (vs[0] matches IFDEntryValue::SHORT(_)) && payload@ == compression_name(short_payload(vs[0])),
            Err(e) => (vs.len() != 1 && e == (TiffError(DecodeError::ArityMismatch))) || (vs.len() == 1 && !(vs[0] matches IFDEntryValue::SHORT(_)) && e == (TiffError(DecodeError::TypeMismatch))),
            _ => false,
        }
    } else if tag == 270 {
        match r {
            Ok(TiffTag::ImageDescription(payload)) => all_ascii(vs) && payload@ == utf8_lossy(ascii_bytes(vs)),
            Err(e) => !all_ascii(vs) && e == (TiffError(DecodeError::TypeMismatch)),
            _ => false,
        }
    } else if tag == 271 {
        match r {
            Ok(TiffTag::Make(payload)) => all_ascii(vs) && payload@ == utf8_lossy(ascii_bytes(vs)),
            Err(e) => !all_ascii(vs) && e == (TiffError(DecodeError::TypeMismatch)),
            _ => false,
        }
    } else if tag == 272 {
        match r {
            Ok(TiffTag::Model(payload)) => all_ascii(vs) && payload@ == utf8_lossy(ascii_bytes(vs)),
            Err(e) => !all_ascii(vs) && e == (TiffError(DecodeError::TypeMismatch)),
            _ => false,
        }
    } else if tag == 274 {
        match r {
            Ok(TiffTag::Orientation(payload)) => vs.len() == 1 && vs[0] == IFDEntryValue::SHORT(payload),
            Err(e) => (vs.len() != 1 && e == (TiffError(DecodeError::ArityMismatch))) || (vs.len() == 1 && !(vs[0] matches IFDEntryValue::SHORT(_)) && e == (TiffError(DecodeError::TypeMismatch))),
            _ => false,
        }
    } else if tag == 282 {
        match r {
            Ok(TiffTag::XResolution(payload)) => vs.len() == 1 && is_wide_rational(vs[0]) && payload == rational_of(vs[0]),
            Err(e) => (vs.len() != 1 && e == (TiffError(DecodeError::ArityMismatch))) || (vs.len() == 1 && !is_wide_rational(vs[0]) && e == (TiffError(DecodeError::TypeMismatch))),
            _ => false,
        }
    } else if tag == 283 {
        match r {
            Ok(TiffTag::YResolution(payload)) => vs.len() == 1 && is_wide_rational(vs[0]) && payload == rational_of(vs[0]),
            Err(e) => (vs.len() != 1 && e == (TiffError(DecodeError::ArityMismatch))) || (vs.len() == 1 && !is_wide_rational(vs[0]) && e == (TiffError(DecodeError::TypeMismatch))),
            _ => false,
        }
    } else if tag == 296 {
        match r {
            Ok(TiffTag::ResolutionUnit(payload)) => vs.len() == 1 && (vs[0] matches IFDEntryValue::SHORT(_)) && payload@ == resolution_unit_name(short_payload(vs[0])),
            Err(e) => (vs.len() != 1 && e == (TiffError(DecodeError::ArityMismatch))) || (vs.len() == 1 && !(vs[0] matches IFDEntryValue::SHORT(_)) && e == (TiffError(DecodeError::TypeMismatch))),
            _ => false,
        }
    } else if tag == 305 {
        match r {
            Ok(TiffTag::Software(payload)) => all_ascii(vs) && payload@ == utf8_lossy(ascii_bytes(vs)),
            Err(e) => !all_ascii(vs) && e == (TiffError(DecodeError::TypeMismatch)),
            _ => false,
        }
    } else if tag == 306 {
        match r {
            Ok(TiffTag::DateTime(payload)) => all_ascii(vs) && payload@ == utf8_lossy(ascii_bytes(vs)),
            Err(e) => !all_ascii(vs) && e == (TiffError(DecodeError::TypeMismatch)),
            _ => false,
        }
    } else if tag == 315 {
        match r {
            Ok(TiffTag::Artist(payload)) => all_ascii(vs) && payload@ == utf8_lossy(ascii_bytes(vs)),
            Err(e) => !all_ascii(vs) && e == (TiffError(DecodeError::TypeMismatch)),
            _ => false,
        }
    } else {
        unknown_projection(tag, vs, r)
    }
}

/// The projection table for the EXIF tag ids.
pub open spec fn projects_exif_tag(tag: u16, vs: Seq<IFDEntryValue>, r: Result<TiffTag, TiffError>) -> bool {
    if tag == 33432 {
        match r {
            Ok(TiffTag::Copyright(payload)) => all_ascii(vs) && payload@ == utf8_lossy(ascii_bytes(vs)),
            Err(e) => !all_ascii(vs) && e == (TiffError(DecodeError::TypeMismatch)),
            _ => false,
        }
    } else if tag == 33434 {
        match r {
            Ok(TiffTag::ExposureTime(payload)) => vs.len() == 1 && match vs[0] {
                IFDEntryValue::RATIONAL(a, b) => payload@ == rational_repr(a, b),
                IFDEntryValue::SRATIONAL(a, b) => payload@ == srational_repr(a, b),
                _ => false,
            },
            Err(e) => (vs.len() != 1 && e == (TiffError(DecodeError::ArityMismatch))) || (vs.len() == 1 && !(vs[0] matches IFDEntryValue::RATIONAL(_, _) || vs[0] matches IFDEntryValue::SRATIONAL(_, _)) && e == (TiffError(DecodeError::TypeMismatch))),
            _ => false,
        }
    } else if tag == 33437 {
        match r {
            Ok(TiffTag::FNumber(payload)) => vs.len() == 1 && match vs[0] {
                IFDEntryValue::RATIONAL(a, b) => payload@ == rational_repr(a, b),
                IFDEntryValue::SRATIONAL(a, b) => payload@ == srational_repr(a, b),
                _ => false,
            },
            Err(e) => (vs.len() != 1 && e == (TiffError(DecodeError::ArityMismatch))) || (vs.len() == 1 && !(vs[0] matches IFDEntryValue::RATIONAL(_, _) || vs[0] matches IFDEntryValue::SRATIONAL(_, _)) && e == (TiffError(DecodeError::TypeMismatch))),
            _ => false,
        }
    } else if tag == 34665 {
        match r {
            Ok(TiffTag::ExifIfdPointer(payload)) => vs.len() == 1 && vs[0] == IFDEntryValue::LONG(payload),
            Err(e) => (vs.len() != 1 && e == (TiffError(DecodeError::ArityMismatch))) || (vs.len() == 1 && !(vs[0] matches IFDEntryValue::LONG(_)) && e == (TiffError(DecodeError::TypeMismatch))),
            _ => false,
        }
    } else if tag == 34850 {
        match r {
            Ok(TiffTag::ExposureProgram(payload)) => vs.len() == 1 && (vs[0] matches IFDEntryValue::SHORT(_)) && payload@ == exposure_program_name(short_payload(vs[0])),
            Err(e) => (vs.len() != 1 && e == (TiffError(DecodeError::ArityMismatch))) || (vs.len() == 1 && !(vs[0] matches IFDEntryValue::SHORT(_)) && e == (TiffError(DecodeError::TypeMismatch))),
            _ => false,
        }
    } else if tag == 34853 {
        match r {
            Ok(TiffTag::GpsIfdPointer(payload)) => vs.len() == 1 && vs[0] == IFDEntryValue::LONG(payload),
            Err(e) => (vs.len() != 1 && e == (TiffError(DecodeError::ArityMismatch))) || (vs.len() == 1 && !(vs[0] matches IFDEntryValue::LONG(_)) && e == (TiffError(DecodeError::TypeMismatch))),
            _ => false,
        }
    } else if tag == 36864 {
        match r {
            Ok(TiffTag::ExifVersion(payload)) => all_undefined(vs) && payload@ == utf8_lossy(raw_bytes(vs)),
            Err(e) => !all_undefined(vs) && e == (TiffError(DecodeError::TypeMismatch)),
            _ => false,
        }
    } else if tag == 36867 {
        match r {
            Ok(TiffTag::DateTimeOriginal(payload)) => all_ascii(vs) && payload@ == utf8_lossy(ascii_bytes(vs)),
            Err(e) => !all_ascii(vs) && e == (TiffError(DecodeError::TypeMismatch)),
            _ => false,
        }
    } else if tag == 36868 {
        match r {
            Ok(TiffTag::DateTimeDigitized(payload)) => all_ascii(vs) && payload@ == utf8_lossy(ascii_bytes(vs)),
            Err(e) => !all_ascii(vs) && e == (TiffError(DecodeError::TypeMismatch)),
            _ => false,
        }
    } else if tag == 37122 {
        match r {
            Ok(TiffTag::CompressedBitsPerPixel(payload)) => vs.len() == 1 && match vs[0] {
                IFDEntryValue::RATIONAL(a, b) => payload@ == rational_repr(a, b),
                IFDEntryValue::SRATIONAL(a, b) => payload@ == srational_repr(a, b),
                _ => false,
            },
            Err(e) => (vs.len() != 1 && e == (TiffError(DecodeError::ArityMismatch))) || (vs.len() == 1 && !(vs[0] matches IFDEntryValue::RATIONAL(_, _) || vs[0] matches IFDEntryValue::SRATIONAL(_, _)) && e == (TiffError(DecodeError::TypeMismatch))),
            _ => false,
        }
    } else if tag == 37377 {
        match r {
            Ok(TiffTag::ShutterSpeedValue(payload)) => vs.len() == 1 && match vs[0] {
                IFDEntryValue::RATIONAL(a, b) => payload@ == rational_repr(a, b),
                IFDEntryValue::SRATIONAL(a, b) => payload@ == srational_repr(a, b),
                _ => false,
            },
            Err(e) => (vs.len() != 1 && e == (TiffError(DecodeError::ArityMismatch))) || (vs.len() == 1 && !(vs[0] matches IFDEntryValue::RATIONAL(_, _) || vs[0] matches IFDEntryValue::SRATIONAL(_, _)) && e == (TiffError(DecodeError::TypeMismatch))),
            _ => false,
        }
    } else if tag == 37378 {
        match r {
            Ok(TiffTag::ApertureValue(payload)) => vs.len() == 1 && match vs[0] {
                IFDEntryValue::RATIONAL(a, b) => payload@ == rational_repr(a, b),
                IFDEntryValue::SRATIONAL(a, b) => payload@ == srational_repr(a, b),
                _ => false,
            },
            Err(e) => (vs.len() != 1 && e == (TiffError(DecodeError::ArityMismatch))) || (vs.len() == 1 && !(vs[0] matches IFDEntryValue::RATIONAL(_, _) || vs[0] matches IFDEntryValue::SRATIONAL(_, _)) && e == (TiffError(DecodeError::TypeMismatch))),
            _ => false,
        }
    } else if tag == 37380 {
        match r {
            Ok(TiffTag::ExposureBiasValue(payload)) => vs.len() == 1 && match vs[0] {
                IFDEntryValue::RATIONAL(a, b) => payload@ == rational_repr(a, b),
                IFDEntryValue::SRATIONAL(a, b) => payload@ == srational_repr(a, b),
                _ => false,
            },
            Err(e) => (vs.len() != 1 && e == (TiffError(DecodeError::ArityMismatch))) || (vs.len() == 1 && !(vs[0] matches IFDEntryValue::RATIONAL(_, _) || vs[0] matches IFDEntryValue::SRATIONAL(_, _)) && e == (TiffError(DecodeError::TypeMismatch))),
            _ => false,
        }
    } else if tag == 37381 {
        match r {
            Ok(TiffTag::MaxApertureValue(payload)) => vs.len() == 1 && match vs[0] {
                IFDEntryValue::RATIONAL(a, b) => payload@ == rational_repr(a, b),
                IFDEntryValue::SRATIONAL(a, b) => payload@ == srational_repr(a, b),
                _ => false,
            },
            Err(e) => (vs.len() != 1 && e == (TiffError(DecodeError::ArityMismatch))) || (vs.len() == 1 && !(vs[0] matches IFDEntryValue::RATIONAL(_, _) || vs[0] matches IFDEntryValue::SRATIONAL(_, _)) && e == (TiffError(DecodeError::TypeMismatch))),
            _ => false,
        }
    } else if tag == 37383 {
        match r {
            Ok(TiffTag::MeteringMode(payload)) => vs.len() == 1 && (vs[0] matches IFDEntryValue::SHORT(_)) && payload@ == metering_mode_name(short_payload(vs[0])),
            Err(e) => (vs.len() != 1 && e == (TiffError(DecodeError::ArityMismatch))) || (vs.len() == 1 && !(vs[0] matches IFDEntryValue::SHORT(_)) && e == (TiffError(DecodeError::TypeMismatch))),
            _ => false,
        }
    } else if tag == 37384 {
        match r {
            Ok(TiffTag::LightSource(payload)) => vs.len() == 1 && (vs[0] matches IFDEntryValue::SHORT(_)) && payload@ == light_source_name(short_payload(vs[0])),
            Err(e) => (vs.len() != 1 && e == (TiffError(DecodeError::ArityMismatch))) || (vs.len() == 1 && !(vs[0] matches IFDEntryValue::SHORT(_)) && e == (TiffError(DecodeError::TypeMismatch))),
            _ => false,
        }
    } else if tag == 37385 {
        match r {
            Ok(TiffTag::Flash(payload)) => vs.len() == 1 && (vs[0] matches IFDEntryValue::SHORT(_)) && payload@ == flash_name(short_payload(vs[0])),
            Err(e) => (vs.len() != 1 && e == (TiffError(DecodeError::ArityMismatch))) || (vs.len() == 1 && !(vs[0] matches IFDEntryValue::SHORT(_)) && e == (TiffError(DecodeError::TypeMismatch))),
            _ => false,
        }
    } else if tag == 37386 {
        match r {
            Ok(TiffTag::FocalLength(payload)) => vs.len() == 1 && match vs[0] {
                IFDEntryValue::RATIONAL(a, b) => payload@ == rational_repr(a, b),
                IFDEntryValue::SRATIONAL(a, b) => payload@ == srational_repr(a, b),
                _ => false,
            },
            Err(e) => (vs.len() != 1 && e == (TiffError(DecodeError::ArityMismatch))) || (vs.len() == 1 && !(vs[0] matches IFDEntryValue::RATIONAL(_, _) || vs[0] matches IFDEntryValue::SRATIONAL(_, _)) && e == (TiffError(DecodeError::TypeMismatch))),
            _ => false,
        }
    } else if tag == 37500 {
        match r {
            Ok(TiffTag::MakerNote(payload)) => all_raw_bytes(vs) && payload@ == raw_bytes(vs),
            Err(e) => !all_raw_bytes(vs) && e == (TiffError(DecodeError::TypeMismatch)),
            _ => false,
        }
    } else if tag == 37510 {
        match r {
            Ok(TiffTag::UserComment(payload)) => all_raw_bytes(vs) && vs.len() >= 9 && payload@ == utf8_lossy(raw_bytes(vs).subrange(8, vs.len() - 1)),
            Err(e) => (!all_raw_bytes(vs) && e == (TiffError(DecodeError::TypeMismatch))) || (all_raw_bytes(vs) && vs.len() < 9 && e == (TiffError(DecodeError::ArityMismatch))),
            _ => false,
        }
    } else if tag == 37520 {
        match r {
            Ok(TiffTag::SubsecTime(payload)) => all_ascii(vs) && payload@ == utf8_lossy(ascii_bytes(vs)),
            Err(e) => !all_ascii(vs) && e == (TiffError(DecodeError::TypeMismatch)),
            _ => false,
        }
    } else if tag == 37521 {
        match r {
            Ok(TiffTag::SubsecTimeOriginal(payload)) => all_ascii(vs) && payload@ == utf8_lossy(ascii_bytes(vs)),
            Err(e) => !all_ascii(vs) && e == (TiffError(DecodeError::TypeMismatch)),
            _ => false,
        }
    } else if tag == 37522 {
        match r {
            Ok(TiffTag::SubsecTimeDigitized(payload)) => all_ascii(vs) && payload@ == utf8_lossy(ascii_bytes(vs)),
            Err(e) => !all_ascii(vs) && e == (TiffError(DecodeError::TypeMismatch)),
            _ => false,
        }
    } else if tag == 40960 {
        match r {
            Ok(TiffTag::FlashpixVersion(payload)) => all_undefined(vs) && payload@ == utf8_lossy(raw_bytes(vs)),
            Err(e) => !all_undefined(vs) && e == (TiffError(DecodeError::TypeMismatch)),
            _ => false,
        }
    } else if tag == 40962 {
        match r {
            Ok(TiffTag::PixelXDimension(payload)) => vs.len() == 1 && (vs[0] matches IFDEntryValue::SHORT(_) || vs[0] matches IFDEntryValue::LONG(_)) && payload == ushort_or_ulong_val(vs[0]),
            Err(e) => (vs.len() != 1 && e == (TiffError(DecodeError::ArityMismatch))) || (vs.len() == 1 && !(vs[0] matches IFDEntryValue::SHORT(_) || vs[0] matches IFDEntryValue::LONG(_)) && e == (TiffError(DecodeError::TypeMismatch))),
            _ => false,
        }
    } else if tag == 40963 {
        match r {
            Ok(TiffTag::PixelYDimension(payload)) => vs.len() == 1 && (vs[0] matches IFDEntryValue::SHORT(_) || vs[0] matches IFDEntryValue::LONG(_)) && payload == ushort_or_ulong_val(vs[0]),
            Err(e) => (vs.len() != 1 && e == (TiffError(DecodeError::ArityMismatch))) || (vs.len() == 1 && !(vs[0] matches IFDEntryValue::SHORT(_) || vs[0] matches IFDEntryValue::LONG(_)) && e == (TiffError(DecodeError::TypeMismatch))),
            _ => false,
        }
    } else if tag == 41486 {
        match r {
            Ok(TiffTag::FocalPlaneXResolution(payload)) => vs.len() == 1 && match vs[0] {
                IFDEntryValue::RATIONAL(a, b) => payload@ == rational_repr(a, b),
                IFDEntryValue::SRATIONAL(a, b) => payload@ == srational_repr(a, b),
                _ => false,
            },
            Err(e) => (vs.len() != 1 && e == (TiffError(DecodeError::ArityMismatch))) || (vs.len() == 1 && !(vs[0] matches IFDEntryValue::RATIONAL(_, _) || vs[0] matches IFDEntryValue::SRATIONAL(_, _)) && e == (TiffError(DecodeError::TypeMismatch))),
            _ => false,
        }
    } else if tag == 41487 {
        match r {
            Ok(TiffTag::FocalPlaneYResolution(payload)) => vs.len() == 1 && match vs[0] {
                IFDEntryValue::RATIONAL(a, b) => payload@ == rational_repr(a, b),
                IFDEntryValue::SRATIONAL(a, b) => payload@ == srational_repr(a, b),
                _ => false,
            },
            Err(e) => (vs.len() != 1 && e == (TiffError(DecodeError::ArityMismatch))) || (vs.len() == 1 && !(vs[0] matches IFDEntryValue::RATIONAL(_, _) || vs[0] matches IFDEntryValue::SRATIONAL(_, _)) && e == (TiffError(DecodeError::TypeMismatch))),
            _ => false,
        }
    } else if tag == 41488 {
        match r {
            Ok(TiffTag::FocalPlaneResolutionUnit(payload)) => vs.len() == 1 && (vs[0] matches IFDEntryValue::SHORT(_)) && payload@ == resolution_unit_name(short_payload(vs[0])),
            Err(e) => (vs.len() != 1 && e == (TiffError(DecodeError::ArityMismatch))) || (vs.len() == 1 && !(vs[0] matches IFDEntryValue::SHORT(_)) && e == (TiffError(DecodeError::TypeMismatch))),
            _ => false,
        }
    } else if tag == 41495 {
        match r {
            Ok(TiffTag::SensingMethod(payload)) => vs.len() == 1 && (vs[0] matches IFDEntryValue::SHORT(_)) && payload@ == sensing_method_name(short_payload(vs[0])),
            Err(e) => (vs.len() != 1 && e == (TiffError(DecodeError::ArityMismatch))) || (vs.len() == 1 && !(vs[0] matches IFDEntryValue::SHORT(_)) && e == (TiffError(DecodeError::TypeMismatch))),
            _ => false,
        }
    } else if tag == 41986 {
        match r {
            Ok(TiffTag::ExposureMode(payload)) => vs.len() == 1 && (vs[0] matches IFDEntryValue::SHORT(_)) && payload@ == exposure_mode_name(short_payload(vs[0])),
            Err(e) => (vs.len() != 1 && e == (TiffError(DecodeError::ArityMismatch))) || (vs.len() == 1 && !(vs[0] matches IFDEntryValue::SHORT(_)) && e == (TiffError(DecodeError::TypeMismatch))),
            _ => false,
        }
    } else if tag == 41987 {
        match r {
            Ok(TiffTag::WhiteBalance(payload)) => vs.len() == 1 && (vs[0] matches IFDEntryValue::SHORT(_)) && payload@ == white_balance_name(short_payload(vs[0])),
            Err(e) => (vs.len() != 1 && e == (TiffError(DecodeError::ArityMismatch))) || (vs.len() == 1 && !(vs[0] matches IFDEntryValue::SHORT(_)) && e == (TiffError(DecodeError::TypeMismatch))),
            _ => false,
        }
    } else if tag == 41988 {
        match r {
            Ok(TiffTag::DigitalZoomRatio(payload)) => vs.len() == 1 && match vs[0] {
                IFDEntryValue::RATIONAL(a, b) => payload@ == rational_repr(a, b),
                IFDEntryValue::SRATIONAL(a, b) => payload@ == srational_repr(a, b),
                _ => false,
            },
            Err(e) => (vs.len() != 1 && e == (TiffError(DecodeError::ArityMismatch))) || (vs.len() == 1 && !(vs[0] matches IFDEntryValue::RATIONAL(_, _) || vs[0] matches IFDEntryValue::SRATIONAL(_, _)) && e == (TiffError(DecodeError::TypeMismatch))),
            _ => false,
        }
    } else if tag == 41989 {
        match r {
            Ok(TiffTag::FocalLengthIn35mmFilm(payload)) => vs.len() == 1 && vs[0] == IFDEntryValue::SHORT(payload),
            Err(e) => (vs.len() != 1 && e == (TiffError(DecodeError::ArityMismatch))) || (vs.len() == 1 && !(vs[0] matches IFDEntryValue::SHORT(_)) && e == (TiffError(DecodeError::TypeMismatch))),
            _ => false,
        }
    } else if tag == 41990 {
        match r {
            Ok(TiffTag::SceneCaptureType(payload)) => vs.len() == 1 && (vs[0] matches IFDEntryValue::SHORT(_)) && payload@ == scene_capture_type_name(short_payload(vs[0])),
            Err(e) => (vs.len() != 1 && e == (TiffError(DecodeError::ArityMismatch))) || (vs.len() == 1 && !(vs[0] matches IFDEntryValue::SHORT(_)) && e == (TiffError(DecodeError::TypeMismatch))),
            _ => false,
        }
    } else if tag == 41991 {
        match r {
            Ok(TiffTag::GainControl(payload)) => vs.len() == 1 && (vs[0] matches IFDEntryValue::SHORT(_)) && payload@ == gain_control_name(short_payload(vs[0])),
            Err(e) => (vs.len() != 1 && e == (TiffError(DecodeError::ArityMismatch))) || (vs.len() == 1 && !(vs[0] matches IFDEntryValue::SHORT(_)) && e == (TiffError(DecodeError::TypeMismatch))),
            _ => false,
        }
    } else if tag == 41992 {
        match r {
            Ok(TiffTag::Contrast(payload)) => vs.len() == 1 && (vs[0] matches IFDEntryValue::SHORT(_)) && payload@ == contrast_name(short_payload(vs[0])),
            Err(e) => (vs.len() != 1 && e == (TiffError(DecodeError::ArityMismatch))) || (vs.len() == 1 && !(vs[0] matches IFDEntryValue::SHORT(_)) && e == (TiffError(DecodeError::TypeMismatch))),
            _ => false,
        }
    } else if tag == 41993 {
        match r {
            Ok(TiffTag::Saturation(payload)) => vs.len() == 1 && (vs[0] matches IFDEntryValue::SHORT(_)) && payload@ == saturation_name(short_payload(vs[0])),
            Err(e) => (vs.len() != 1 && e == (TiffError(DecodeError::ArityMismatch))) || (vs.len() == 1 && !(vs[0] matches IFDEntryValue::SHORT(_)) && e == (TiffError(DecodeError::TypeMismatch))),
            _ => false,
        }
    } else if tag == 41994 {
        match r {
            Ok(TiffTag::Sharpness(payload)) => vs.len() == 1 && (vs[0] matches IFDEntryValue::SHORT(_)) && payload@ == sharpness_name(short_payload(vs[0])),
            Err(e) => (vs.len() != 1 && e == (TiffError(DecodeError::ArityMismatch))) || (vs.len() == 1 && !(vs[0] matches IFDEntryValue::SHORT(_)) && e == (TiffError(DecodeError::TypeMismatch))),
            _ => false,
        }
    } else if tag == 41996 {
        match r {
            Ok(TiffTag::SubjectDistanceRange(payload)) => vs.len() == 1 && (vs[0] matches IFDEntryValue::SHORT(_)) && payload@ == subject_distance_range_name(short_payload(vs[0])),
            Err(e) => (vs.len() != 1 && e == (TiffError(DecodeError::ArityMismatch))) || (vs.len() == 1 && !(vs[0] matches IFDEntryValue::SHORT(_)) && e == (TiffError(DecodeError::TypeMismatch))),
            _ => false,
        }
    } else {
        unknown_projection(tag, vs, r)
    }
}

/// How one raw entry projects to a semantic tag (or to a projection
/// error): the whole per-tag-id table, stated once.
pub open spec fn projects_to(tag: u16, vs: Seq<IFDEntryValue>, r: Result<TiffTag, TiffError>) -> bool {
    if tag <= 29 {
        projects_gps_tag(tag, vs, r)
    } else if 259 <= tag <= 315 {
        projects_image_tag(tag, vs, r)
    } else if tag >= 33432 {
        projects_exif_tag(tag, vs, r)
    } else {
        unknown_projection(tag, vs, r)
    }
}

/// Projects an entry whose id belongs to the GPS table.
#[verifier::rlimit(60)]
fn project_gps_tag_entry(entry: IFDEntry) -> (r: Result<TiffTag, TiffError>)
    ensures
        projects_gps_tag(entry.tag, entry.values@, r),
{
    match entry.tag {
        0 => {
            let v = bytes_of(&entry)?;
            if v.len() == 4 {
                Ok(TiffTag::GPSVersionID(v))
            } else {
                Err(TiffError(DecodeError::ArityMismatch))
            }
        },
        1 => Ok(TiffTag::GPSLatitudeRef(ascii_string_of(&entry)?)),
        2 => {
            let v = rationals_of(&entry)?;
            if v.len() == 3 {
                Ok(TiffTag::GPSLatitude(v))
            } else {
                Err(TiffError(DecodeError::ArityMismatch))
            }
        },
        3 => Ok(TiffTag::GPSLongitudeRef(ascii_string_of(&entry)?)),
        4 => {
            let v = rationals_of(&entry)?;
            if v.len() == 3 {
                Ok(TiffTag::GPSLongitude(v))
            } else {
                Err(TiffError(DecodeError::ArityMismatch))
            }
        },
        5 => Ok(TiffTag::GPSAltitudeRef(altitude_ref_string(ubyte_of(&entry)?))),
        6 => Ok(TiffTag::GPSAltitude(single_rational_of(&entry)?)),
        7 => {
            let v = rationals_of(&entry)?;
            if v.len() == 3 {
                Ok(TiffTag::GPSTimeStamp(v))
            } else {
                Err(TiffError(DecodeError::ArityMismatch))
            }
        },
        8 => Ok(TiffTag::GPSSatellites(ascii_string_of(&entry)?)),
        9 => Ok(TiffTag::GPSStatus(ascii_string_of(&entry)?)),
        16 => Ok(TiffTag::GPSImgDirectionRef(ascii_string_of(&entry)?)),
        17 => Ok(TiffTag::GPSImgDirection(single_rational_of(&entry)?)),
        18 => Ok(TiffTag::GPSMapDatum(ascii_string_of(&entry)?)),
        29 => Ok(TiffTag::GPSDateStamp(ascii_string_of(&entry)?)),
        _ => Ok(TiffTag::Unknown(entry)),
    }
}

/// Projects an entry whose id belongs to the baseline image table.
#[verifier::rlimit(60)]
fn project_image_tag_entry(entry: IFDEntry) -> (r: Result<TiffTag, TiffError>)
    ensures
        projects_image_tag(entry.tag, entry.values@, r),
{
    match entry.tag {
        259 => Ok(TiffTag::Compression(compression_string(ushort_of(&entry)?))),
        270 => Ok(TiffTag::ImageDescription(ascii_string_of(&entry)?)),
        271 => Ok(TiffTag::Make(ascii_string_of(&entry)?)),
        272 => Ok(TiffTag::Model(ascii_string_of(&entry)?)),
        274 => Ok(TiffTag::Orientation(ushort_of(&entry)?)),
        282 => Ok(TiffTag::XResolution(single_rational_of(&entry)?)),
        283 => Ok(TiffTag::YResolution(single_rational_of(&entry)?)),
        296 => Ok(TiffTag::ResolutionUnit(resolution_unit_string(ushort_of(&entry)?))),
        305 => Ok(TiffTag::Software(ascii_string_of(&entry)?)),
        306 => Ok(TiffTag::DateTime(ascii_string_of(&entry)?)),
        315 => Ok(TiffTag::Artist(ascii_string_of(&entry)?)),
        _ => Ok(TiffTag::Unknown(entry)),
    }
}

/// Projects an entry whose id belongs to the EXIF table.
#[verifier::rlimit(60)]
fn project_exif_tag_entry(entry: IFDEntry) -> (r: Result<TiffTag, TiffError>)
    ensures
        projects_exif_tag(entry.tag, entry.values@, r),
{
    match entry.tag {
        33432 => Ok(TiffTag::Copyright(ascii_string_of(&entry)?)),
        33434 => Ok(TiffTag::ExposureTime(rational_repr_of(&entry)?)),
        33437 => Ok(TiffTag::FNumber(rational_repr_of(&entry)?)),
        34665 => Ok(TiffTag::ExifIfdPointer(ulong_of(&entry)?)),
        34850 => Ok(TiffTag::ExposureProgram(exposure_program_string(ushort_of(&entry)?))),
        34853 => Ok(TiffTag::GpsIfdPointer(ulong_of(&entry)?)),
        36864 => Ok(TiffTag::ExifVersion(undefined_string_of(&entry)?)),
        36867 => Ok(TiffTag::DateTimeOriginal(ascii_string_of(&entry)?)),
        36868 => Ok(TiffTag::DateTimeDigitized(ascii_string_of(&entry)?)),
        37122 => Ok(TiffTag::CompressedBitsPerPixel(rational_repr_of(&entry)?)),
        37377 => Ok(TiffTag::ShutterSpeedValue(rational_repr_of(&entry)?)),
        37378 => Ok(TiffTag::ApertureValue(rational_repr_of(&entry)?)),
        37380 => Ok(TiffTag::ExposureBiasValue(rational_repr_of(&entry)?)),
        37381 => Ok(TiffTag::MaxApertureValue(rational_repr_of(&entry)?)),
        37383 => Ok(TiffTag::MeteringMode(metering_mode_string(ushort_of(&entry)?))),
        37384 => Ok(TiffTag::LightSource(light_source_string(ushort_of(&entry)?))),
        37385 => Ok(TiffTag::Flash(flash_string(ushort_of(&entry)?))),
        37386 => Ok(TiffTag::FocalLength(rational_repr_of(&entry)?)),
        37500 => Ok(TiffTag::MakerNote(bytes_of(&entry)?)),
        37510 => {
            let data = bytes_of(&entry)?;
            if data.len() < 9 {
                return Err(TiffError(DecodeError::ArityMismatch));
            }
            // the comment's declared character set: an 8-byte
            // NUL-padded prefix naming `ASCII`, `JIS` or `UNICODE`
            let ascii_declared = data[0] == 0x41 && data[1] == 0x53 && data[2] == 0x43 && data[3]
                == 0x49 && data[4] == 0x49 && data[5] == 0 && data[6] == 0 && data[7] == 0;
            let jis_declared = data[0] == 0x4A && data[1] == 0x49 && data[2] == 0x53 && data[3]
                == 0 && data[4] == 0 && data[5] == 0 && data[6] == 0 && data[7] == 0;
            let unicode_declared = data[0] == 0x55 && data[1] == 0x4E && data[2] == 0x49 && data[3]
                == 0x43 && data[4] == 0x4F && data[5] == 0x44 && data[6] == 0x45 && data[7] == 0;
            let tail = vstd::slice::slice_subrange(data.as_slice(), 8, data.len() - 1);
            // every declared encoding is currently rendered as lossy
            // UTF-8: a known fidelity gap, kept visible here rather
            // than silently corrected
            let text = if ascii_declared {
                lossy_string(tail)
            } else if jis_declared || unicode_declared {
                lossy_string(tail)
            } else {
                lossy_string(tail)
            };
            Ok(TiffTag::UserComment(text))
        },
        37520 => Ok(TiffTag::SubsecTime(ascii_string_of(&entry)?)),
        37521 => Ok(TiffTag::SubsecTimeOriginal(ascii_string_of(&entry)?)),
        37522 => Ok(TiffTag::SubsecTimeDigitized(ascii_string_of(&entry)?)),
        40960 => Ok(TiffTag::FlashpixVersion(undefined_string_of(&entry)?)),
        40962 => Ok(TiffTag::PixelXDimension(ushort_or_ulong_of(&entry)?)),
        40963 => Ok(TiffTag::PixelYDimension(ushort_or_ulong_of(&entry)?)),
        41486 => Ok(TiffTag::FocalPlaneXResolution(rational_repr_of(&entry)?)),
        41487 => Ok(TiffTag::FocalPlaneYResolution(rational_repr_of(&entry)?)),
        41488 => Ok(TiffTag::FocalPlaneResolutionUnit(resolution_unit_string(ushort_of(&entry)?))),
        41495 => Ok(TiffTag::SensingMethod(sensing_method_string(ushort_of(&entry)?))),
        41986 => Ok(TiffTag::ExposureMode(exposure_mode_string(ushort_of(&entry)?))),
        41987 => Ok(TiffTag::WhiteBalance(white_balance_string(ushort_of(&entry)?))),
        41988 => Ok(TiffTag::DigitalZoomRatio(rational_repr_of(&entry)?)),
        41989 => Ok(TiffTag::FocalLengthIn35mmFilm(ushort_of(&entry)?)),
        41990 => Ok(TiffTag::SceneCaptureType(scene_capture_type_string(ushort_of(&entry)?))),
        41991 => Ok(TiffTag::GainControl(gain_control_string(ushort_of(&entry)?))),
        41992 => Ok(TiffTag::Contrast(contrast_string(ushort_of(&entry)?))),
        41993 => Ok(TiffTag::Saturation(saturation_string(ushort_of(&entry)?))),
        41994 => Ok(TiffTag::Sharpness(sharpness_string(ushort_of(&entry)?))),
        41996 => Ok(TiffTag::SubjectDistanceRange(subject_distance_range_string(ushort_of(&entry)?))),
        _ => Ok(TiffTag::Unknown(entry)),
    }
}

impl TiffTag {
    /// Projects one raw IFD entry through the fixed tag-id table.
    pub fn try_from(entry: IFDEntry) -> (r: Result<TiffTag, TiffError>)
        ensures
            projects_to(entry.tag, entry.values@, r),
    {
        if entry.tag <= 29 {
            project_gps_tag_entry(entry)
        } else if 259 <= entry.tag && entry.tag <= 315 {
            project_image_tag_entry(entry)
        } else if entry.tag >= 33432 {
            project_exif_tag_entry(entry)
        } else {
            Ok(TiffTag::Unknown(entry))
        }
    }
}

} // verus!
