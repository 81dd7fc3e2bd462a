//! Textual parameters: pairs of values written `first,second`, such as a
//! resolution or a corner coordinate, and the names of pixel kinds and
//! patterns.

use crate::error::GeoTiffError;
use vstd::prelude::*;
use vstd::string::StringExecFns;

verus! {

/// How many commas `text` holds.
pub open spec fn comma_count(text: Seq<char>) -> nat
    decreases text.len(),
{
    if text.len() == 0 {
        0
    } else {
        comma_count(text.drop_last()) + if text.last() == ',' {
            1nat
        } else {
            0nat
        }
    }
}

/// What a text that is not a pair is refused with.
pub open spec fn not_a_pair(text: Seq<char>) -> Seq<char> {
    "Expected two comma-separated values, got '"@ + text + "'"@
}

/// Counting one character further.
proof fn lemma_comma_count_step(text: Seq<char>, i: int)
    requires
        0 <= i < text.len(),
    ensures
        comma_count(text.subrange(0, i + 1)) == comma_count(text.subrange(0, i)) + if text[i]
            == ',' {
            1nat
        } else {
            0nat
        },
{
    assert(text.subrange(0, i + 1).drop_last() == text.subrange(0, i));
}

/// Splits `text` at its comma into the part before and the part after.
///
/// A text with no comma, or with more than one, is not a pair and is
/// refused. Neither part is trimmed or otherwise read.
pub fn split_pair(text: &str) -> (result: Result<(String, String), GeoTiffError>)
    ensures
        result is Ok <==> comma_count(text@) == 1,
        result matches Ok((first, second)) ==> first@ + seq![','] + second@ == text@
            && !first@.contains(',') && !second@.contains(','),
        result matches Err(e) ==> e is InvalidParameter && e.detail() == not_a_pair(text@),
{
    let len = text.unicode_len();
    let mut commas: usize = 0;
    let mut at: usize = 0;
    let mut i: usize = 0;
    while i < len
        invariant
            i <= len == text@.len(),
            commas == comma_count(text@.subrange(0, i as int)),
            commas <= i,
            commas == 0 ==> forall|j: int| 0 <= j < i ==> text@[j] != ',',
            commas >= 1 ==> at < i && text@[at as int] == ',' && forall|j: int|
                0 <= j < at ==> text@[j] != ',',
            commas == 1 ==> forall|j: int| at < j < i ==> text@[j] != ',',
        decreases len - i,
    {
        proof {
            lemma_comma_count_step(text@, i as int);
        }
        if text.get_char(i) == ',' {
            if commas == 0 {
                at = i;
            }
            commas = commas + 1;
        }
        i = i + 1;
    }
    assert(text@.subrange(0, len as int) == text@);
    if commas != 1 {
        let detail = String::from_str("Expected two comma-separated values, got '").concat(
            text,
        ).concat("'");
        return Err(GeoTiffError::InvalidParameter(detail));
    }
    let first = String::from_str(text.substring_char(0, at));
    let second = String::from_str(text.substring_char(at + 1, len));
    proof {
        assert(first@ + seq![','] + second@ =~= text@);
        assert(!first@.contains(',')) by {
            if first@.contains(',') {
                let j = choose|j: int| 0 <= j < first@.len() && first@[j] == ',';
                assert(text@[j] == ',');
            }
        }
        assert(!second@.contains(',')) by {
            if second@.contains(',') {
                let j = choose|j: int| 0 <= j < second@.len() && second@[j] == ',';
                assert(text@[at + 1 + j] == ',');
            }
        }
    }
    Ok((first, second))
}

/// What a part that is no number is refused with.
pub open spec fn not_a_number_detail(part: Seq<char>) -> Seq<char> {
    "Expected a number, got '"@ + part + "'"@
}

/// The error for a part of a pair that could not be read as a number.
pub fn not_a_number(part: &str) -> (error: GeoTiffError)
    ensures
        error is InvalidParameter,
        error.detail() == not_a_number_detail(part@),
{
    GeoTiffError::InvalidParameter(
        String::from_str("Expected a number, got '").concat(part).concat("'"),
    )
}

/// Whether two texts are the same, character by character.
pub fn same_text(a: &str, b: &str) -> (same: bool)
    ensures
        same == (a@ == b@),
{
    let len = a.unicode_len();
    if len != b.unicode_len() {
        return false;
    }
    let mut i: usize = 0;
    while i < len
        invariant
            i <= len == a@.len() == b@.len(),
            forall|j: int| 0 <= j < i ==> a@[j] == b@[j],
        decreases len - i,
    {
        if a.get_char(i) != b.get_char(i) {
            return false;
        }
        i = i + 1;
    }
    assert(a@ =~= b@);
    true
}

/// The numeric representation of the pixels of a raster.
#[derive(Debug, Clone, Copy, PartialEq, Eq)]
pub enum PixelKind {
    /// Eight bits, unsigned.
    U8,
    /// Sixteen bits, unsigned.
    U16,
    /// Sixteen bits, signed.
    I16,
    /// Thirty-two bits, unsigned.
    U32,
    /// Thirty-two bits, signed.
    I32,
    /// Binary32 floating point.
    F32,
    /// Binary64 floating point.
    F64,
}

/// The pixel kind that a name stands for, if it is the name of one.
pub open spec fn pixel_kind_named(name: Seq<char>) -> Option<PixelKind> {
    if name == "u8"@ {
        Some(PixelKind::U8)
    } else if name == "u16"@ {
        Some(PixelKind::U16)
    } else if name == "i16"@ {
        Some(PixelKind::I16)
    } else if name == "u32"@ {
        Some(PixelKind::U32)
    } else if name == "i32"@ {
        Some(PixelKind::I32)
    } else if name == "f32"@ {
        Some(PixelKind::F32)
    } else if name == "f64"@ {
        Some(PixelKind::F64)
    } else {
        None
    }
}

/// What a name that is no pixel kind is refused with.
pub open spec fn unsupported_kind(name: Seq<char>) -> Seq<char> {
    "Unsupported data type: "@ + name
}

/// Reads the name of a pixel kind. Any other text is refused.
pub fn pixel_kind(name: &str) -> (result: Result<PixelKind, GeoTiffError>)
    ensures
        result matches Ok(kind) ==> pixel_kind_named(name@) == Some(kind),
        result matches Err(e) ==> pixel_kind_named(name@) is None && e is InvalidParameter
            && e.detail() == unsupported_kind(name@),
{
    if same_text(name, "u8") {
        Ok(PixelKind::U8)
    } else if same_text(name, "u16") {
        Ok(PixelKind::U16)
    } else if same_text(name, "i16") {
        Ok(PixelKind::I16)
    } else if same_text(name, "u32") {
        Ok(PixelKind::U32)
    } else if same_text(name, "i32") {
        Ok(PixelKind::I32)
    } else if same_text(name, "f32") {
        Ok(PixelKind::F32)
    } else if same_text(name, "f64") {
        Ok(PixelKind::F64)
    } else {
        Err(
            GeoTiffError::InvalidParameter(
                String::from_str("Unsupported data type: ").concat(name),
            ),
        )
    }
}

/// One of the built-in patterns.
#[derive(Debug, Clone, Copy, PartialEq, Eq)]
pub enum PatternKind {
    /// The coordinate sum.
    Gradient,
    /// The interference pattern of sine and cosine waves.
    SineWave,
    /// The noise-like pattern.
    Noise,
}

/// The pattern that a name stands for: the gradient for every name but
/// those of the two others.
pub open spec fn pattern_named(name: Seq<char>) -> PatternKind {
    if name == "sine"@ {
        PatternKind::SineWave
    } else if name == "noise"@ {
        PatternKind::Noise
    } else {
        PatternKind::Gradient
    }
}

/// Reads the name of a pattern.
pub fn pattern_kind(name: &str) -> (kind: PatternKind)
    ensures
        kind == pattern_named(name@),
{
    if same_text(name, "sine") {
        PatternKind::SineWave
    } else if same_text(name, "noise") {
        PatternKind::Noise
    } else {
        PatternKind::Gradient
    }
}

} // verus!
