use vstd::prelude::*;
use vstd::string::StringSliceAdditionalSpecFns;
use vstd::utf8::is_char_boundary;
use crate::text::{chars_of, string_from_chars};

verus! {

/// Where a request parameter is read from.
#[derive(Debug, Clone, Copy, PartialEq, Eq, Structural)]
pub enum ParameterLocation {
    Path,
    Query,
}

/// The schema type a request parameter is documented with.
#[derive(Debug, Clone, Copy, PartialEq, Eq, Structural)]
pub enum SchemaType {
    Integer,
    Number,
    String,
    Boolean,
}

/// How a field of a request is documented as a parameter.
#[derive(Debug, Clone, Copy, PartialEq, Eq, Structural)]
pub struct ParameterShape {
    pub location: ParameterLocation,
    pub required: bool,
    pub schema_type: SchemaType,
}

/// Whether `pat` occurs in `s` starting at byte `i`.
pub open spec fn occurs_at(s: Seq<u8>, pat: Seq<u8>, i: int) -> bool {
    0 <= i && i + pat.len() <= s.len() && s.subrange(i, i + pat.len()) == pat
}

/// The first byte position at or after `i` where `pat` occurs in `s`.
pub open spec fn find_from(s: Seq<u8>, pat: Seq<u8>, i: int) -> Option<int>
    decreases s.len() + 1 - i,
{
    if i < 0 || i + pat.len() > s.len() {
        None
    } else if occurs_at(s, pat, i) {
        Some(i)
    } else {
        find_from(s, pat, i + 1)
    }
}

/// The text that marks an optional field in a type's token text.
pub open spec fn option_marker() -> Seq<u8> {
    "Option <".spec_bytes()
}

/// The closing chevron.
pub open spec fn chevron() -> Seq<u8> {
    ">".spec_bytes()
}

/// The schema type of a type's text: integers for `u32` and `u64`, numbers for `f32` and
/// `f64`, strings for `String` and `&str`, booleans for `bool`, and integers for anything else.
pub open spec fn schema_of(t: Seq<u8>) -> SchemaType {
    if t == "u32".spec_bytes() || t == "u64".spec_bytes() {
        SchemaType::Integer
    } else if t == "f32".spec_bytes() || t == "f64".spec_bytes() {
        SchemaType::Number
    } else if t == "String".spec_bytes() || t == "&str".spec_bytes() {
        SchemaType::String
    } else if t == "bool".spec_bytes() {
        SchemaType::Boolean
    } else {
        SchemaType::Integer
    }
}

/// Whether a type's text can be read: when it holds the marker of an optional field (at byte
/// `i`), a `>` follows (at byte `g`), and the inner type is cut from byte `i + 8` to byte
/// `g - i`, the position of the `>` counted from the marker, which must not come before the
/// cut's start and must fall on a character boundary.
pub open spec fn shape_readable(s: Seq<u8>) -> bool {
    match find_from(s, option_marker(), 0) {
        None => true,
        Some(i) => match find_from(s, chevron(), i) {
            None => false,
            Some(g) => i + 8 <= g - i && is_char_boundary(s, g - i),
        },
    }
}

/// How a field whose type has the given token text is documented: an optional field is an
/// optional query parameter whose schema comes from the text cut out as [`shape_readable`]
/// says; any other field is a required path parameter whose schema comes from the whole text.
pub open spec fn shape_of(s: Seq<u8>) -> ParameterShape {
    match find_from(s, option_marker(), 0) {
        None => ParameterShape { location: ParameterLocation::Path, required: true, schema_type: schema_of(s) },
        Some(i) => ParameterShape {
            location: ParameterLocation::Query,
            required: false,
            schema_type: schema_of(s.subrange(i + 8, find_from(s, chevron(), i)->0 - i)),
        },
    }
}

/// A position found is a position where the pattern occurs, at or after the start.
proof fn lemma_found(s: Seq<u8>, pat: Seq<u8>, i: int)
    ensures
        find_from(s, pat, i) matches Some(g) ==> i <= g && occurs_at(s, pat, g),
    decreases s.len() + 1 - i,
{
    if i < 0 || i + pat.len() > s.len() {
    } else if occurs_at(s, pat, i) {
    } else {
        lemma_found(s, pat, i + 1);
    }
}

fn matches_at(s: &[u8], pat: &[u8], i: usize) -> (r: bool)
    requires
        i + pat.len() <= s.len(),
    ensures
        r == (s@.subrange(i as int, i + pat@.len()) == pat@),
{
    let mut k: usize = 0;
    while k < pat.len()
        invariant
            k <= pat.len(),
            i + pat.len() <= s.len(),
            forall|j: int| 0 <= j < k ==> s@[i + j] == pat@[j],
        decreases pat.len() - k,
    {
        if s[i + k] != pat[k] {
            assert(s@.subrange(i as int, i + pat@.len())[k as int] != pat@[k as int]);
            return false;
        }
        k = k + 1;
    }
    assert(s@.subrange(i as int, i + pat@.len()) =~= pat@);
    true
}

fn find_bytes(s: &[u8], pat: &[u8], from: usize) -> (r: Option<usize>)
    requires
        from <= s.len(),
    ensures
        match r {
            Some(i) => find_from(s@, pat@, from as int) == Some(i as int),
            None => find_from(s@, pat@, from as int) is None,
        },
{
    let mut i = from;
    while pat.len() <= s.len() - i
        invariant
            from <= i <= s.len(),
            find_from(s@, pat@, from as int) == find_from(s@, pat@, i as int),
        decreases s.len() - i,
    {
        if matches_at(s, pat, i) {
            return Some(i);
        }
        proof {
            if pat@.len() == 0 {
                assert(s@.subrange(i as int, i as int) =~= pat@);
            }
        }
        i = i + 1;
    }
    None
}

fn range_equals(s: &[u8], start: usize, end: usize, t: &[u8]) -> (r: bool)
    requires
        start <= end <= s.len(),
    ensures
        r == (s@.subrange(start as int, end as int) == t@),
{
    if end - start != t.len() {
        return false;
    }
    matches_at(s, t, start)
}

fn schema_of_range(s: &[u8], start: usize, end: usize) -> (r: SchemaType)
    requires
        start <= end <= s.len(),
    ensures
        r == schema_of(s@.subrange(start as int, end as int)),
{
    if range_equals(s, start, end, "u32".as_bytes()) || range_equals(s, start, end, "u64".as_bytes()) {
        SchemaType::Integer
    } else if range_equals(s, start, end, "f32".as_bytes()) || range_equals(s, start, end, "f64".as_bytes()) {
        SchemaType::Number
    } else if range_equals(s, start, end, "String".as_bytes()) || range_equals(s, start, end, "&str".as_bytes()) {
        SchemaType::String
    } else if range_equals(s, start, end, "bool".as_bytes()) {
        SchemaType::Boolean
    } else {
        SchemaType::Integer
    }
}

/// How a request field whose type has the given token text is documented as a parameter.
pub fn parameter_shape(type_text: &str) -> (r: ParameterShape)
    requires
        shape_readable(type_text.spec_bytes()),
    ensures
        r == shape_of(type_text.spec_bytes()),
{
    let s = type_text.as_bytes();
    assert(s@.subrange(0, s@.len() as int) =~= s@);
    match find_bytes(s, "Option <".as_bytes(), 0) {
        None => ParameterShape {
            location: ParameterLocation::Path,
            required: true,
            schema_type: schema_of_range(s, 0, s.len()),
        },
        Some(i) => {
            proof {
                lemma_found(s@, option_marker(), 0);
            }
            let g = find_bytes(s, ">".as_bytes(), i).unwrap();
            proof {
                lemma_found(s@, chevron(), i as int);
            }
            ParameterShape {
                location: ParameterLocation::Query,
                required: false,
                schema_type: schema_of_range(s, i + 8, g - i),
            }
        },
    }
}

/// The description of a parameter: the text of each of the field's documentation values,
/// each followed by a line break.
pub open spec fn described(values: Seq<Seq<char>>) -> Seq<char>
    decreases values.len(),
{
    if values.len() == 0 {
        seq![]
    } else {
        described(values.drop_last()) + values.last() + seq!['\n']
    }
}

/// The description of a parameter from the texts of its field's documentation values.
pub fn parameter_description(values: &Vec<String>) -> (r: String)
    ensures
        r@ == described(values@.map_values(|v: String| v@)),
{
    let ghost texts = values@.map_values(|v: String| v@);
    let mut chars: Vec<char> = Vec::new();
    let mut i: usize = 0;
    while i < values.len()
        invariant
            i <= values@.len(),
            texts == values@.map_values(|v: String| v@),
            chars@ == described(texts.take(i as int)),
        decreases values.len() - i,
    {
        let mut part = chars_of(values[i].as_str());
        chars.append(&mut part);
        chars.push('\n');
        assert(texts.take(i + 1).drop_last() =~= texts.take(i as int));
        i = i + 1;
        assert(chars@ =~= described(texts.take(i as int)));
    }
    assert(texts.take(values.len() as int) =~= texts);
    string_from_chars(&chars)
}

} // verus!
