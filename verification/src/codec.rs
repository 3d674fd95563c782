//! Wire codec: pure functions from raw byte windows to typed field values.
//!
//! Integers are little-endian.  A field's byte width depends only on its
//! declared type: `Int`, `Float` and `Str` occupy four bytes, `Bool` one.
//! `Float` values travel as 32-bit IEEE-754; this crate carries them as their
//! raw bit pattern and leaves widening to the storage layer.

use vstd::prelude::*;

use crate::Error;

verus! {

/// The closed set of field types a schema may declare.
///
/// Equality compares shapes only; decoded payloads live in [`FieldValue`].
#[derive(Clone, Copy, Debug, PartialEq, Eq, Structural)]
pub enum FieldType {
    /// 32-bit integer, four bytes on the wire.
    Int,
    /// 32-bit IEEE-754 on the wire, widened to 64-bit by the storage layer.
    Float,
    /// One byte on the wire; any nonzero byte is true.
    Bool,
    /// A four-byte reference into the string table, not inline text.
    Str,
}

/// A decoded field payload, tagged with its type.
///
/// `Float` holds the raw bits of the wire's 32-bit IEEE-754 value, and `Str`
/// holds a string-table identifier.
#[derive(Clone, Copy, Debug, PartialEq, Eq, Structural)]
pub enum FieldValue {
    Int(u32),
    Float(u32),
    Bool(bool),
    Str(u32),
}

/// One typed, named column of a schema; the name is a string-table id.
#[derive(Clone, Copy, Debug, PartialEq, Eq, Structural)]
pub struct FieldDescriptor {
    pub data_type: FieldType,
    pub name: u32,
}

/// The field type a wire tag denotes, if any.
pub open spec fn spec_type_of_tag(tag: u8) -> Option<FieldType> {
    if tag == 1 {
        Some(FieldType::Int)
    } else if tag == 2 {
        Some(FieldType::Float)
    } else if tag == 3 {
        Some(FieldType::Bool)
    } else if tag == 4 {
        Some(FieldType::Str)
    } else {
        None
    }
}

/// Byte width of one value of the given type on the wire.
pub open spec fn spec_width_of(t: FieldType) -> int {
    match t {
        FieldType::Int => 4,
        FieldType::Float => 4,
        FieldType::Bool => 1,
        FieldType::Str => 4,
    }
}

/// The little-endian 32-bit integer held in the first four bytes of `w`.
pub open spec fn spec_le32(w: Seq<u8>) -> u32
    recommends
        w.len() >= 4,
{
    (w[0] + w[1] * 0x100 + w[2] * 0x1_0000 + w[3] * 0x100_0000) as u32
}

/// The value of one field of type `t` decoded at the start of `w`.
pub open spec fn spec_value_of(t: FieldType, w: Seq<u8>) -> FieldValue
    recommends
        w.len() >= spec_width_of(t),
{
    match t {
        FieldType::Int => FieldValue::Int(spec_le32(w)),
        FieldType::Float => FieldValue::Float(spec_le32(w)),
        FieldType::Bool => FieldValue::Bool(w[0] != 0),
        FieldType::Str => FieldValue::Str(spec_le32(w)),
    }
}

/// Total wire width of a row described by `fields`.
pub open spec fn spec_total_width(fields: Seq<FieldDescriptor>) -> int
    decreases fields.len(),
{
    if fields.len() == 0 {
        0
    } else {
        spec_width_of(fields[0].data_type) + spec_total_width(fields.drop_first())
    }
}

/// The row of values described by `fields`, decoded in order from the start
/// of `w`.
pub open spec fn spec_values_of(fields: Seq<FieldDescriptor>, w: Seq<u8>) -> Seq<FieldValue>
    decreases fields.len(),
{
    if fields.len() == 0 {
        Seq::empty()
    } else {
        seq![spec_value_of(fields[0].data_type, w)] + spec_values_of(
            fields.drop_first(),
            w.skip(spec_width_of(fields[0].data_type)),
        )
    }
}

/// A row's total width lies between one and four bytes per field.
pub proof fn lemma_total_width_bound(fields: Seq<FieldDescriptor>)
    ensures
        fields.len() <= spec_total_width(fields) <= 4 * fields.len(),
    decreases fields.len(),
{
    if fields.len() > 0 {
        lemma_total_width_bound(fields.drop_first());
    }
}

/// A row's width splits at any field boundary.
pub proof fn lemma_total_width_split(fields: Seq<FieldDescriptor>, i: int)
    requires
        0 <= i <= fields.len(),
    ensures
        spec_total_width(fields) == spec_total_width(fields.take(i)) + spec_total_width(
            fields.skip(i),
        ),
    decreases i,
{
    if i == 0 {
        assert(fields.take(0).len() == 0);
        assert(fields.skip(0) =~= fields);
    } else {
        lemma_total_width_split(fields.drop_first(), i - 1);
        assert(fields.take(i).drop_first() =~= fields.drop_first().take(i - 1));
        assert(fields.skip(i) =~= fields.drop_first().skip(i - 1));
        assert(fields.take(i)[0] == fields[0]);
    }
}

/// Extending a field prefix by one adds that field's width.
pub proof fn lemma_total_width_snoc(fields: Seq<FieldDescriptor>, i: int)
    requires
        0 <= i < fields.len(),
    ensures
        spec_total_width(fields.take(i + 1)) == spec_total_width(fields.take(i)) + spec_width_of(
            fields[i].data_type,
        ),
    decreases i,
{
    if i == 0 {
        assert(fields.take(1).drop_first() =~= fields.take(0));
        assert(fields.take(0).len() == 0);
        assert(fields.take(1)[0] == fields[0]);
    } else {
        lemma_total_width_snoc(fields.drop_first(), i - 1);
        assert(fields.take(i + 1).drop_first() =~= fields.drop_first().take(i));
        assert(fields.take(i).drop_first() =~= fields.drop_first().take(i - 1));
        assert(fields.take(i + 1)[0] == fields[0]);
        assert(fields.take(i)[0] == fields[0]);
        assert(fields.drop_first()[i - 1] == fields[i]);
    }
}

/// A decoded row has one value per field.
pub proof fn lemma_values_len(fields: Seq<FieldDescriptor>, w: Seq<u8>)
    ensures
        spec_values_of(fields, w).len() == fields.len(),
    decreases fields.len(),
{
    if fields.len() > 0 {
        lemma_values_len(fields.drop_first(), w.skip(spec_width_of(fields[0].data_type)));
    }
}

/// Decoding one more field appends the value at the running offset.
pub proof fn lemma_values_snoc(fields: Seq<FieldDescriptor>, w: Seq<u8>, i: int)
    requires
        0 <= i < fields.len(),
        spec_total_width(fields.take(i + 1)) <= w.len(),
    ensures
        spec_values_of(fields.take(i + 1), w) == spec_values_of(fields.take(i), w).push(
            spec_value_of(fields[i].data_type, w.skip(spec_total_width(fields.take(i)))),
        ),
    decreases i,
{
    if i == 0 {
        assert(fields.take(1).drop_first() =~= fields.take(0));
        assert(fields.take(0).len() == 0);
        assert(fields.take(1)[0] == fields[0]);
        assert(w.skip(0) =~= w);
        assert(spec_values_of(fields.take(0), w).len() == 0);
        assert(spec_values_of(fields.take(0), w.skip(spec_width_of(fields[0].data_type))).len()
            == 0);
        assert(spec_values_of(fields.take(1), w) =~= spec_values_of(fields.take(0), w).push(
            spec_value_of(fields[0].data_type, w),
        ));
    } else {
        let f0w = spec_width_of(fields[0].data_type);
        assert(fields.take(i + 1)[0] == fields[0]);
        assert(fields.take(i + 1).drop_first() =~= fields.drop_first().take(i));
        assert(spec_total_width(fields.take(i + 1)) == f0w + spec_total_width(
            fields.drop_first().take(i),
        ));
        lemma_total_width_bound(fields.drop_first().take(i));
        lemma_values_snoc(fields.drop_first(), w.skip(f0w), i - 1);
        assert(fields.take(i).drop_first() =~= fields.drop_first().take(i - 1));
        assert(fields.take(i)[0] == fields[0]);
        assert(fields.drop_first()[i - 1] == fields[i]);
        assert(spec_total_width(fields.take(i)) == f0w + spec_total_width(
            fields.drop_first().take(i - 1),
        ));
        lemma_total_width_split(fields.drop_first().take(i), i - 1);
        assert(fields.drop_first().take(i).take(i - 1) =~= fields.drop_first().take(i - 1));
        lemma_total_width_bound(fields.drop_first().take(i).skip(i - 1));
        lemma_total_width_bound(fields.drop_first().take(i - 1));
        assert(w.skip(f0w).skip(spec_total_width(fields.drop_first().take(i - 1))) =~= w.skip(
            spec_total_width(fields.take(i)),
        ));
        assert(spec_values_of(fields.take(i + 1), w) =~= spec_values_of(fields.take(i), w).push(
            spec_value_of(fields[i].data_type, w.skip(spec_total_width(fields.take(i)))),
        ));
    }
}

/// The value at position `i` of a decoded row comes from field `i`, read at
/// the combined width of the fields before it.
pub proof fn lemma_values_index(fields: Seq<FieldDescriptor>, w: Seq<u8>, i: int)
    requires
        0 <= i < fields.len(),
        spec_total_width(fields) <= w.len(),
    ensures
        spec_values_of(fields, w)[i] == spec_value_of(
            fields[i].data_type,
            w.skip(spec_total_width(fields.take(i))),
        ),
    decreases i,
{
    lemma_values_len(fields.drop_first(), w.skip(spec_width_of(fields[0].data_type)));
    if i == 0 {
        assert(w.skip(0) =~= w);
        assert(fields.take(0).len() == 0);
    } else {
        let f0w = spec_width_of(fields[0].data_type);
        assert(spec_total_width(fields) == f0w + spec_total_width(fields.drop_first()));
        lemma_total_width_split(fields.drop_first(), i - 1);
        lemma_total_width_bound(fields.drop_first().skip(i - 1));
        lemma_total_width_bound(fields.drop_first().take(i - 1));
        lemma_values_index(fields.drop_first(), w.skip(f0w), i - 1);
        assert(fields.drop_first()[i - 1] == fields[i]);
        assert(fields.take(i).drop_first() =~= fields.drop_first().take(i - 1));
        assert(fields.take(i)[0] == fields[0]);
        lemma_total_width_bound(fields.drop_first().take(i - 1));
        assert(spec_total_width(fields.take(i)) == f0w + spec_total_width(
            fields.drop_first().take(i - 1),
        ));
        assert(w.skip(f0w).skip(spec_total_width(fields.drop_first().take(i - 1))) =~= w.skip(
            spec_total_width(fields.take(i)),
        ));
    }
}

impl FieldType {
    /// Maps a wire tag to its field type: 1 is `Int`, 2 is `Float`, 3 is
    /// `Bool`, 4 is `Str`.  Any other tag is a recoverable decode error,
    /// since tags originate from an untrusted remote peer.
    pub fn from_tag(tag: u8) -> (r: Result<FieldType, Error>)
        ensures
            r matches Ok(t) ==> spec_type_of_tag(tag) == Some(t),
            r is Err <==> spec_type_of_tag(tag) is None,
            r is Err ==> r == Err::<FieldType, Error>(Error::MalformedFrame),
    {
        match tag {
            1 => Ok(FieldType::Int),
            2 => Ok(FieldType::Float),
            3 => Ok(FieldType::Bool),
            4 => Ok(FieldType::Str),
            _ => Err(Error::MalformedFrame),
        }
    }

    /// The SQL column type this field type is stored as: `INTEGER` for `Int`
    /// and `Bool`, `REAL` for `Float`, `TEXT` for `Str`.
    pub fn sql_type_text(&self) -> (r: &'static str)
        ensures
            r@ == spec_sql_type_text(*self),
    {
        match self {
            FieldType::Int => "INTEGER",
            FieldType::Float => "REAL",
            FieldType::Bool => "INTEGER",
            FieldType::Str => "TEXT",
        }
    }
}

/// The SQL column type name for a field type.
pub open spec fn spec_sql_type_text(t: FieldType) -> Seq<char> {
    match t {
        FieldType::Int => "INTEGER"@,
        FieldType::Float => "REAL"@,
        FieldType::Bool => "INTEGER"@,
        FieldType::Str => "TEXT"@,
    }
}

/// Reads the little-endian 32-bit integer at offset `at` of `w`.
pub fn le32_at(w: &[u8], at: usize) -> (r: u32)
    requires
        at + 4 <= w@.len(),
    ensures
        r == spec_le32(w@.skip(at as int)),
{
    let b0 = w[at] as u32;
    let b1 = w[at + 1] as u32;
    let b2 = w[at + 2] as u32;
    let b3 = w[at + 3] as u32;
    let r = b0 + b1 * 0x100 + b2 * 0x1_0000 + b3 * 0x100_0000;
    proof {
        let s = w@.skip(at as int);
        assert(s[0] == w@[at as int] && s[1] == w@[at as int + 1] && s[2] == w@[at as int + 2]
            && s[3] == w@[at as int + 3]);
    }
    r
}

/// Decodes one field value of type `t` at offset `at` of `w`, returning the
/// value and the count of bytes consumed.  Fails only with
/// `InsufficientData`, exactly when fewer than the type's width of bytes
/// remain.
pub fn decode_value(t: FieldType, w: &[u8], at: usize) -> (r: Result<(FieldValue, usize), Error>)
    requires
        at <= w@.len(),
    ensures
        r matches Ok(p) ==> {
            &&& at + spec_width_of(t) <= w@.len()
            &&& p.0 == spec_value_of(t, w@.skip(at as int))
            &&& p.1 == spec_width_of(t)
        },
        r is Err <==> at + spec_width_of(t) > w@.len(),
        r is Err ==> r == Err::<(FieldValue, usize), Error>(Error::InsufficientData),
    {
    match t {
        FieldType::Int => {
            if w.len() - at < 4 {
                return Err(Error::InsufficientData);
            }
            Ok((FieldValue::Int(le32_at(w, at)), 4))
        },
        FieldType::Float => {
            if w.len() - at < 4 {
                return Err(Error::InsufficientData);
            }
            Ok((FieldValue::Float(le32_at(w, at)), 4))
        },
        FieldType::Bool => {
            if w.len() - at < 1 {
                return Err(Error::InsufficientData);
            }
            let b = w[at];
            proof {
                assert(w@.skip(at as int)[0] == w@[at as int]);
            }
            Ok((FieldValue::Bool(b != 0), 1))
        },
        FieldType::Str => {
            if w.len() - at < 4 {
                return Err(Error::InsufficientData);
            }
            Ok((FieldValue::Str(le32_at(w, at)), 4))
        },
    }
}

/// Decodes one field from a raw tag byte: maps the tag to its type, then
/// decodes that type's width of bytes from the start of `w`.  An unknown tag
/// is a `MalformedFrame`; a window shorter than the width is
/// `InsufficientData`.
pub fn decode_field(tag: u8, w: &[u8]) -> (r: Result<(FieldValue, usize), Error>)
    ensures
        r matches Ok(p) ==> {
            &&& spec_type_of_tag(tag) matches Some(t)
            &&& p.0 == spec_value_of(spec_type_of_tag(tag)->Some_0, w@)
            &&& p.1 == spec_width_of(spec_type_of_tag(tag)->Some_0)
            &&& spec_width_of(spec_type_of_tag(tag)->Some_0) <= w@.len()
        },
        r == Err::<(FieldValue, usize), Error>(Error::MalformedFrame) <==> spec_type_of_tag(tag) is None,
        r == Err::<(FieldValue, usize), Error>(Error::InsufficientData) <==> (spec_type_of_tag(
            tag,
        ) matches Some(t) && spec_width_of(t) > w@.len()),
    {
    let t = FieldType::from_tag(tag)?;
    let (v, n) = decode_value(t, w, 0)?;
    proof {
        assert(w@.skip(0) =~= w@);
    }
    Ok((v, n))
}

} // verus!
