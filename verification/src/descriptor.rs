//! Entry descriptors: compiled record schemas.
//!
//! A descriptor names its table and its ordered field list by string-table
//! ids and carries the insert statement compiled for it.  The wire payload of
//! a descriptor frame is a four-byte identifier, a one-byte field count `N`,
//! then `N` pairs of a one-byte type tag and a four-byte name id.  The
//! producer interns the table's name at the same id it assigns to the
//! descriptor, so a parsed descriptor names its table by that identifier.

use vstd::prelude::*;
use vstd::string::*;

use crate::codec::{spec_le32, spec_type_of_tag, FieldDescriptor, FieldType};
use crate::codec::le32_at;
use crate::sqltext::{
    append_dec, lemma_joined_push, spec_column_text, spec_columns, spec_create_cmd, spec_dec,
    spec_field_names, spec_insert_tail, spec_joined, spec_placeholders,
};
use crate::string_table::StringTable;
use crate::Error;

verus! {

/// A registered record schema: table name id, ordered fields, and the insert
/// statement compiled for it.  Immutable once registered.
pub struct EntryDescriptor {
    /// The compiled parameterized insert statement; starts as the bare
    /// `INSERT INTO ` prefix until [`Self::compile`] fills it in.
    pub sql_cmd: String,
    /// String-table id of the table name.
    pub name: u32,
    /// Declared field count; equals `fields.len()` for a well-formed schema.
    pub num_fields: u8,
    /// The ordered field list, at most 32 entries and never empty.
    pub fields: Vec<FieldDescriptor>,
}

impl EntryDescriptor {
    /// A schema's structural invariant: the declared count matches the field
    /// list, which holds between one and 32 fields.
    pub open spec fn wf(&self) -> bool {
        &&& self.fields@.len() == self.num_fields as int
        &&& 1 <= self.num_fields <= 32
    }

    /// True when every name this schema mentions is present in `strings`.
    pub open spec fn names_resolvable(&self, strings: Seq<Seq<char>>) -> bool {
        &&& (self.name as int) < strings.len()
        &&& forall|i: int|
            0 <= i < self.fields@.len() ==> (#[trigger] self.fields@[i]).name < strings.len()
    }

    /// A blank descriptor holding only the insert-statement prefix.
    pub fn make() -> (r: EntryDescriptor)
        ensures
            r.sql_cmd@ == "INSERT INTO "@,
            r.name == 0,
            r.num_fields == 0,
            r.fields@ == Seq::<FieldDescriptor>::empty(),
    {
        EntryDescriptor {
            sql_cmd: String::from_str("INSERT INTO "),
            name: 0,
            num_fields: 0,
            fields: Vec::new(),
        }
    }

    /// Compiles the parameterized insert statement against the current
    /// string table, appending the table name, the column list and one
    /// positional placeholder per field after the prefix.  Succeeds exactly
    /// when every mentioned name resolves; an unresolvable name is a fatal
    /// compile error and leaves the descriptor unchanged.
    pub fn compile(&mut self, strings: &StringTable) -> (r: Result<(), Error>)
        requires
            old(self).wf(),
        ensures
            r is Ok <==> old(self).names_resolvable(strings@),
            r is Ok ==> {
                &&& final(self).sql_cmd@ == old(self).sql_cmd@ + spec_insert_tail(
                    strings@[old(self).name as int],
                    old(self).fields@,
                    strings@,
                )
                &&& final(self).name == old(self).name
                &&& final(self).num_fields == old(self).num_fields
                &&& final(self).fields@ == old(self).fields@
            },
            r is Err ==> *final(self) == *old(self) && r == Err::<(), Error>(
                Error::ProtocolViolation,
            ),
    {
        let tail = self.build_insert_tail(strings)?;
        self.sql_cmd.append(tail.as_str());
        Ok(())
    }

    /// Builds everything the insert statement holds after its prefix.
    fn build_insert_tail(&self, strings: &StringTable) -> (r: Result<String, Error>)
        requires
            self.wf(),
        ensures
            r is Ok <==> self.names_resolvable(strings@),
            r matches Ok(t) ==> t@ == spec_insert_tail(
                strings@[self.name as int],
                self.fields@,
                strings@,
            ),
            r is Err ==> r == Err::<String, Error>(Error::ProtocolViolation),
    {
        let ghost names = spec_field_names(self.fields@, strings@);
        let mut tail = String::new();
        let name_s = strings.resolve(self.name)?;
        tail.append(name_s.as_str());
        tail.append(" (");
        let n = self.fields.len();
        let s0 = strings.resolve(self.fields[0].name)?;
        tail.append(s0.as_str());
        proof {
            assert(names.take(1) =~= seq![names[0]]);
            assert(spec_joined(seq![names[0]]) == names[0]);
            assert(tail@ =~= strings@[self.name as int] + " ("@ + spec_joined(names.take(1)));
        }
        for i in 1..n
            invariant
                n == self.fields@.len(),
                self.wf(),
                (self.name as int) < strings@.len(),
                forall|j: int|
                    0 <= j < i ==> (#[trigger] self.fields@[j]).name < strings@.len(),
                names == spec_field_names(self.fields@, strings@),
                tail@ == strings@[self.name as int] + " ("@ + spec_joined(names.take(i as int)),
        {
            tail.append(", ");
            let si = strings.resolve(self.fields[i].name)?;
            tail.append(si.as_str());
            proof {
                assert(names.take(i + 1) =~= names.take(i as int).push(names[i as int]));
                lemma_joined_push(names.take(i as int), names[i as int]);
                assert(tail@ =~= strings@[self.name as int] + " ("@ + spec_joined(
                    names.take(i + 1),
                ));
            }
        }
        proof {
            assert(names.take(n as int) =~= names);
        }
        tail.append(")");
        tail.append(" VALUES (");
        let ghost prefix = strings@[self.name as int] + " ("@ + spec_joined(names) + ")"@
            + " VALUES ("@;
        let ghost ph = spec_placeholders(n as int);
        tail.append("?");
        append_dec(&mut tail, 1);
        proof {
            assert(ph.take(1) =~= seq![ph[0]]);
            assert(ph[0] == "?"@ + spec_dec(1));
            assert(spec_joined(seq![ph[0]]) == ph[0]);
            assert(tail@ =~= prefix + spec_joined(ph.take(1)));
        }
        for i in 1..n
            invariant
                n == self.fields@.len(),
                self.wf(),
                ph == spec_placeholders(n as int),
                tail@ == prefix + spec_joined(ph.take(i as int)),
        {
            tail.append(", ");
            tail.append("?");
            append_dec(&mut tail, (i + 1) as u8);
            proof {
                assert(ph.take(i + 1) =~= ph.take(i as int).push(ph[i as int]));
                assert(ph[i as int] == "?"@ + spec_dec(i + 1));
                lemma_joined_push(ph.take(i as int), ph[i as int]);
                assert(tail@ =~= prefix + spec_joined(ph.take(i + 1)));
            }
        }
        tail.append(")");
        proof {
            assert(ph.take(n as int) =~= ph);
            assert(tail@ =~= spec_insert_tail(strings@[self.name as int], self.fields@, strings@));
        }
        Ok(tail)
    }

    /// Emits the CREATE TABLE statement for this schema against the current
    /// string table: the resolved table name, then each column as its
    /// resolved name and SQL type, in field order.  Succeeds exactly when
    /// every mentioned name resolves.
    pub fn make_create_cmd(&self, strings: &StringTable) -> (r: Result<String, Error>)
        requires
            self.wf(),
        ensures
            r is Ok <==> self.names_resolvable(strings@),
            r matches Ok(s) ==> s@ == spec_create_cmd(
                strings@[self.name as int],
                self.fields@,
                strings@,
            ),
            r is Err ==> r == Err::<String, Error>(Error::ProtocolViolation),
    {
        let ghost cols = spec_columns(self.fields@, strings@);
        let mut cmd = String::from_str("CREATE TABLE ");
        let name_s = strings.resolve(self.name)?;
        cmd.append(name_s.as_str());
        cmd.append(" (");
        let n = self.fields.len();
        let s0 = strings.resolve(self.fields[0].name)?;
        cmd.append(s0.as_str());
        cmd.append(" ");
        cmd.append(self.fields[0].data_type.sql_type_text());
        proof {
            assert(cols.take(1) =~= seq![cols[0]]);
            assert(cols[0] == spec_column_text(self.fields@[0], strings@));
            assert(spec_joined(seq![cols[0]]) == cols[0]);
            assert(cmd@ =~= "CREATE TABLE "@ + strings@[self.name as int] + " ("@ + spec_joined(
                cols.take(1),
            ));
        }
        for i in 1..n
            invariant
                n == self.fields@.len(),
                self.wf(),
                (self.name as int) < strings@.len(),
                forall|j: int|
                    0 <= j < i ==> (#[trigger] self.fields@[j]).name < strings@.len(),
                cols == spec_columns(self.fields@, strings@),
                cmd@ == "CREATE TABLE "@ + strings@[self.name as int] + " ("@ + spec_joined(
                    cols.take(i as int),
                ),
        {
            cmd.append(", ");
            let si = strings.resolve(self.fields[i].name)?;
            cmd.append(si.as_str());
            cmd.append(" ");
            cmd.append(self.fields[i].data_type.sql_type_text());
            proof {
                assert(cols.take(i + 1) =~= cols.take(i as int).push(cols[i as int]));
                assert(cols[i as int] == spec_column_text(self.fields@[i as int], strings@));
                lemma_joined_push(cols.take(i as int), cols[i as int]);
                assert(cmd@ =~= "CREATE TABLE "@ + strings@[self.name as int] + " ("@
                    + spec_joined(cols.take(i + 1)));
            }
        }
        cmd.append(")");
        proof {
            assert(cols.take(n as int) =~= cols);
            assert(cmd@ =~= spec_create_cmd(strings@[self.name as int], self.fields@, strings@));
        }
        Ok(cmd)
    }
}

/// Law: the insert statement compiled for a schema of `k` fields ends in
/// exactly `k` positional placeholders, and a fully buffered row decoded
/// against the same schema binds exactly `k` values, the `i`-th decoded from
/// field `i` at the combined width of the fields before it.
pub proof fn lemma_insert_round_trip(fields: Seq<FieldDescriptor>, w: Seq<u8>)
    requires
        1 <= fields.len() <= 32,
        crate::codec::spec_total_width(fields) <= w.len(),
    ensures
        crate::sqltext::spec_count_char(
            spec_joined(spec_placeholders(fields.len() as int)),
            '?',
        ) == fields.len(),
        crate::codec::spec_values_of(fields, w).len() == fields.len(),
        forall|i: int|
            0 <= i < fields.len() ==> crate::codec::spec_values_of(fields, w)[i]
                == crate::codec::spec_value_of(
                (#[trigger] fields[i]).data_type,
                w.skip(crate::codec::spec_total_width(fields.take(i))),
            ),
{
    crate::sqltext::lemma_placeholder_count(fields.len() as int);
    crate::codec::lemma_values_len(fields, w);
    assert forall|i: int| 0 <= i < fields.len() implies crate::codec::spec_values_of(fields, w)[i]
        == crate::codec::spec_value_of(
        (#[trigger] fields[i]).data_type,
        w.skip(crate::codec::spec_total_width(fields.take(i))),
    ) by {
        crate::codec::lemma_values_index(fields, w, i);
    }
}

/// The field count byte of a descriptor payload.
pub open spec fn spec_desc_count(w: Seq<u8>) -> int
    recommends
        w.len() >= 5,
{
    w[4] as int
}

/// The whole byte length of a descriptor payload: identifier, count, and
/// five bytes per declared field.
pub open spec fn spec_desc_frame_len(w: Seq<u8>) -> int
    recommends
        w.len() >= 5,
{
    5 + 5 * spec_desc_count(w)
}

/// Field `i` of a descriptor payload: a type tag and a four-byte name id.
pub open spec fn spec_desc_field(w: Seq<u8>, i: int) -> FieldDescriptor
    recommends
        w.len() >= 5,
        0 <= i < spec_desc_count(w),
        w.len() >= spec_desc_frame_len(w),
{
    FieldDescriptor {
        data_type: spec_type_of_tag(w[5 + 5 * i])->Some_0,
        name: spec_le32(w.skip(6 + 5 * i)),
    }
}

/// All fields of a descriptor payload, in wire order.
pub open spec fn spec_desc_fields(w: Seq<u8>) -> Seq<FieldDescriptor>
    recommends
        w.len() >= 5,
        w.len() >= spec_desc_frame_len(w),
{
    Seq::new(spec_desc_count(w) as nat, |i: int| spec_desc_field(w, i))
}

/// True when every type tag in the payload denotes a known field type.
pub open spec fn spec_desc_tags_ok(w: Seq<u8>) -> bool
    recommends
        w.len() >= 5,
        w.len() >= spec_desc_frame_len(w),
{
    forall|i: int|
        0 <= i < spec_desc_count(w) ==> (#[trigger] spec_type_of_tag(w[5 + 5 * i])) is Some
}

/// A complete, well-formed descriptor payload: fully buffered, with a field
/// count between one and 32 and only known type tags.
pub open spec fn spec_desc_wf(w: Seq<u8>) -> bool {
    &&& w.len() >= 5
    &&& w.len() >= spec_desc_frame_len(w)
    &&& 1 <= spec_desc_count(w) <= 32
    &&& spec_desc_tags_ok(w)
}

/// Parses one descriptor payload from the start of `w`, returning the
/// uncompiled descriptor, its wire identifier, and the count of payload
/// bytes.  A window shorter than the declared frame is `InsufficientData`;
/// a field count outside one through 32 or an unknown type tag is a
/// `MalformedFrame`, recoverable by skipping the frame.
pub fn read_descriptor(w: &[u8]) -> (r: Result<(EntryDescriptor, u32, usize), Error>)
    ensures
        r is Ok <==> spec_desc_wf(w@),
        r matches Ok(p) ==> {
            &&& p.0.name == spec_le32(w@)
            &&& p.1 == spec_le32(w@)
            &&& p.0.num_fields as int == spec_desc_count(w@)
            &&& p.0.fields@ == spec_desc_fields(w@)
            &&& p.0.sql_cmd@ == "INSERT INTO "@
            &&& p.0.wf()
            &&& p.2 == spec_desc_frame_len(w@)
        },
        r == Err::<(EntryDescriptor, u32, usize), Error>(Error::InsufficientData) <==> (w@.len() < 5
            || w@.len() < spec_desc_frame_len(w@)),
        r == Err::<(EntryDescriptor, u32, usize), Error>(Error::MalformedFrame) <==> (w@.len() >= 5
            && w@.len() >= spec_desc_frame_len(w@) && !(1 <= spec_desc_count(w@) <= 32
            && spec_desc_tags_ok(w@))),
    {
    if w.len() < 5 {
        return Err(Error::InsufficientData);
    }
    let n = w[4] as usize;
    let need = 5 + 5 * n;
    if w.len() < need {
        return Err(Error::InsufficientData);
    }
    if n < 1 || n > 32 {
        return Err(Error::MalformedFrame);
    }
    let uid = le32_at(w, 0);
    proof {
        assert(w@.skip(0) =~= w@);
    }
    let mut fields: Vec<FieldDescriptor> = Vec::new();
    for i in 0..n
        invariant
            n == spec_desc_count(w@),
            need == spec_desc_frame_len(w@),
            w@.len() >= need,
            1 <= n <= 32,
            forall|j: int| 0 <= j < i ==> (#[trigger] spec_type_of_tag(w@[5 + 5 * j])) is Some,
            fields@ == spec_desc_fields(w@).take(i as int),
    {
        let tag = w[5 + 5 * i];
        let t = match FieldType::from_tag(tag) {
            Ok(t) => t,
            Err(e) => {
                return Err(e);
            },
        };
        let name = le32_at(w, 6 + 5 * i);
        fields.push(FieldDescriptor { data_type: t, name });
        proof {
            assert(spec_desc_field(w@, i as int).data_type == t);
            assert(spec_desc_field(w@, i as int).name == name);
            assert(spec_desc_fields(w@).take(i as int + 1) =~= spec_desc_fields(w@).take(
                i as int,
            ).push(spec_desc_field(w@, i as int)));
        }
    }
    proof {
        assert(spec_desc_fields(w@).take(n as int) =~= spec_desc_fields(w@));
    }
    let desc = EntryDescriptor {
        sql_cmd: String::from_str("INSERT INTO "),
        name: uid,
        num_fields: n as u8,
        fields,
    };
    Ok((desc, uid, need))
}

} // verus!
