//! Session state machine: drives the reassembler, recognizes frames, and
//! dispatches them to the string table, the descriptor registry and the wire
//! codec.
//!
//! Each [`Session::step`] call makes at most one unit of progress on the
//! buffered window and reports what the caller must do next: supply more
//! bytes, call again, or carry out one storage action.  The caller owns the
//! transport and the storage sink; a fatal error ends the session.

use vstd::prelude::*;

use crate::codec::{
    decode_value, le32_at, lemma_total_width_bound, lemma_total_width_snoc,
    lemma_total_width_split, lemma_values_snoc, spec_le32, spec_total_width, spec_values_of,
    FieldDescriptor, FieldValue,
};
use crate::descriptor::{
    read_descriptor, spec_desc_count, spec_desc_fields, spec_desc_frame_len, spec_desc_tags_ok,
    spec_desc_wf, EntryDescriptor,
};
use crate::reassembler::{Reassembler, BUF_CAPACITY};
use crate::registry::Registry;
use crate::sqltext::{spec_create_cmd, spec_insert_tail};
use crate::string_table::{utf8_to_string, StringTable};
use crate::{Error, PROTOCOL};

verus! {

/// The message kinds a frame header may announce.
#[derive(Clone, Copy, Debug, PartialEq, Eq, Structural)]
pub enum MsgType {
    /// An unrecognized tag; the frame is skipped as a no-op.
    Invalid,
    /// A string-table entry.
    Str,
    /// A data row against a registered descriptor.
    Entry,
    /// A schema announcement.
    Desc,
}

/// The message kind a header tag byte denotes: 1 is `Str`, 2 is `Entry`,
/// 3 is `Desc`, anything else `Invalid`.
pub open spec fn spec_msg_type(t: u8) -> MsgType {
    if t == 1 {
        MsgType::Str
    } else if t == 2 {
        MsgType::Entry
    } else if t == 3 {
        MsgType::Desc
    } else {
        MsgType::Invalid
    }
}

impl core::convert::From<u8> for MsgType {
    fn from(t: u8) -> (r: MsgType) {
        match t {
            1 => MsgType::Str,
            2 => MsgType::Entry,
            3 => MsgType::Desc,
            _ => MsgType::Invalid,
        }
    }
}

impl vstd::std_specs::convert::FromSpecImpl<u8> for MsgType {
    open spec fn obeys_from_spec() -> bool {
        true
    }

    open spec fn from_spec(t: u8) -> MsgType {
        spec_msg_type(t)
    }
}

/// The decoder's parsing states.  Dispatch from a header leads to one of the
/// payload states; a completed or skipped frame leads back to the header.
#[derive(Clone, Copy, Debug, PartialEq, Eq, Structural)]
pub enum State {
    HeaderParsing,
    DescriptorParsing,
    EntryParsing,
    StringParsing,
}

/// What the caller must do after a step.
#[derive(Debug)]
pub enum Action {
    /// The buffered window cannot complete the current frame; supply more
    /// bytes and step again.
    NeedBytes,
    /// A byte or frame was consumed without producing a storage action;
    /// step again.
    Progress,
    /// Run this CREATE TABLE statement against the storage sink.
    EnsureTable(String),
    /// Bind these values, in order, to this parameterized insert statement
    /// and run it against the storage sink.
    InsertRow(String, Vec<FieldValue>),
}

/// The parsing state a header tag byte dispatches to.
pub open spec fn spec_state_of_tag(t: u8) -> State {
    match spec_msg_type(t) {
        MsgType::Str => State::StringParsing,
        MsgType::Entry => State::EntryParsing,
        MsgType::Desc => State::DescriptorParsing,
        MsgType::Invalid => State::HeaderParsing,
    }
}

/// The declared byte length of a string payload.
pub open spec fn spec_str_len(w: Seq<u8>) -> int
    recommends
        w.len() >= 8,
{
    spec_le32(w.skip(4)) as int
}

/// The text bytes of a string payload.
pub open spec fn spec_str_bytes(w: Seq<u8>) -> Seq<u8>
    recommends
        w.len() >= 8 + spec_str_len(w),
{
    w.subrange(8, 8 + spec_str_len(w))
}

/// A session's observable state: parsing state, buffered window, interned
/// strings and registered schemas.
pub ghost struct SessionModel {
    pub state: State,
    pub window: Seq<u8>,
    pub strings: Seq<Seq<char>>,
    pub registry: Seq<EntryDescriptor>,
}

/// True when `post` extends `pre` by one registered schema with the given
/// name id and fields, compiled against `strings`.
pub open spec fn spec_registered(
    post: Seq<EntryDescriptor>,
    pre: Seq<EntryDescriptor>,
    name: u32,
    fields: Seq<FieldDescriptor>,
    strings: Seq<Seq<char>>,
) -> bool {
    &&& post.len() == pre.len() + 1
    &&& post.take(pre.len() as int) == pre
    &&& post.last().name == name
    &&& post.last().num_fields as int == fields.len()
    &&& post.last().fields@ == fields
    &&& post.last().sql_cmd@ == "INSERT INTO "@ + spec_insert_tail(
        strings[name as int],
        fields,
        strings,
    )
}

/// True when the descriptor payload's name ids all resolve in `strings`:
/// the table name (interned at the descriptor's own identifier) and every
/// field name.
pub open spec fn spec_desc_resolvable(w: Seq<u8>, strings: Seq<Seq<char>>) -> bool
    recommends
        spec_desc_wf(w),
{
    &&& (spec_le32(w) as int) < strings.len()
    &&& forall|i: int|
        0 <= i < spec_desc_count(w) ==> (#[trigger] spec_desc_fields(w)[i]).name < strings.len()
}

/// One step from the header state: await five bytes, skip one byte on a
/// magic mismatch, otherwise consume the header and dispatch on its tag.
pub open spec fn spec_step_header(pre: SessionModel, post: SessionModel, r: Result<
    Action,
    Error,
>) -> bool {
    let w = pre.window;
    if w.len() < 5 {
        post == pre && r == Ok::<Action, Error>(Action::NeedBytes)
    } else if spec_le32(w) != PROTOCOL {
        &&& post.state == State::HeaderParsing
        &&& post.window == w.skip(1)
        &&& post.strings == pre.strings
        &&& post.registry == pre.registry
        &&& r == Ok::<Action, Error>(Action::Progress)
    } else {
        &&& post.state == spec_state_of_tag(w[4])
        &&& post.window == w.skip(5)
        &&& post.strings == pre.strings
        &&& post.registry == pre.registry
        &&& r == Ok::<Action, Error>(Action::Progress)
    }
}

/// One step from the descriptor state: await the full frame, skip a
/// malformed one, fail fatally on an unresolvable name or an out-of-order
/// identifier, and otherwise register the compiled schema and hand back its
/// CREATE TABLE text.
pub open spec fn spec_step_desc(pre: SessionModel, post: SessionModel, r: Result<
    Action,
    Error,
>) -> bool {
    let w = pre.window;
    if w.len() < 5 || w.len() < spec_desc_frame_len(w) {
        post == pre && r == Ok::<Action, Error>(Action::NeedBytes)
    } else if !(1 <= spec_desc_count(w) <= 32 && spec_desc_tags_ok(w)) {
        &&& post.state == State::HeaderParsing
        &&& post.window == w.skip(spec_desc_frame_len(w))
        &&& post.strings == pre.strings
        &&& post.registry == pre.registry
        &&& r == Ok::<Action, Error>(Action::Progress)
    } else if !(spec_desc_resolvable(w, pre.strings) && spec_le32(w) as int
        == pre.registry.len()) {
        post == pre && r == Err::<Action, Error>(Error::ProtocolViolation)
    } else {
        &&& post.state == State::HeaderParsing
        &&& post.window == w.skip(spec_desc_frame_len(w))
        &&& post.strings == pre.strings
        &&& spec_registered(
            post.registry,
            pre.registry,
            spec_le32(w),
            spec_desc_fields(w),
            pre.strings,
        )
        &&& r matches Ok(a) && a matches Action::EnsureTable(s) && s@ == spec_create_cmd(
            pre.strings[spec_le32(w) as int],
            spec_desc_fields(w),
            pre.strings,
        )
    }
}

/// One step from the entry state: await the identifier, fail fatally on a
/// reference to an unregistered schema, await the whole row, and otherwise
/// decode every field in order and hand back the bound insert.
pub open spec fn spec_step_entry(pre: SessionModel, post: SessionModel, r: Result<
    Action,
    Error,
>) -> bool {
    let w = pre.window;
    if w.len() < 4 {
        post == pre && r == Ok::<Action, Error>(Action::NeedBytes)
    } else if spec_le32(w) as int >= pre.registry.len() {
        post == pre && r == Err::<Action, Error>(Error::ProtocolViolation)
    } else {
        let d = pre.registry[spec_le32(w) as int];
        let needed = 4 + spec_total_width(d.fields@);
        if w.len() < needed {
            post == pre && r == Ok::<Action, Error>(Action::NeedBytes)
        } else {
            &&& post.state == State::HeaderParsing
            &&& post.window == w.skip(needed)
            &&& post.strings == pre.strings
            &&& post.registry == pre.registry
            &&& r matches Ok(a) && a matches Action::InsertRow(stmt, vals) && stmt@ == d.sql_cmd@
                && vals@ == spec_values_of(d.fields@, w.skip(4))
        }
    }
}

/// One step from the string state: await the identifier and length, fail
/// fatally on a payload that can never fit or an out-of-order identifier,
/// await the text, skip a frame whose text is not UTF-8, and otherwise
/// intern the text.
pub open spec fn spec_step_string(pre: SessionModel, post: SessionModel, r: Result<
    Action,
    Error,
>) -> bool {
    let w = pre.window;
    if w.len() < 8 {
        post == pre && r == Ok::<Action, Error>(Action::NeedBytes)
    } else if 8 + spec_str_len(w) > BUF_CAPACITY as int {
        post == pre && r == Err::<Action, Error>(Error::FrameTooLarge)
    } else if w.len() < 8 + spec_str_len(w) {
        post == pre && r == Ok::<Action, Error>(Action::NeedBytes)
    } else if spec_le32(w) as int != pre.strings.len() {
        post == pre && r == Err::<Action, Error>(Error::ProtocolViolation)
    } else if !vstd::utf8::valid_utf8(spec_str_bytes(w)) {
        &&& post.state == State::HeaderParsing
        &&& post.window == w.skip(8 + spec_str_len(w))
        &&& post.strings == pre.strings
        &&& post.registry == pre.registry
        &&& r == Ok::<Action, Error>(Action::Progress)
    } else {
        &&& post.state == State::HeaderParsing
        &&& post.window == w.skip(8 + spec_str_len(w))
        &&& post.strings == pre.strings.push(vstd::utf8::decode_utf8(spec_str_bytes(w)))
        &&& post.registry == pre.registry
        &&& r == Ok::<Action, Error>(Action::Progress)
    }
}

/// Law: resynchronization is minimal.  From the header state, a window
/// whose first byte is not the magic's first byte loses exactly that one
/// byte in one step: the tables are untouched and everything after the
/// corrupted byte, a valid frame included, stays buffered for decoding.
pub proof fn lemma_resync_skips_one_byte(
    pre: SessionModel,
    post: SessionModel,
    r: Result<Action, Error>,
)
    requires
        pre.state == State::HeaderParsing,
        pre.window.len() >= 5,
        pre.window[0] != 0xEF,
        spec_step_header(pre, post, r),
    ensures
        post.state == State::HeaderParsing,
        post.window == pre.window.skip(1),
        post.strings == pre.strings,
        post.registry == pre.registry,
        r == Ok::<Action, Error>(Action::Progress),
{
    let w = pre.window;
    let v = w[0] + w[1] * 0x100 + w[2] * 0x1_0000 + w[3] * 0x100_0000;
    assert(0 <= v <= 0xFFFF_FFFF);
    assert(spec_le32(w) == v as u32);
    assert(v != 0xFEED_BEEF);
}

/// What one step does, by the state it starts from.
pub open spec fn spec_step(pre: SessionModel, post: SessionModel, r: Result<Action, Error>) -> bool {
    match pre.state {
        State::HeaderParsing => spec_step_header(pre, post, r),
        State::DescriptorParsing => spec_step_desc(pre, post, r),
        State::EntryParsing => spec_step_entry(pre, post, r),
        State::StringParsing => spec_step_string(pre, post, r),
    }
}

/// One decoding session: the parsing state, the reassembly buffer, and the
/// two append-only tables.  Created once per connection; no state crosses
/// connections.
pub struct Session {
    state: State,
    reassembler: Reassembler,
    strings: StringTable,
    registry: Registry,
}

impl Session {
    /// The session's observable state.
    pub closed spec fn model(&self) -> SessionModel {
        SessionModel {
            state: self.state,
            window: self.reassembler@,
            strings: self.strings@,
            registry: self.registry@,
        }
    }

    /// A fresh session: header state, empty window, both tables empty.
    pub fn new() -> (r: Session)
        ensures
            r.model() == (SessionModel {
                state: State::HeaderParsing,
                window: Seq::<u8>::empty(),
                strings: Seq::<Seq<char>>::empty(),
                registry: Seq::<EntryDescriptor>::empty(),
            }),
    {
        Session {
            state: State::HeaderParsing,
            reassembler: Reassembler::new(),
            strings: StringTable::new(),
            registry: Registry::new(),
        }
    }

    /// The current parsing state.
    pub fn current_state(&self) -> (r: State)
        ensures
            r == self.model().state,
    {
        self.state
    }

    /// The count of buffered, unconsumed bytes.
    pub fn window_len(&self) -> (r: usize)
        ensures
            r == self.model().window.len(),
    {
        self.reassembler.len()
    }

    /// The count of interned strings.
    pub fn strings_len(&self) -> (r: usize)
        ensures
            r == self.model().strings.len(),
    {
        self.strings.len()
    }

    /// The count of registered schemas.
    pub fn registry_len(&self) -> (r: usize)
        ensures
            r == self.model().registry.len(),
    {
        self.registry.len()
    }

    /// Buffers freshly read transport bytes behind the window.  Succeeds
    /// exactly when the window and the new bytes together fit the buffer
    /// capacity; on failure nothing changes.
    pub fn feed(&mut self, data: &[u8]) -> (r: Result<(), Error>)
        ensures
            r is Ok <==> old(self).model().window.len() + data@.len() <= BUF_CAPACITY,
            r is Ok ==> final(self).model() == (SessionModel {
                window: old(self).model().window + data@,
                ..old(self).model()
            }),
            r is Err ==> final(self).model() == old(self).model() && r == Err::<(), Error>(
                Error::FrameTooLarge,
            ),
    {
        self.reassembler.feed(data)
    }

    /// Interns `text` at `uid`, as a string frame would.  Succeeds exactly
    /// when `uid` is the next free string identifier.
    pub fn intern_string(&mut self, uid: u32, text: String) -> (r: Result<(), Error>)
        ensures
            r is Ok <==> uid == old(self).model().strings.len(),
            r is Ok ==> final(self).model() == (SessionModel {
                strings: old(self).model().strings.push(text@),
                ..old(self).model()
            }),
            r is Err ==> final(self).model() == old(self).model() && r == Err::<(), Error>(
                Error::ProtocolViolation,
            ),
    {
        self.strings.intern(uid, text)
    }

    /// Compiles `desc` against the current string table, registers it at
    /// `uid`, and returns its CREATE TABLE text.  Succeeds exactly when
    /// every mentioned name resolves and `uid` is the next free identifier;
    /// on failure nothing changes.  Parsing state and window are untouched.
    fn finish_registration(&mut self, desc: EntryDescriptor, uid: u32) -> (r: Result<
        String,
        Error,
    >)
        requires
            desc.wf(),
            desc.sql_cmd@ == "INSERT INTO "@,
        ensures
            r is Ok <==> (desc.names_resolvable(old(self).model().strings) && uid == old(
                self,
            ).model().registry.len()),
            r matches Ok(s) ==> {
                &&& s@ == spec_create_cmd(
                    old(self).model().strings[desc.name as int],
                    desc.fields@,
                    old(self).model().strings,
                )
                &&& spec_registered(
                    final(self).model().registry,
                    old(self).model().registry,
                    desc.name,
                    desc.fields@,
                    old(self).model().strings,
                )
            },
            r is Err ==> final(self).model() == old(self).model() && r == Err::<String, Error>(
                Error::ProtocolViolation,
            ),
            final(self).model().state == old(self).model().state,
            final(self).model().window == old(self).model().window,
            final(self).model().strings == old(self).model().strings,
    {
        let mut desc = desc;
        match desc.compile(&self.strings) {
            Ok(()) => (),
            Err(e) => {
                return Err(e);
            },
        }
        let create = match desc.make_create_cmd(&self.strings) {
            Ok(s) => s,
            Err(_) => {
                proof {
                    assert(false);
                }
                unreached()
            },
        };
        let ghost regs0 = self.registry@;
        match self.registry.register(uid, desc) {
            Ok(()) => (),
            Err(e) => {
                return Err(e);
            },
        }
        proof {
            assert(self.registry@.take(regs0.len() as int) =~= regs0);
        }
        Ok(create)
    }

    /// Registers a schema built from plain values, as a descriptor frame
    /// would: the table name id, and the ordered field list.  Returns the
    /// compiled CREATE TABLE text on success.
    pub fn register_descriptor(&mut self, uid: u32, name: u32, fields: Vec<FieldDescriptor>) -> (r:
        Result<String, Error>)
        requires
            1 <= fields@.len() <= 32,
        ensures
            ({
                let strs = old(self).model().strings;
                let regs = old(self).model().registry;
                &&& r is Ok <==> ((name as int) < strs.len() && (forall|i: int|
                    0 <= i < fields@.len() ==> (#[trigger] fields@[i]).name < strs.len()) && uid
                    == regs.len())
                &&& r matches Ok(s) ==> {
                    &&& s@ == spec_create_cmd(strs[name as int], fields@, strs)
                    &&& spec_registered(final(self).model().registry, regs, name, fields@, strs)
                }
                &&& r is Err ==> final(self).model() == old(self).model() && r == Err::<
                    String,
                    Error,
                >(Error::ProtocolViolation)
                &&& final(self).model().state == old(self).model().state
                &&& final(self).model().window == old(self).model().window
                &&& final(self).model().strings == old(self).model().strings
            }),
    {
        let num_fields = fields.len() as u8;
        let desc = EntryDescriptor {
            sql_cmd: String::from_str("INSERT INTO "),
            name,
            num_fields,
            fields,
        };
        self.finish_registration(desc, uid)
    }

    /// One step from the header state.
    fn step_header(&mut self) -> (r: Result<Action, Error>)
        requires
            old(self).model().state == State::HeaderParsing,
        ensures
            spec_step_header(old(self).model(), final(self).model(), r),
    {
        let len = self.reassembler.len();
        if len < 5 {
            return Ok(Action::NeedBytes);
        }
        let w = self.reassembler.window_slice();
        let magic = le32_at(w, 0);
        let tag = w[4];
        proof {
            assert(w@.skip(0) =~= w@);
        }
        if magic != PROTOCOL {
            self.reassembler.advance(1);
            return Ok(Action::Progress);
        }
        self.state = match MsgType::from(tag) {
            MsgType::Str => State::StringParsing,
            MsgType::Entry => State::EntryParsing,
            MsgType::Desc => State::DescriptorParsing,
            MsgType::Invalid => State::HeaderParsing,
        };
        self.reassembler.advance(5);
        Ok(Action::Progress)
    }

    /// One step from the descriptor state.
    fn step_desc(&mut self) -> (r: Result<Action, Error>)
        requires
            old(self).model().state == State::DescriptorParsing,
        ensures
            spec_step_desc(old(self).model(), final(self).model(), r),
    {
        let w = self.reassembler.window_slice();
        match read_descriptor(w) {
            Err(Error::InsufficientData) => Ok(Action::NeedBytes),
            Err(_) => {
                let n = w[4] as usize;
                let need = 5 + 5 * n;
                self.reassembler.advance(need);
                self.state = State::HeaderParsing;
                Ok(Action::Progress)
            },
            Ok((desc, uid, used)) => {
                let create = match self.finish_registration(desc, uid) {
                    Ok(s) => s,
                    Err(e) => {
                        return Err(e);
                    },
                };
                self.reassembler.advance(used);
                self.state = State::HeaderParsing;
                Ok(Action::EnsureTable(create))
            },
        }
    }

    /// One step from the entry state.
    fn step_entry(&mut self) -> (r: Result<Action, Error>)
        requires
            old(self).model().state == State::EntryParsing,
        ensures
            spec_step_entry(old(self).model(), final(self).model(), r),
    {
        let len = self.reassembler.len();
        if len < 4 {
            return Ok(Action::NeedBytes);
        }
        let w = self.reassembler.window_slice();
        let uid = le32_at(w, 0);
        proof {
            assert(w@.skip(0) =~= w@);
        }
        let desc = match self.registry.get(uid) {
            Ok(d) => d,
            Err(e) => {
                return Err(e);
            },
        };
        let ghost fs = desc.fields@;
        let nf = desc.fields.len();
        let mut vals: Vec<FieldValue> = Vec::new();
        let mut at: usize = 4;
        for i in 0..nf
            invariant
                fs == desc.fields@,
                nf == fs.len(),
                uid == spec_le32(w@),
                (uid as int) < old(self).model().registry.len(),
                *desc == old(self).model().registry[uid as int],
                w@ == old(self).model().window,
                w@.len() >= 4,
                at == 4 + spec_total_width(fs.take(i as int)),
                4 <= at <= w@.len(),
                vals@ == spec_values_of(fs.take(i as int), w@.skip(4)),
        {
            let f = desc.fields[i];
            match decode_value(f.data_type, w, at) {
                Err(_) => {
                    proof {
                        lemma_total_width_split(fs, i as int);
                        assert(fs.skip(i as int)[0] == fs[i as int]);
                        assert(spec_total_width(fs.skip(i as int)) == crate::codec::spec_width_of(
                            fs[i as int].data_type,
                        ) + spec_total_width(fs.skip(i as int).drop_first()));
                        lemma_total_width_bound(fs.skip(i as int).drop_first());
                    }
                    return Ok(Action::NeedBytes);
                },
                Ok((v, used)) => {
                    vals.push(v);
                    proof {
                        vstd::slice::axiom_spec_len::<u8>(w);
                        lemma_total_width_bound(fs.take(i as int));
                        lemma_total_width_snoc(fs, i as int);
                        lemma_values_snoc(fs, w@.skip(4), i as int);
                        assert(w@.skip(4).skip(spec_total_width(fs.take(i as int))) =~= w@.skip(
                            at as int,
                        ));
                    }
                    at = at + used;
                },
            }
        }
        proof {
            assert(fs.take(nf as int) =~= fs);
        }
        let stmt = desc.sql_cmd.clone();
        self.reassembler.advance(at);
        self.state = State::HeaderParsing;
        Ok(Action::InsertRow(stmt, vals))
    }

    /// One step from the string state.
    fn step_string(&mut self) -> (r: Result<Action, Error>)
        requires
            old(self).model().state == State::StringParsing,
        ensures
            spec_step_string(old(self).model(), final(self).model(), r),
    {
        let len = self.reassembler.len();
        if len < 8 {
            return Ok(Action::NeedBytes);
        }
        let w = self.reassembler.window_slice();
        let uid = le32_at(w, 0);
        let sz32 = le32_at(w, 4);
        proof {
            assert(w@.skip(0) =~= w@);
        }
        if sz32 > (BUF_CAPACITY - 8) as u32 {
            return Err(Error::FrameTooLarge);
        }
        let sz = sz32 as usize;
        if len < 8 + sz {
            return Ok(Action::NeedBytes);
        }
        if uid as usize != self.strings.len() {
            return Err(Error::ProtocolViolation);
        }
        let bytes = vstd::slice::slice_subrange(w, 8, 8 + sz);
        match utf8_to_string(bytes) {
            None => {
                self.reassembler.advance(8 + sz);
                self.state = State::HeaderParsing;
                Ok(Action::Progress)
            },
            Some(s) => {
                match self.strings.intern(uid, s) {
                    Ok(()) => (),
                    Err(_) => {
                        proof {
                            assert(false);
                        }
                        unreached()
                    },
                }
                self.reassembler.advance(8 + sz);
                self.state = State::HeaderParsing;
                Ok(Action::Progress)
            },
        }
    }

    /// Makes one unit of progress on the buffered window: consumes at most
    /// one frame (or one byte, when resynchronizing) and reports what the
    /// caller must do next.  "Not enough bytes yet" is never an error but
    /// the `NeedBytes` action; a returned `Err` is fatal for the session.
    pub fn step(&mut self) -> (r: Result<Action, Error>)
        ensures
            spec_step(old(self).model(), final(self).model(), r),
    {
        match self.state {
            State::HeaderParsing => self.step_header(),
            State::DescriptorParsing => self.step_desc(),
            State::EntryParsing => self.step_entry(),
            State::StringParsing => self.step_string(),
        }
    }
}

} // verus!
