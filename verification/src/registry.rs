//! Descriptor registry: an append-only, sequentially-indexed collection of
//! compiled record schemas.
//!
//! Identifiers are producer-assigned and must arrive strictly in order: a
//! registration is accepted only at the registry's current length, so no
//! descriptor can ever be inserted at an already-used or skipped index.

use vstd::prelude::*;

use crate::descriptor::{
    spec_desc_count, spec_desc_field, spec_desc_fields, spec_desc_wf, EntryDescriptor,
};
use crate::sqltext::spec_field_names;
use crate::Error;

verus! {

/// The append-only schema collection, indexed by wire identifier.
pub struct Registry {
    items: Vec<EntryDescriptor>,
}

impl Registry {
    /// The registered descriptors in identifier order.
    pub closed spec fn view(&self) -> Seq<EntryDescriptor> {
        self.items@
    }

    /// An empty registry; a new connection starts with no schemas.
    pub fn new() -> (r: Registry)
        ensures
            r@ == Seq::<EntryDescriptor>::empty(),
    {
        Registry { items: Vec::new() }
    }

    /// The count of registered schemas, which is also the next acceptable
    /// identifier.
    pub fn len(&self) -> (r: usize)
        ensures
            r == self@.len(),
    {
        self.items.len()
    }

    /// Registers `desc` at `uid`.  Succeeds exactly when `uid` equals the
    /// current length; any other identifier is a protocol violation, and the
    /// registry is left unchanged.
    pub fn register(&mut self, uid: u32, desc: EntryDescriptor) -> (r: Result<(), Error>)
        ensures
            r is Ok <==> uid == old(self)@.len(),
            r is Ok ==> final(self)@ == old(self)@.push(desc),
            r is Err ==> final(self)@ == old(self)@ && r == Err::<(), Error>(
                Error::ProtocolViolation,
            ),
    {
        if uid as usize != self.items.len() {
            return Err(Error::ProtocolViolation);
        }
        self.items.push(desc);
        Ok(())
    }

    /// Looks up the schema registered at `uid`.  Succeeds exactly when `uid`
    /// is below the current length; a reference to an identifier that was
    /// never registered is a protocol violation.  The returned reference is
    /// read-only: lookups never mutate a registered schema.
    pub fn get(&self, uid: u32) -> (r: Result<&EntryDescriptor, Error>)
        ensures
            r is Ok <==> uid < self@.len(),
            r matches Ok(d) ==> *d == self@[uid as int],
            r is Err ==> r == Err::<&EntryDescriptor, Error>(Error::ProtocolViolation),
    {
        if (uid as usize) < self.items.len() {
            Ok(&self.items[uid as usize])
        } else {
            Err(Error::ProtocolViolation)
        }
    }
}

/// Law: registering a descriptor parsed from a valid payload at the next
/// free identifier and looking that identifier up returns the very same
/// descriptor, whose field count, field order and resolved names are exactly
/// those of the payload.
pub proof fn lemma_register_then_get(
    w: Seq<u8>,
    regs: Seq<EntryDescriptor>,
    d: EntryDescriptor,
    uid: u32,
    strings: Seq<Seq<char>>,
)
    requires
        spec_desc_wf(w),
        d.fields@ == spec_desc_fields(w),
        uid as int == regs.len(),
    ensures
        regs.push(d)[uid as int] == d,
        d.fields@.len() == spec_desc_count(w),
        forall|i: int|
            0 <= i < spec_desc_count(w) ==> (#[trigger] d.fields@[i]) == spec_desc_field(w, i),
        spec_field_names(d.fields@, strings) == Seq::new(
            spec_desc_count(w) as nat,
            |i: int| strings[spec_desc_field(w, i).name as int],
        ),
{
    assert(spec_field_names(d.fields@, strings) =~= Seq::new(
        spec_desc_count(w) as nat,
        |i: int| strings[spec_desc_field(w, i).name as int],
    ));
}

} // verus!
