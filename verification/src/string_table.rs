//! String table: an append-only, sequentially-indexed dictionary from a
//! numeric id to an interned name.
//!
//! Identifiers are producer-assigned, zero-based and gap-free: an id is
//! accepted only when it equals the current length, so a resolved name is
//! stable forever once it has been looked up.

use vstd::prelude::*;

use crate::Error;

verus! {

/// The append-only id-to-name dictionary.
pub struct StringTable {
    items: Vec<String>,
}

impl StringTable {
    /// The interned names in id order.
    pub closed spec fn view(&self) -> Seq<Seq<char>> {
        self.items.deep_view()
    }

    /// An empty table; a new connection starts with no strings.
    pub fn new() -> (r: StringTable)
        ensures
            r@ == Seq::<Seq<char>>::empty(),
    {
        StringTable { items: Vec::new() }
    }

    /// The count of interned names, which is also the next acceptable id.
    pub fn len(&self) -> (r: usize)
        ensures
            r == self@.len(),
    {
        self.items.len()
    }

    /// Interns `text` at `uid`.  Succeeds exactly when `uid` equals the
    /// current length; any other id is an out-of-sequence protocol
    /// violation, and the table is left unchanged.
    pub fn intern(&mut self, uid: u32, text: String) -> (r: Result<(), Error>)
        ensures
            r is Ok <==> uid == old(self)@.len(),
            r is Ok ==> final(self)@ == old(self)@.push(text@),
            r is Err ==> final(self)@ == old(self)@ && r == Err::<(), Error>(
                Error::ProtocolViolation,
            ),
    {
        if uid as usize != self.items.len() {
            return Err(Error::ProtocolViolation);
        }
        let ghost pre = self.items.deep_view();
        self.items.push(text);
        proof {
            assert(self.items.deep_view() =~= pre.push(text@));
        }
        Ok(())
    }

    /// Resolves `uid` to its interned name.  Succeeds exactly when `uid` is
    /// below the current length; an unknown id is a protocol violation.
    pub fn resolve(&self, uid: u32) -> (r: Result<&String, Error>)
        ensures
            r is Ok <==> uid < self@.len(),
            r matches Ok(s) ==> s@ == self@[uid as int],
            r is Err ==> r == Err::<&String, Error>(Error::ProtocolViolation),
    {
        if (uid as usize) < self.items.len() {
            Ok(&self.items[uid as usize])
        } else {
            Err(Error::ProtocolViolation)
        }
    }
}

/// Relies on `core::str::from_utf8`: it returns `Ok` exactly when the bytes
/// are valid UTF-8, and then borrows them as the text they encode.
#[verifier::external_body]
pub fn utf8_to_string(bytes: &[u8]) -> (r: Option<String>)
    ensures
        r is Some <==> vstd::utf8::valid_utf8(bytes@),
        r matches Some(s) ==> s@ == vstd::utf8::decode_utf8(bytes@),
{
    match core::str::from_utf8(bytes) {
        Ok(s) => Some(s.to_owned()),
        Err(_) => None,
    }
}

} // verus!
