//! The name of the entity.

use vstd::prelude::*;
use vstd::string::StringSliceAdditionalSpecFns;
use vstd::utf8::encode_utf8;

use crate::text::clipped;

verus! {

pub const NAME_CAP: usize = 32;

/// A name of up to `NAME_CAP` bytes. Its view is those bytes.
pub struct EntityName {
    bytes: [u8; NAME_CAP],
    len: usize,
}

impl View for EntityName {
    type V = Seq<u8>;

    closed spec fn view(&self) -> Seq<u8> {
        self.bytes@.take(self.len as int)
    }
}

impl EntityName {
    /// The name fits, and nothing stands behind it.
    pub closed spec fn wf(&self) -> bool {
        &&& self.len <= NAME_CAP
        &&& forall|i: int| self.len <= i < NAME_CAP ==> self.bytes@[i] == 0
    }

    pub fn empty() -> (name: EntityName)
        ensures
            name.wf(),
            name@ == Seq::<u8>::empty(),
    {
        EntityName { bytes: [0u8; NAME_CAP], len: 0 }
    }

    /// The name that `bytes` gives: its first `NAME_CAP` bytes.
    pub fn from_bytes(bytes: &[u8]) -> (name: EntityName)
        ensures
            name.wf(),
            name@ == clipped(bytes@, NAME_CAP as nat),
    {
        let len: usize = if bytes.len() < NAME_CAP { bytes.len() } else { NAME_CAP };
        let mut name = EntityName { bytes: [0u8; NAME_CAP], len };
        let mut i: usize = 0;
        while i < len
            invariant
                i <= len <= NAME_CAP,
                len <= bytes@.len(),
                name.len == len,
                forall|j: int| 0 <= j < i ==> name.bytes@[j] == bytes@[j],
                forall|j: int| len <= j < NAME_CAP ==> name.bytes@[j] == 0,
            decreases len - i,
        {
            name.bytes[i] = bytes[i];
            i = i + 1;
        }
        assert(name@ =~= clipped(bytes@, NAME_CAP as nat));
        name
    }

    /// The name that `text` gives: the first `NAME_CAP` bytes of its UTF-8
    /// form, which may end in the middle of a character.
    pub fn from_text(text: &str) -> (name: EntityName)
        ensures
            name.wf(),
            name@ == clipped(encode_utf8(text@), NAME_CAP as nat),
    {
        EntityName::from_bytes(text.as_bytes())
    }

    pub fn len(&self) -> (n: usize)
        requires
            self.wf(),
        ensures
            n == self@.len(),
    {
        self.len
    }

    pub fn as_bytes(&self) -> (b: &[u8])
        requires
            self.wf(),
        ensures
            b@ == self@,
    {
        vstd::slice::slice_subrange(self.bytes.as_slice(), 0, self.len)
    }

    /// The name with zeroes behind it.
    pub open spec fn spec_padded(name: Seq<u8>) -> Seq<u8> {
        Seq::new(NAME_CAP as nat, |i: int| if i < name.len() { name[i] } else { 0u8 })
    }

    pub fn padded(&self) -> (b: [u8; NAME_CAP])
        requires
            self.wf(),
        ensures
            b@ == EntityName::spec_padded(self@),
    {
        assert(self.bytes@ =~= EntityName::spec_padded(self@));
        self.bytes
    }
}

/// In an image a name is followed by zeroes up to its capacity.
pub proof fn law_name_is_padded(name: Seq<u8>, i: int)
    requires
        0 <= i < 32,
    ensures
        EntityName::spec_padded(name).len() == 32,
        i < name.len() ==> EntityName::spec_padded(name)[i] == name[i],
        i >= name.len() ==> EntityName::spec_padded(name)[i] == 0,
{
}

} // verus!
