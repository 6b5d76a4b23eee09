//! File paths as the bytes that the operating system knows them by.

use crate::outside::{decode_lossy, utf8_lossy};
use vstd::prelude::*;
use vstd::string::StrSliceExecFns;
use vstd::utf8::{decode_utf8, encode_utf8, valid_utf8};

verus! {

/// A file path. Its bytes need not be valid UTF-8.
#[derive(Debug, PartialEq, Eq)]
pub struct FilePath {
    pub bytes: Vec<u8>,
}

impl View for FilePath {
    type V = Seq<u8>;

    open spec fn view(&self) -> Seq<u8> {
        self.bytes@
    }
}

impl Clone for FilePath {
    fn clone(&self) -> (r: FilePath)
        ensures
            r@ == self@,
    {
        FilePath { bytes: self.bytes.clone() }
    }
}

/// The path `base` with one more component, set off by a slash unless `base` is empty or
/// ends in one.
pub open spec fn joined(base: Seq<u8>, component: Seq<u8>) -> Seq<u8> {
    if base.len() == 0 || base.last() == 0x2f {
        base + component
    } else {
        base.push(0x2f) + component
    }
}

impl FilePath {
    /// The path that a text spells.
    pub fn from_text(text: &str) -> (r: FilePath)
        ensures
            r@ == encode_utf8(text@),
    {
        FilePath { bytes: text.as_bytes_vec() }
    }

    /// The path as a text, for people and as part of a state key.
    pub fn display(&self) -> (r: String)
        ensures
            r@ == utf8_lossy(self@),
            valid_utf8(self@) ==> r@ == decode_utf8(self@),
    {
        decode_lossy(self.bytes.as_slice())
    }

    /// Whether both paths are made of the same bytes.
    pub fn same_as(&self, other: &FilePath) -> (r: bool)
        ensures
            r == (self@ == other@),
    {
        if self.bytes.len() != other.bytes.len() {
            return false;
        }
        let mut i: usize = 0;
        while i < self.bytes.len()
            invariant
                i <= self.bytes.len() == other.bytes.len(),
                forall|k: int| 0 <= k < i ==> self@[k] == other@[k],
            decreases self.bytes.len() - i,
        {
            if self.bytes[i] != other.bytes[i] {
                return false;
            }
            i += 1;
        }
        assert(self@ =~= other@);
        true
    }

    /// This path with a relative component appended.
    pub(crate) fn join(&self, component: &str) -> (r: FilePath)
        ensures
            r@ == joined(self@, encode_utf8(component@)),
    {
        let mut bytes: Vec<u8> = self.bytes.clone();
        if bytes.len() > 0 && bytes[bytes.len() - 1] != 0x2f {
            bytes.push(0x2f);
        }
        let mut tail: Vec<u8> = component.as_bytes_vec();
        bytes.append(&mut tail);
        FilePath { bytes }
    }
}

/// A component is put behind a path, set off by just one slash where there is something to set
/// it off from.
pub proof fn law_joining(base: Seq<u8>, component: Seq<u8>)
    ensures
        base.len() == 0 ==> joined(base, component) == component,
        base.len() > 0 && base[base.len() - 1] == 0x2f ==> joined(base, component) == base
            + component,
        base.len() > 0 && base[base.len() - 1] != 0x2f ==> joined(base, component) == base
            + seq![0x2fu8] + component,
{
    assert(base + seq![0x2fu8] =~= base.push(0x2f));
    if base.len() == 0 {
        assert(joined(base, component) =~= component);
    }
}

/// A path is seen as its bytes.
pub proof fn law_path_view(path: FilePath)
    ensures
        path@ == path.bytes@,
{
}

} // verus!
