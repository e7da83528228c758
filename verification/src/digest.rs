//! Content digests: the identity of every blob and directory listing.

use vstd::prelude::*;
use vstd::std_specs::cmp::PartialEqSpecImpl;

verus! {

/// A content digest: a 32-byte fingerprint and the length of the content in bytes.
#[derive(Clone, Copy, Debug, Eq, Hash)]
pub struct Digest {
    pub hash: [u8; 32],
    pub size_bytes: usize,
}

impl Digest {
    /// The digest of content with the given fingerprint and length.
    pub fn new(hash: [u8; 32], size_bytes: usize) -> (d: Digest)
        ensures
            d.hash == hash,
            d.size_bytes == size_bytes,
    {
        Digest { hash, size_bytes }
    }
}

impl PartialEq for Digest {
    fn eq(&self, other: &Digest) -> (r: bool) {
        if self.size_bytes != other.size_bytes {
            return false;
        }
        let mut i: usize = 0;
        while i < 32
            invariant
                i <= 32,
                forall|j: int| 0 <= j < i ==> self.hash[j] == other.hash[j],
            decreases 32 - i,
        {
            if self.hash[i] != other.hash[i] {
                return false;
            }
            i += 1;
        }
        assert(self.hash =~= other.hash);
        true
    }
}

impl PartialEqSpecImpl for Digest {
    open spec fn obeys_eq_spec() -> bool {
        true
    }

    open spec fn eq_spec(&self, other: &Digest) -> bool {
        *self == *other
    }
}

} // verus!
