use vstd::prelude::*;

verus! {

broadcast use vstd::array::group_array_axioms;

/// An authenticated identity: a wallet, or the address of a stored record.
#[derive(Clone, Copy, Debug)]
pub struct Identity {
    pub bytes: [u8; 32],
}

impl PartialEq for Identity {
    fn eq(&self, other: &Identity) -> (r: bool) {
        let mut i: usize = 0;
        while i < 32
            invariant
                0 <= i <= 32,
                forall|j: int| 0 <= j < i ==> self.bytes@[j] == other.bytes@[j],
            decreases 32 - i,
        {
            if self.bytes[i] != other.bytes[i] {
                return false;
            }
            i = i + 1;
        }
        assert(self.bytes =~= other.bytes);
        true
    }
}

impl Eq for Identity {
}

impl vstd::std_specs::cmp::PartialEqSpecImpl for Identity {
    open spec fn obeys_eq_spec() -> bool {
        true
    }

    open spec fn eq_spec(&self, other: &Identity) -> bool {
        *self == *other
    }
}

/// Whether `w` is one of the identities of `v`.
pub fn contains_identity(v: &Vec<Identity>, w: &Identity) -> (r: bool)
    ensures
        r == v@.contains(*w),
{
    let mut i: usize = 0;
    while i < v.len()
        invariant
            0 <= i <= v.len(),
            forall|j: int| 0 <= j < i ==> v@[j] != *w,
        decreases v.len() - i,
    {
        if v[i] == *w {
            assert(v@[i as int] == *w);
            return true;
        }
        i = i + 1;
    }
    false
}

} // verus!
