//! Wide strings in the shape that the system's own calls take them.

use vstd::prelude::*;

verus! {

/// The unit that ends a wide string.
pub const NUL: u16 = 0;

/// A string of 16-bit code units with a NUL after its last unit. The units
/// need not be well-formed UTF-16.
#[allow(non_camel_case_types)]
pub struct CWSTR {
    wstr: Vec<u16>,
}

impl View for CWSTR {
    type V = Seq<u16>;

    /// The units of the string, without the NUL that ends it.
    closed spec fn view(&self) -> Seq<u16> {
        self.wstr@.drop_last()
    }
}

impl CWSTR {
    #[verifier::type_invariant]
    spec fn terminated(self) -> bool {
        self.wstr@.len() > 0 && self.wstr@.last() == NUL
    }

    /// The wide string that holds the units of `source`.
    pub fn from(source: Vec<u16>) -> (text: CWSTR)
        ensures
            text@ == source@,
    {
        let mut wstr = source;
        wstr.push(NUL);
        assert(wstr@.drop_last() =~= source@);
        CWSTR { wstr }
    }

    /// The string as it lies in memory: its units and then the NUL. The
    /// start of this slice is where a call that wants a pointer to a wide
    /// string is to be pointed.
    pub fn as_ptr(&self) -> (units: &[u16])
        ensures
            units@ == self@.push(NUL),
    {
        proof {
            use_type_invariant(self);
            assert(self.wstr@ =~= self.wstr@.drop_last().push(NUL));
        }
        self.wstr.as_slice()
    }
}

} // verus!
