//! A fixed six-octet hardware address.

use vstd::prelude::*;

verus! {

/// A hardware (MAC) address: six octets in transmission order.
///
/// The abstract value of a `Mac` is the sequence of its six octets.
#[derive(Debug, Clone, Copy, PartialEq, Eq, Hash)]
pub struct Mac {
    /// The six octets, most significant first.
    pub octets: [u8; 6],
}

impl View for Mac {
    type V = Seq<u8>;

    open spec fn view(&self) -> Seq<u8> {
        self.octets@
    }
}

impl Mac {
    /// Build an address from its six octets, given most significant first.
    pub fn new(a: u8, b: u8, c: u8, d: u8, e: u8, f: u8) -> (r: Self)
        ensures
            r@ == seq![a, b, c, d, e, f],
    {
        let m = Mac { octets: [a, b, c, d, e, f] };
        proof {
            assert(m.octets@ =~= seq![a, b, c, d, e, f]);
        }
        m
    }

    /// Return the octet at `i`, counting from the most significant.
    pub fn octet(&self, i: usize) -> (r: u8)
        requires
            i < 6,
        ensures
            r == self@[i as int],
    {
        self.octets[i]
    }
}

} // verus!
