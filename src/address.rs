use vstd::prelude::*;

verus! {

/// A 32-byte ledger identity (an account address or a program id).
#[derive(Clone, Copy, Debug)]
pub struct Address {
    pub bytes: [u8; 32],
}

impl View for Address {
    type V = Seq<u8>;

    open spec fn view(&self) -> Seq<u8> {
        self.bytes@
    }
}

impl Address {
    pub fn new(bytes: [u8; 32]) -> (r: Address)
        ensures
            r@ == bytes@,
    {
        Address { bytes }
    }

    pub fn to_bytes(&self) -> (r: [u8; 32])
        ensures
            r@ == self@,
    {
        self.bytes
    }
}

impl PartialEq for Address {
    fn eq(&self, other: &Address) -> (r: bool)
        ensures
            r == (self@ == other@),
    {
        let mut i: usize = 0;
        while i < 32
            invariant
                i <= 32,
                self@.len() == 32,
                other@.len() == 32,
                self@.subrange(0, i as int) == other@.subrange(0, i as int),
            decreases 32 - i,
        {
            if self.bytes[i] != other.bytes[i] {
                assert(self@[i as int] != other@[i as int]);
                return false;
            }
            assert(self@.subrange(0, i as int + 1) =~= self@.subrange(0, i as int).push(self@[i as int]));
            assert(other@.subrange(0, i as int + 1) =~= other@.subrange(0, i as int).push(other@[i as int]));
            i = i + 1;
        }
        assert(self@ =~= self@.subrange(0, 32));
        assert(other@ =~= other@.subrange(0, 32));
        true
    }
}

impl Eq for Address {
}

impl vstd::std_specs::cmp::PartialEqSpecImpl for Address {
    open spec fn obeys_eq_spec() -> bool {
        true
    }

    open spec fn eq_spec(&self, other: &Address) -> bool {
        self@ == other@
    }
}

/// The bytes of the reserved burn address (`1nc1nerator1111...`), which marks
/// a destination slot as unused.
pub open spec fn incinerator_bytes() -> Seq<u8> {
    seq![
        0u8, 51u8, 144u8, 114u8, 141u8, 52u8, 17u8, 96u8, 121u8, 189u8, 201u8, 17u8, 191u8,
        255u8, 0u8, 219u8, 212u8, 77u8, 46u8, 205u8, 204u8, 247u8, 156u8, 166u8, 225u8, 0u8,
        56u8, 225u8, 0u8, 0u8, 0u8, 0u8,
    ]
}

/// The reserved burn address, used as the sentinel of an unused slot.
pub fn incinerator() -> (r: Address)
    ensures
        r@ == incinerator_bytes(),
{
    let r = Address {
        bytes: [
            0u8, 51u8, 144u8, 114u8, 141u8, 52u8, 17u8, 96u8, 121u8, 189u8, 201u8, 17u8, 191u8,
            255u8, 0u8, 219u8, 212u8, 77u8, 46u8, 205u8, 204u8, 247u8, 156u8, 166u8, 225u8, 0u8,
            56u8, 225u8, 0u8, 0u8, 0u8, 0u8,
        ],
    };
    assert(r@ =~= incinerator_bytes());
    r
}

} // verus!
