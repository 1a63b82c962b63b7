use vstd::prelude::*;

verus! {

/// An account address. The custody rules read an address only through
/// equality — which party signed, which party a record names — so an opaque
/// numeric identity carries everything the logic depends on.
#[derive(Clone, Copy, Debug, PartialEq, Eq, Structural)]
pub struct Pubkey {
    pub id: u64,
}

impl Pubkey {
    pub fn new(id: u64) -> (r: Pubkey)
        ensures
            r.id == id,
    {
        Pubkey { id }
    }
}

/// The address of the system program, the owner that every plain
/// balance-holding account (the custodian included) must have.
pub open spec fn spec_system_program_id() -> Pubkey {
    Pubkey { id: 0 }
}

#[verifier::when_used_as_spec(spec_system_program_id)]
pub fn system_program_id() -> (r: Pubkey)
    ensures
        r == spec_system_program_id(),
{
    Pubkey { id: 0 }
}

} // verus!
