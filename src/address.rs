//! Ledger identities (32-byte account addresses) and the deterministic
//! derivation of program-owned addresses from seeds.
use anchor_lang::prelude::Pubkey;
use vstd::prelude::*;

verus! {

/// A 32-byte ledger identity: an account, a program, or an asset mint.
#[derive(Clone, Copy, Debug)]
pub struct Address {
    pub bytes: [u8; 32],
}

impl View for Address {
    type V = Seq<u8>;

    open spec fn view(&self) -> Seq<u8> {
        self.bytes@
    }
}

impl PartialEq for Address {
    fn eq(&self, other: &Address) -> (r: bool)
        ensures
            r == (self@ == other@),
    {
        self.same(other)
    }
}

impl vstd::std_specs::cmp::PartialEqSpecImpl for Address {
    open spec fn obeys_eq_spec() -> bool {
        true
    }

    open spec fn eq_spec(&self, other: &Address) -> bool {
        self@ == other@
    }
}

impl Eq for Address {

}

/// The null identity: thirty-two zero bytes.
pub open spec fn zero_bytes() -> Seq<u8> {
    Seq::new(32, |i: int| 0u8)
}

/// Bytes of the fungible-token program's identity.
pub open spec fn token_program_bytes() -> Seq<u8> {
    seq![
        6u8, 221, 246, 225, 215, 101, 161, 147, 217, 203, 225, 70, 206, 235, 121, 172,
        28, 180, 133, 237, 95, 91, 55, 145, 58, 140, 245, 133, 126, 255, 0, 169,
    ]
}

/// Bytes of the associated-token-account program's identity.
pub open spec fn associated_token_program_bytes() -> Seq<u8> {
    seq![
        140u8, 151, 37, 143, 78, 36, 137, 241, 187, 61, 16, 41, 20, 142, 13, 131,
        11, 90, 19, 153, 218, 255, 16, 132, 4, 142, 123, 216, 219, 233, 248, 89,
    ]
}

/// The address (and bump seed) the ledger derives for `seeds` under
/// `program_id`, or `None` when no off-curve address exists for them.
pub uninterp spec fn program_address_of(seeds: Seq<Seq<u8>>, program_id: Seq<u8>) -> Option<(Seq<u8>, u8)>;

/// The associated holding account of `wallet` for the asset `mint`: the
/// address derived from `[wallet, token program, mint]` under the
/// associated-token-account program.
pub open spec fn associated_address_of(wallet: Seq<u8>, mint: Seq<u8>) -> Option<Seq<u8>> {
    match program_address_of(
        seq![wallet, token_program_bytes(), mint],
        associated_token_program_bytes(),
    ) {
        Some(found) => Some(found.0),
        None => None,
    }
}

/// An optional address, seen as optional bytes.
pub open spec fn opt_view(a: Option<Address>) -> Option<Seq<u8>> {
    match a {
        Some(x) => Some(x@),
        None => None,
    }
}

impl Address {
    pub fn from_bytes(bytes: [u8; 32]) -> (r: Address)
        ensures
            r@ == bytes@,
    {
        Address { bytes }
    }

    pub fn to_bytes(&self) -> (r: [u8; 32])
        ensures
            r@ == self@,
    {
        self.bytes
    }

    /// The null identity.
    pub fn zero() -> (r: Address)
        ensures
            r@ == zero_bytes(),
    {
        let r = Address { bytes: [0u8; 32] };
        assert(r@ =~= zero_bytes());
        r
    }

    pub fn token_program() -> (r: Address)
        ensures
            r@ == token_program_bytes(),
    {
        let r = Address {
            bytes: [
                6u8, 221, 246, 225, 215, 101, 161, 147, 217, 203, 225, 70, 206, 235, 121, 172,
                28, 180, 133, 237, 95, 91, 55, 145, 58, 140, 245, 133, 126, 255, 0, 169,
            ],
        };
        assert(r@ =~= token_program_bytes());
        r
    }

    pub fn associated_token_program() -> (r: Address)
        ensures
            r@ == associated_token_program_bytes(),
    {
        let r = Address {
            bytes: [
                140u8, 151, 37, 143, 78, 36, 137, 241, 187, 61, 16, 41, 20, 142, 13, 131,
                11, 90, 19, 153, 218, 255, 16, 132, 4, 142, 123, 216, 219, 233, 248, 89,
            ],
        };
        assert(r@ =~= associated_token_program_bytes());
        r
    }

    /// Whether two identities are the same.
    pub fn same(&self, other: &Address) -> (r: bool)
        ensures
            r == (self@ == other@),
    {
        let mut i: usize = 0;
        while i < 32
            invariant
                i <= 32,
                self@.len() == 32,
                other@.len() == 32,
                forall|j: int| 0 <= j < i ==> self@[j] == other@[j],
            decreases 32 - i,
        {
            if self.bytes[i] != other.bytes[i] {
                return false;
            }
            i = i + 1;
        }
        assert(self@ =~= other@);
        true
    }

    /// Whether this is the null identity.
    pub fn is_zero(&self) -> (r: bool)
        ensures
            r == (self@ == zero_bytes()),
    {
        let z = Address::zero();
        self.same(&z)
    }
}

/// Relies on `Pubkey::try_find_program_address` (solana-program): it searches
/// bump seeds from 255 down and returns the first derived address that is
/// off the ed25519 curve, or `None`; the outcome depends on the arguments
/// alone.
#[verifier::external_body]
pub(crate) fn try_find_program_address(seeds: &Vec<Vec<u8>>, program_id: &Address) -> (r: Option<(Address, u8)>)
    ensures
        match r {
            Some(found) => program_address_of(seeds.deep_view(), program_id@) == Some(
                (found.0@, found.1),
            ),
            None => program_address_of(seeds.deep_view(), program_id@) is None,
        },
{
    let parts: Vec<&[u8]> = seeds.iter().map(|s| s.as_slice()).collect();
    let program = Pubkey::new_from_array(program_id.bytes);
    Pubkey::try_find_program_address(&parts, &program).map(|(key, bump)| (Address::from_bytes(key.to_bytes()), bump))
}

/// The identity's bytes, as a seed.
pub(crate) fn address_bytes(a: &Address) -> (r: Vec<u8>)
    ensures
        r@ == a@,
{
    let mut v: Vec<u8> = Vec::new();
    let mut i: usize = 0;
    while i < 32
        invariant
            i <= 32,
            a@.len() == 32,
            v@ == a@.subrange(0, i as int),
        decreases 32 - i,
    {
        v.push(a.bytes[i]);
        i = i + 1;
    }
    assert(v@ =~= a@);
    v
}

/// The associated holding account of `wallet` for the asset `mint`.
pub fn associated_token_address(wallet: &Address, mint: &Address) -> (r: Option<Address>)
    ensures
        opt_view(r) == associated_address_of(wallet@, mint@),
{
    let mut seeds: Vec<Vec<u8>> = Vec::new();
    seeds.push(address_bytes(wallet));
    seeds.push(address_bytes(&Address::token_program()));
    seeds.push(address_bytes(mint));
    let program = Address::associated_token_program();
    proof {
        assert(seeds@[0].deep_view() =~= wallet@);
        assert(seeds@[1].deep_view() =~= token_program_bytes());
        assert(seeds@[2].deep_view() =~= mint@);
        assert(seeds.deep_view() =~= seq![wallet@, token_program_bytes(), mint@]);
    }
    match try_find_program_address(&seeds, &program) {
        Some(found) => Some(found.0),
        None => None,
    }
}

} // verus!
