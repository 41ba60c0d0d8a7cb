//! Account identifiers, and the ones among them that belong to a module.
use sp_runtime::traits::AccountIdConversion;
use sp_runtime::{AccountId32, ModuleId};
use vstd::prelude::*;

verus! {

/// The 32 bytes that identify an account.
#[derive(Clone, Copy, PartialEq, Eq, Debug)]
pub struct AccountId(pub [u8; 32]);

/// Whether the bytes of an account identifier spell a module: the tag `modl`,
/// eight bytes that name the module, and zeroes to the end.
pub open spec fn spells_module(bytes: Seq<u8>) -> bool {
    &&& bytes[0] == 0x6du8
    &&& bytes[1] == 0x6fu8
    &&& bytes[2] == 0x64u8
    &&& bytes[3] == 0x6cu8
    &&& forall|i: int| 12 <= i < bytes.len() ==> bytes[i] == 0u8
}

/// Calls `sp_runtime::ModuleId::try_from_account` on the account with these
/// bytes. An account id encodes as its 32 bytes; the call finds a module in
/// them exactly if they start with the type tag of `ModuleId`, the bytes
/// `modl`, and nothing but zeroes follows the eight bytes behind the tag. Those
/// eight bytes are the module it finds.
#[verifier::external_body]
pub(crate) fn module_of(bytes: [u8; 32]) -> (r: Option<[u8; 8]>)
    ensures
        r is Some <==> spells_module(bytes@),
        r matches Some(id) ==> id@ == bytes@.subrange(4, 12),
{
    let account: AccountId32 = AccountId32::new(bytes);
    let found: Option<ModuleId> = ModuleId::try_from_account(&account);
    found.map(|id| id.0)
}

/// Whether two byte strings of one length are the same.
pub fn same_bytes<const N: usize>(a: &[u8; N], b: &[u8; N]) -> (r: bool)
    ensures
        r == (*a == *b),
{
    let mut i: usize = 0;
    while i < N
        invariant
            i <= N,
            forall|j: int| 0 <= j < i ==> a@[j] == b@[j],
        decreases N - i,
    {
        if a[i] != b[i] {
            return false;
        }
        i = i + 1;
    }
    assert(a@ =~= b@);
    assert(*a =~= *b);
    true
}

impl AccountId {
    /// Whether this is the account of a module.
    pub open spec fn is_module(self) -> bool {
        spells_module(self.0@)
    }

    /// Whether two identifiers name the same account.
    pub fn same(&self, other: &AccountId) -> (r: bool)
        ensures
            r == (*self == *other),
    {
        same_bytes(&self.0, &other.0)
    }
}

} // verus!
