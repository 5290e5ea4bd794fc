//! Module-host helpers: composite storage keys, install-data splitting, and
//! the host's module-type and verdict words.

use vstd::prelude::*;

use crate::bytes::{push_word, read_b32, read_vec};
use crate::crypto::{keccak256, keccak256_spec};
use crate::opcodes::{Address, B32};
use crate::u256::U256;

verus! {

/// Composite storage key: the Keccak-256 digest of `wallet || permission_id`.
///
/// Policy configuration is scoped by both the wallet and the permission id.
pub fn composite_key(wallet: &Address, permission_id: &B32) -> (r: B32)
    ensures
        r@ == keccak256_spec(wallet@ + permission_id@),
{
    let mut buf: Vec<u8> = Vec::new();
    push_word(&mut buf, wallet);
    push_word(&mut buf, permission_id);
    proof {
        assert(buf@ =~= wallet@ + permission_id@);
    }
    keccak256(buf.as_slice())
}

/// Splits policy install bytes into `(permission_id, init_data)`: the host
/// packs them as a 32-byte id followed by the module's own data.
pub fn split_policy_install_data(data: &[u8]) -> (r: Result<(B32, Vec<u8>), ()>)
    ensures
        match r {
            Ok((id, init)) => {
                &&& data@.len() >= 32
                &&& id@ == data@.subrange(0, 32)
                &&& init@ == data@.subrange(32, data@.len() as int)
            },
            Err(_) => data@.len() < 32,
        },
{
    if data.len() < 32 {
        return Err(());
    }
    let mut i: usize = 0;
    let id = match read_b32(data, &mut i) {
        Ok(v) => v,
        Err(_) => return Err(()),
    };
    let init = match read_vec(data, &mut i, data.len() - 32) {
        Ok(v) => v,
        Err(_) => return Err(()),
    };
    Ok((id, init))
}

/// The module-type word for policies under the host's module taxonomy.
pub fn module_type_policy() -> (r: U256)
    ensures
        r.as_int() == 5,
{
    U256::from_u64(5)
}

/// The verdict word for an admitted operation.
pub fn policy_success_uint() -> (r: U256)
    ensures
        r.as_int() == 0,
{
    U256::zero()
}

/// The verdict word for a rejected operation; the host treats any non-zero
/// word as a rejection.
pub fn policy_failed_uint() -> (r: U256)
    ensures
        r.as_int() == 1,
{
    U256::from_u64(1)
}

} // verus!
