//! The name a process gives the kernel.

use vstd::prelude::*;
use vstd::string::StringSliceAdditionalSpecFns;

verus! {

/// Longest thread name the kernel keeps, without its terminating zero.
pub const PROCESS_NAME_MAX: usize = 15;

/// Bytes of the name the kernel gets for `name`: its first 15 bytes, or
/// none when those hold a zero byte.
pub open spec fn process_name_spec(name: Seq<u8>) -> Option<Seq<u8>> {
    let t = if name.len() > PROCESS_NAME_MAX {
        name.take(PROCESS_NAME_MAX as int)
    } else {
        name
    };
    if t.contains(0u8) {
        None
    } else {
        Some(t)
    }
}

pub fn process_name_bytes(name: &str) -> (r: Option<Vec<u8>>)
    ensures
        match r {
            Some(v) => process_name_spec(name.spec_bytes()) == Some(v@),
            None => process_name_spec(name.spec_bytes()) is None,
        },
{
    let b = name.as_bytes();
    let n = if b.len() > PROCESS_NAME_MAX {
        PROCESS_NAME_MAX
    } else {
        b.len()
    };
    let mut r: Vec<u8> = Vec::new();
    let mut i: usize = 0;
    while i < n
        invariant
            n <= b@.len(),
            b@ == name.spec_bytes(),
            n == if b@.len() > PROCESS_NAME_MAX { PROCESS_NAME_MAX as nat } else { b@.len() },
            i <= n,
            r@ == b@.take(i as int),
            !r@.contains(0u8),
        decreases n - i,
    {
        if b[i] == 0 {
            assert(b@.take(n as int)[i as int] == 0u8);
            return None;
        }
        r.push(b[i]);
        proof {
            assert(r@ =~= b@.take(i + 1));
            if r@.contains(0u8) {
                let k = choose|k: int| 0 <= k < r@.len() && r@[k] == 0u8;
                if k < i {
                    assert(b@.take(i as int)[k] == 0u8);
                }
            }
        }
        i += 1;
    }
    assert(r@ =~= if b@.len() > PROCESS_NAME_MAX { b@.take(PROCESS_NAME_MAX as int) } else { b@ });
    Some(r)
}

} // verus!
