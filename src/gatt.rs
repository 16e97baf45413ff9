//! Assigned numbers of the GATT attributes that this crate looks for.
use vstd::prelude::*;

verus! {

/// The Battery Service, `0x180F` in the Bluetooth base UUID.
pub const BATTERY_SERVICE_UUID: u128 = 0x0000180F_0000_1000_8000_00805F9B34FB;

/// The Battery Level characteristic, `0x2A19` in the Bluetooth base UUID.
pub const BATTERY_LEVEL_UUID: u128 = 0x00002A19_0000_1000_8000_00805F9B34FB;

/// The Characteristic User Description descriptor, `0x2901` in the Bluetooth base UUID.
pub const USER_DESCRIPTION_UUID: u128 = 0x00002901_0000_1000_8000_00805F9B34FB;

/// The services that a connected device must report to be listed.
pub fn scan_filter() -> (r: Vec<u128>)
    ensures
        r@ == seq![BATTERY_SERVICE_UUID, BATTERY_LEVEL_UUID],
{
    let mut r: Vec<u128> = Vec::new();
    r.push(BATTERY_SERVICE_UUID);
    r.push(BATTERY_LEVEL_UUID);
    r
}

/// The first position at or after `from` that holds `x`, or the length of
/// `s` when there is none.
pub open spec fn seek<A>(s: Seq<A>, from: int, x: A) -> int
    decreases s.len() - from,
{
    if from < 0 || from >= s.len() {
        s.len() as int
    } else if s[from] == x {
        from
    } else {
        seek(s, from + 1, x)
    }
}

/// What `seek` finds: a position in range that holds `x`, with no `x` before
/// it from `from` on; or the length, when `x` is nowhere from `from` on.
pub proof fn lemma_seek<A>(s: Seq<A>, from: int, x: A)
    requires
        0 <= from <= s.len(),
    ensures
        from <= seek(s, from, x) <= s.len(),
        seek(s, from, x) < s.len() ==> s[seek(s, from, x)] == x,
        forall|k: int| from <= k < seek(s, from, x) ==> s[k] != x,
    decreases s.len() - from,
{
    if from < s.len() && s[from] != x {
        lemma_seek(s, from + 1, x);
    }
}

/// The first position at or after `from` where `s` holds the UUID `u`.
pub fn find_uuid(s: &Vec<u128>, from: usize, u: u128) -> (r: usize)
    requires
        from <= s@.len(),
    ensures
        r == seek(s@, from as int, u),
{
    let mut i: usize = from;
    while i < s.len()
        invariant
            from <= i <= s@.len(),
            seek(s@, from as int, u) == seek(s@, i as int, u),
        decreases s@.len() - i,
    {
        if s[i] == u {
            return i;
        }
        i = i + 1;
    }
    i
}

} // verus!
