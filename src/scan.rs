//! Turning the devices that the adapter reports into the listed entries.
use vstd::prelude::*;

use crate::gatt::seek;
use crate::model::{BleDeviceInfo, BleError};

verus! {

/// A device as the adapter reported it: its name, when the platform could
/// read one, and the textual encoding of its handle.
#[derive(Debug, Clone, PartialEq, Eq)]
pub struct ScannedDevice {
    pub name: Option<String>,
    pub id: String,
}

impl ScannedDevice {
    /// The device as `(name, id)`.
    pub open spec fn entry(&self) -> (Option<Seq<char>>, Seq<char>) {
        (
            match self.name {
                Some(n) => Some(n@),
                None => None,
            },
            self.id@,
        )
    }
}

/// The listed entry for one scanned device: none when it has no name.
pub open spec fn listing(d: (Option<Seq<char>>, Seq<char>)) -> Option<(Seq<char>, Seq<char>)> {
    match d.0 {
        Some(n) => Some((n, d.1)),
        None => None,
    }
}

/// The entries that a scan lists: the named devices, in the order reported.
pub open spec fn listed(found: Seq<(Option<Seq<char>>, Seq<char>)>) -> Seq<(Seq<char>, Seq<char>)> {
    found.filter_map(|d: (Option<Seq<char>>, Seq<char>)| listing(d))
}

/// No two entries share an id.
pub open spec fn distinct_ids<N>(s: Seq<(N, Seq<char>)>) -> bool {
    forall|i: int, j: int| 0 <= i < j < s.len() ==> s[i].1 != s[j].1
}

/// Every listed entry is a reported device, under the name and the id that
/// the adapter reported for it.
pub proof fn lemma_listed_reported(found: Seq<(Option<Seq<char>>, Seq<char>)>, i: int)
    requires
        0 <= i < listed(found).len(),
    ensures
        exists|k: int|
            0 <= k < found.len() && #[trigger] found[k] == (
                Some(listed(found)[i].0),
                listed(found)[i].1,
            ),
{
    let f = |d: (Option<Seq<char>>, Seq<char>)| listing(d);
    let e = listed(found)[i];
    assert(listed(found).contains(e));
    found.lemma_filter_map_contains(f, e);
    let t = choose|t: (Option<Seq<char>>, Seq<char>)| #[trigger] found.contains(t) && f(t) == Some(e);
    let k = choose|k: int| 0 <= k < found.len() && found[k] == t;
    assert(found[k] == (Some(e.0), e.1));
}

/// Listing keeps ids apart: when the adapter reported no two devices under one
/// id, no two listed entries share an id.
pub proof fn lemma_listed_ids_distinct(found: Seq<(Option<Seq<char>>, Seq<char>)>)
    requires
        distinct_ids(found),
    ensures
        distinct_ids(listed(found)),
    decreases found.len(),
{
    if found.len() > 0 {
        let f = |d: (Option<Seq<char>>, Seq<char>)| listing(d);
        let rest = found.drop_last();
        let last = found.last();
        assert(distinct_ids(rest));
        lemma_listed_ids_distinct(rest);
        if let Some(e) = listing(last) {
            assert(listed(found) == listed(rest) + seq![e]);
            assert forall|i: int| 0 <= i < listed(rest).len() implies listed(rest)[i].1 != e.1 by {
                lemma_listed_reported(rest, i);
                let k = choose|k: int|
                    0 <= k < rest.len() && #[trigger] rest[k] == (
                        Some(listed(rest)[i].0),
                        listed(rest)[i].1,
                    );
                assert(found[k] == rest[k]);
                assert(found[found.len() - 1] == last);
            }
        } else {
            assert(listed(found) == listed(rest));
        }
    }
}

/// The entries for a batch of scanned devices. A device without a name is
/// left out; the others keep their order.
pub fn collect_devices(found: Vec<ScannedDevice>) -> (r: Vec<BleDeviceInfo>)
    ensures
        r@.map_values(|d: BleDeviceInfo| d.entry()) == listed(
            found@.map_values(|d: ScannedDevice| d.entry()),
        ),
{
    let ghost orig = found@;
    let ghost all = found@.map_values(|d: ScannedDevice| d.entry());
    let mut r: Vec<BleDeviceInfo> = Vec::new();
    let mut rest = found;
    let ghost n = all.len();
    while rest.len() > 0
        invariant
            n == all.len() == orig.len(),
            all == orig.map_values(|d: ScannedDevice| d.entry()),
            rest@.len() <= n,
            rest@ == orig.subrange(n - rest@.len(), n as int),
            r@.map_values(|d: BleDeviceInfo| d.entry()) == listed(all.take(n - rest@.len())),
        decreases rest@.len(),
    {
        let ghost i = n - rest@.len();
        let d = rest.remove(0);
        proof {
            all.lemma_filter_map_take_succ(|d: (Option<Seq<char>>, Seq<char>)| listing(d), i);
            assert(d == orig[i]);
            assert(rest@ =~= orig.subrange(i + 1, n as int));
        }
        match d.name {
            Some(name) => {
                r.push(BleDeviceInfo { name, id: d.id });
            },
            None => {},
        }
        assert(r@.map_values(|d: BleDeviceInfo| d.entry()) =~= listed(all.take(i + 1)));
    }
    assert(all.take(n as int) =~= all);
    r
}

/// The answer to a listing request, once the adapter was ready: the
/// enumeration's own failure, or the entries of what it found.
pub fn list_devices(found: Result<Vec<ScannedDevice>, String>) -> (r: Result<
    Vec<BleDeviceInfo>,
    BleError,
>)
    ensures
        match found {
            Err(m) => r == Err::<Vec<BleDeviceInfo>, BleError>(BleError::EnumerationFailed(m)),
            Ok(v) => r is Ok && r->Ok_0@.map_values(|d: BleDeviceInfo| d.entry()) == listed(
                v@.map_values(|d: ScannedDevice| d.entry()),
            ),
        },
{
    match found {
        Err(m) => Err(BleError::EnumerationFailed(m)),
        Ok(v) => Ok(collect_devices(v)),
    }
}

} // verus!
