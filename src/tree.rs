//! A device's GATT tree as data, the readings it holds, and the law that the
//! reader, given the tree's answers, ends with exactly those readings.
use vstd::prelude::*;

use crate::gatt::{
    lemma_seek, seek, BATTERY_LEVEL_UUID, BATTERY_SERVICE_UUID, USER_DESCRIPTION_UUID,
};
use crate::model::BleError;
use crate::reader::{label_after, level_of, text_of, BatteryReader, Event, Phase};

verus! {

/// A descriptor: its UUID and its value.
pub type DescriptorNode = (u128, Seq<u8>);

/// A characteristic: its UUID, its value and its descriptors.
pub type CharacteristicNode = (u128, Seq<u8>, Seq<DescriptorNode>);

/// A service: its UUID and its characteristics.
pub type ServiceNode = (u128, Seq<CharacteristicNode>);

/// A reading as `(level, description)`.
pub type Entry = (Option<u8>, Option<Seq<char>>);

/// The description left after the descriptors from position `d` on, starting
/// from `acc`: each valid user description replaces the one before it.
pub open spec fn label_from(ds: Seq<DescriptorNode>, d: int, acc: Option<Seq<char>>) -> Option<
    Seq<char>,
>
    decreases ds.len() - d,
{
    if d < 0 || d >= ds.len() {
        acc
    } else if ds[d].0 == USER_DESCRIPTION_UUID {
        label_from(ds, d + 1, label_after(acc, ds[d].1))
    } else {
        label_from(ds, d + 1, acc)
    }
}

/// The reading that a Battery Level characteristic holds.
pub open spec fn reading_of(c: CharacteristicNode) -> Entry {
    (level_of(c.1), label_from(c.2, 0, None))
}

/// The readings of the Battery Level characteristics from position `c` on.
pub open spec fn chars_from(cs: Seq<CharacteristicNode>, c: int) -> Seq<Entry>
    decreases cs.len() - c,
{
    if c < 0 || c >= cs.len() {
        seq![]
    } else if cs[c].0 == BATTERY_LEVEL_UUID {
        seq![reading_of(cs[c])] + chars_from(cs, c + 1)
    } else {
        chars_from(cs, c + 1)
    }
}

/// The readings of the Battery Services from position `s` on.
pub open spec fn services_from(ss: Seq<ServiceNode>, s: int) -> Seq<Entry>
    decreases ss.len() - s,
{
    if s < 0 || s >= ss.len() {
        seq![]
    } else if ss[s].0 == BATTERY_SERVICE_UUID {
        chars_from(ss[s].1, 0) + services_from(ss, s + 1)
    } else {
        services_from(ss, s + 1)
    }
}

/// The readings that a device holds: one for each Battery Level
/// characteristic of each Battery Service, in the order the device lists them.
pub open spec fn readings_of(tree: Seq<ServiceNode>) -> Seq<Entry> {
    services_from(tree, 0)
}

pub open spec fn service_uuids(ss: Seq<ServiceNode>) -> Seq<u128> {
    ss.map_values(|x: ServiceNode| x.0)
}

pub open spec fn char_uuids(cs: Seq<CharacteristicNode>) -> Seq<u128> {
    cs.map_values(|x: CharacteristicNode| x.0)
}

pub open spec fn descriptor_uuids(ds: Seq<DescriptorNode>) -> Seq<u128> {
    ds.map_values(|x: DescriptorNode| x.0)
}

/// The platform's answer to the current action of `r`, on a device whose
/// GATT tree is `tree`, when nothing fails.
pub open spec fn answers(tree: Seq<ServiceNode>, r: BatteryReader, ev: Event) -> bool {
    let cs = tree[r.service as int].1;
    let ds = cs[r.characteristic as int].2;
    match (r.phase, ev) {
        (Phase::Resolving, Event::Devices(Ok(_))) => true,
        (Phase::Connecting, Event::Connected(Ok(()))) => true,
        (Phase::Services, Event::Services(Ok(l))) => l@ == service_uuids(tree),
        (Phase::Characteristics, Event::Characteristics(Ok(l))) => l@ == char_uuids(cs),
        (Phase::Level, Event::Level(Ok(v))) => v@ == cs[r.characteristic as int].1,
        (Phase::Descriptors, Event::Descriptors(Ok(l))) => l@ == descriptor_uuids(ds),
        (Phase::Descriptor, Event::DescriptorValue(Ok(v))) => v@ == ds[r.descriptor as int].1,
        _ => false,
    }
}

/// The lists that `r` holds are those of `tree` at its current position.
pub open spec fn follows(r: BatteryReader, tree: Seq<ServiceNode>) -> bool {
    let p = r.phase;
    let cs = tree[r.service as int].1;
    &&& (p == Phase::Characteristics || p == Phase::Level || p == Phase::Descriptors || p
        == Phase::Descriptor) ==> r.services@ == service_uuids(tree)
    &&& (p == Phase::Level || p == Phase::Descriptors || p == Phase::Descriptor)
        ==> r.characteristics@ == char_uuids(cs)
    &&& (p == Phase::Descriptors || p == Phase::Descriptor) ==> r.level == level_of(
        cs[r.characteristic as int].1,
    )
    &&& p == Phase::Descriptors ==> r.label is None
    &&& p == Phase::Descriptor ==> r.descriptors@ == descriptor_uuids(
        cs[r.characteristic as int].2,
    )
}

/// The readings of `tree` that `r` has still to take.
pub open spec fn remaining(r: BatteryReader, tree: Seq<ServiceNode>) -> Seq<Entry> {
    let s = r.service as int;
    let c = r.characteristic as int;
    let cs = tree[s].1;
    match r.phase {
        Phase::Resolving | Phase::Connecting | Phase::Services => readings_of(tree),
        Phase::Characteristics => services_from(tree, s),
        Phase::Level => chars_from(cs, c) + services_from(tree, s + 1),
        Phase::Descriptors => seq![(r.level, label_from(cs[c].2, 0, None))] + chars_from(
            cs,
            c + 1,
        ) + services_from(tree, s + 1),
        Phase::Descriptor => seq![
            (r.level, label_from(cs[c].2, r.descriptor as int, text_of(r.label))),
        ] + chars_from(cs, c + 1) + services_from(tree, s + 1),
        Phase::Done => seq![],
    }
}

/// `r` is on its way to the readings of `tree`: those it has taken, followed
/// by those it has still to take, are all of them.
pub open spec fn on_track(r: BatteryReader, tree: Seq<ServiceNode>) -> bool {
    &&& r.wf()
    &&& follows(r, tree)
    &&& r.entries() + remaining(r, tree) == readings_of(tree)
}

proof fn lemma_label_skip(ds: Seq<DescriptorNode>, from: int, to: int, acc: Option<Seq<char>>)
    requires
        0 <= from <= to <= ds.len(),
        forall|k: int| from <= k < to ==> ds[k].0 != USER_DESCRIPTION_UUID,
    ensures
        label_from(ds, from, acc) == label_from(ds, to, acc),
    decreases to - from,
{
    if from < to {
        lemma_label_skip(ds, from + 1, to, acc);
    }
}

proof fn lemma_chars_skip(cs: Seq<CharacteristicNode>, from: int, to: int)
    requires
        0 <= from <= to <= cs.len(),
        forall|k: int| from <= k < to ==> cs[k].0 != BATTERY_LEVEL_UUID,
    ensures
        chars_from(cs, from) == chars_from(cs, to),
    decreases to - from,
{
    if from < to {
        lemma_chars_skip(cs, from + 1, to);
    }
}

proof fn lemma_services_skip(ss: Seq<ServiceNode>, from: int, to: int)
    requires
        0 <= from <= to <= ss.len(),
        forall|k: int| from <= k < to ==> ss[k].0 != BATTERY_SERVICE_UUID,
    ensures
        services_from(ss, from) == services_from(ss, to),
    decreases to - from,
{
    if from < to {
        lemma_services_skip(ss, from + 1, to);
    }
}

/// Going on from characteristic `from` of the current service leaves for
/// later the readings from there on.
proof fn lemma_moves_on(
    r: BatteryReader,
    next: BatteryReader,
    tree: Seq<ServiceNode>,
    chars: Seq<u128>,
    from: int,
)
    requires
        r.services@ == service_uuids(tree),
        r.service < tree.len(),
        chars == char_uuids(tree[r.service as int].1),
        0 <= from <= chars.len(),
        r.moves_on(next, chars, from),
    ensures
        follows(next, tree),
        next.phase == Phase::Level || next.phase == Phase::Characteristics || next.phase
            == Phase::Done,
        remaining(next, tree) == chars_from(tree[r.service as int].1, from) + services_from(
            tree,
            r.service + 1,
        ),
{
    let cs = tree[r.service as int].1;
    let s = r.service as int;
    lemma_seek(chars, from, BATTERY_LEVEL_UUID);
    let c = seek(chars, from, BATTERY_LEVEL_UUID);
    assert forall|k: int| from <= k < c implies cs[k].0 != BATTERY_LEVEL_UUID by {
        assert(chars[k] == cs[k].0);
    }
    lemma_chars_skip(cs, from, c);
    if c < chars.len() {
        assert(next.service == r.service);
    } else {
        assert(chars_from(cs, c) == Seq::<Entry>::empty());
        lemma_seek(r.services@, s + 1, BATTERY_SERVICE_UUID);
        let t = seek(r.services@, s + 1, BATTERY_SERVICE_UUID);
        assert forall|k: int| s + 1 <= k < t implies tree[k].0 != BATTERY_SERVICE_UUID by {
            assert(r.services@[k] == tree[k].0);
        }
        lemma_services_skip(tree, s + 1, t);
        if t >= tree.len() {
            assert(services_from(tree, t) == Seq::<Entry>::empty());
        }
        assert(Seq::<Entry>::empty() + services_from(tree, s + 1) =~= services_from(tree, s + 1));
    }
}

/// An answer from the device's tree that does not end the read in failure
/// keeps the read on its way to the tree's readings.
pub proof fn lemma_answer_keeps_on_track(
    r: BatteryReader,
    tree: Seq<ServiceNode>,
    ev: Event,
    next: BatteryReader,
)
    requires
        on_track(r, tree),
        answers(tree, r, ev),
        r.steps_to(ev, next),
        next.wf(),
        next.failure is None,
    ensures
        on_track(next, tree),
{
    let s = r.service as int;
    let c = r.characteristic as int;
    let cs = tree[s].1;
    let e = r.entries();
    match ev {
        Event::Services(Ok(l)) => {
            lemma_seek(l@, 0, BATTERY_SERVICE_UUID);
            let t = seek(l@, 0, BATTERY_SERVICE_UUID);
            assert forall|k: int| 0 <= k < t implies tree[k].0 != BATTERY_SERVICE_UUID by {
                assert(l@[k] == tree[k].0);
            }
            lemma_services_skip(tree, 0, t);
            assert(e.len() == 0);
            assert(next.entries() == e);
            if t >= l@.len() {
                assert(services_from(tree, t) == Seq::<Entry>::empty());
            }
            assert(next.entries() + remaining(next, tree) =~= readings_of(tree));
        },
        Event::Characteristics(Ok(l)) => {
            assert(r.services@[s] == tree[s].0);
            lemma_moves_on(r, next, tree, l@, 0);
        },
        Event::Level(Ok(v)) => {
            assert(r.services@[s] == tree[s].0);
            assert(r.characteristics@[c] == cs[c].0);
        },
        Event::Descriptors(Ok(l)) => {
            let ds = cs[c].2;
            lemma_seek(l@, 0, USER_DESCRIPTION_UUID);
            let d = seek(l@, 0, USER_DESCRIPTION_UUID);
            assert forall|k: int| 0 <= k < d implies ds[k].0 != USER_DESCRIPTION_UUID by {
                assert(l@[k] == ds[k].0);
            }
            lemma_label_skip(ds, 0, d, None);
            if d >= l@.len() {
                let x = (r.level, label_from(ds, 0, None));
                lemma_moves_on(r, next, tree, r.characteristics@, c + 1);
                assert(next.entries() + remaining(next, tree) =~= e + (seq![x] + chars_from(
                    cs,
                    c + 1,
                ) + services_from(tree, s + 1)));
            }
        },
        Event::DescriptorValue(Ok(v)) => {
            let ds = cs[c].2;
            let d = r.descriptor as int;
            let acc = label_after(text_of(r.label), v@);
            assert(r.descriptors@[d] == ds[d].0);
            assert(label_from(ds, d, text_of(r.label)) == label_from(ds, d + 1, acc));
            lemma_seek(r.descriptors@, d + 1, USER_DESCRIPTION_UUID);
            let t = seek(r.descriptors@, d + 1, USER_DESCRIPTION_UUID);
            assert forall|k: int| d + 1 <= k < t implies ds[k].0 != USER_DESCRIPTION_UUID by {
                assert(r.descriptors@[k] == ds[k].0);
            }
            lemma_label_skip(ds, d + 1, t, acc);
            if t < r.descriptors@.len() {
                assert(r.descriptors.len() == r.descriptors@.len());
                assert(remaining(next, tree) == remaining(r, tree));
            } else {
                assert(label_from(ds, t, acc) == acc);
                let x = (r.level, acc);
                lemma_moves_on(r, next, tree, r.characteristics@, c + 1);
                assert(next.entries() + remaining(next, tree) =~= e + (seq![x] + chars_from(
                    cs,
                    c + 1,
                ) + services_from(tree, s + 1)));
            }
        },
        _ => {},
    }
}

/// A new read is on its way to the readings of any device.
pub proof fn lemma_new_read_on_track(r: BatteryReader, tree: Seq<ServiceNode>)
    requires
        r.wf(),
        r.phase == Phase::Resolving,
        r.entries() == Seq::<Entry>::empty(),
    ensures
        on_track(r, tree),
{
    assert(r.entries() + readings_of(tree) =~= readings_of(tree));
}

/// A read that is on its way to the readings of `tree` and has finished
/// without failure returns exactly those readings.
pub proof fn lemma_finished_read_on_track(r: BatteryReader, tree: Seq<ServiceNode>)
    requires
        on_track(r, tree),
        r.phase == Phase::Done,
        r.failure is None,
    ensures
        r.outcome_of() == Ok::<Seq<Entry>, BleError>(readings_of(tree)),
{
    assert(r.entries() + Seq::<Entry>::empty() =~= r.entries());
}

/// Every state of the read from the `i`-th on is on its way to the readings
/// of `tree`.
proof fn lemma_stays_on_track(
    tree: Seq<ServiceNode>,
    states: Seq<BatteryReader>,
    events: Seq<Event>,
    i: int,
)
    requires
        states.len() == events.len() + 1,
        0 <= i <= events.len(),
        on_track(states[i], tree),
        forall|j: int|
            0 <= j < events.len() ==> {
                &&& answers(tree, #[trigger] states[j], events[j])
                &&& states[j].steps_to(events[j], states[j + 1])
                &&& states[j + 1].wf()
            },
        states.last().failure is None,
    ensures
        on_track(states.last(), tree),
    decreases events.len() - i,
{
    if i < events.len() {
        if i + 1 < events.len() {
            assert(answers(tree, states[i + 1], events[i + 1]));
        } else {
            assert(states[i + 1] == states.last());
        }
        assert(answers(tree, states[i], events[i]));
        lemma_answer_keeps_on_track(states[i], tree, events[i], states[i + 1]);
        lemma_stays_on_track(tree, states, events, i + 1);
    } else {
        assert(states[i] == states.last());
    }
}

/// A read of a device that answers every action from its GATT tree `tree`,
/// and finishes without failure, returns exactly the readings of the tree:
/// one for each Battery Level characteristic of each Battery Service, in the
/// order the device lists them, each with the first byte of the value and the
/// last user description that is valid UTF-8. `states` are the states of the
/// read from its start, and `events` the answers between them.
pub proof fn lemma_read_returns_tree_readings(
    tree: Seq<ServiceNode>,
    states: Seq<BatteryReader>,
    events: Seq<Event>,
)
    requires
        states.len() == events.len() + 1,
        states[0].wf(),
        states[0].phase == Phase::Resolving,
        states[0].entries() == Seq::<Entry>::empty(),
        forall|i: int|
            0 <= i < events.len() ==> {
                &&& answers(tree, #[trigger] states[i], events[i])
                &&& states[i].steps_to(events[i], states[i + 1])
                &&& states[i + 1].wf()
            },
        states.last().phase == Phase::Done,
        states.last().failure is None,
    ensures
        states.last().outcome_of() == Ok::<Seq<Entry>, BleError>(readings_of(tree)),
{
    lemma_new_read_on_track(states[0], tree);
    lemma_stays_on_track(tree, states, events, 0);
    lemma_finished_read_on_track(states.last(), tree);
}

} // verus!
