//! Reading the battery of one device: a walk over its GATT tree, driven one
//! platform answer at a time.
//!
//! The caller asks [`BatteryReader::next_action`] what to do, performs it on
//! the platform stack, and hands the answer back through
//! [`BatteryReader::step`], until the action is [`Action::Finish`]; then
//! [`BatteryReader::outcome`] is the result of the whole read.
use vstd::prelude::*;
use vstd::utf8::{decode_utf8, valid_utf8};

use crate::gatt::{
    find_uuid, lemma_seek, seek, BATTERY_LEVEL_UUID, BATTERY_SERVICE_UUID, USER_DESCRIPTION_UUID,
};
use crate::model::{BatteryInfo, BleError};

verus! {

/// Where a read stands.
#[derive(Debug, Clone, Copy, PartialEq, Eq, Structural)]
pub enum Phase {
    /// Waiting for the connected devices that report the battery services.
    Resolving,
    /// Waiting for the connection to the chosen device.
    Connecting,
    /// Waiting for the device's service list.
    Services,
    /// Waiting for the characteristics of the current Battery Service.
    Characteristics,
    /// Waiting for the value of the current Battery Level characteristic.
    Level,
    /// Waiting for the descriptors of the current Battery Level characteristic.
    Descriptors,
    /// Waiting for the value of the current user description descriptor.
    Descriptor,
    /// The read is over, with the readings or with an error.
    Done,
}

/// An answer of the platform stack. Each `Err` holds the stack's message.
#[derive(Debug, PartialEq, Eq)]
pub enum Event {
    /// The ids of the connected devices that report the battery services.
    Devices(Result<Vec<String>, String>),
    Connected(Result<(), String>),
    /// The UUIDs of the device's services, in the order the stack gives them.
    Services(Result<Vec<u128>, String>),
    /// The UUIDs of the current service's characteristics.
    Characteristics(Result<Vec<u128>, String>),
    /// The value of the current characteristic.
    Level(Result<Vec<u8>, String>),
    /// The UUIDs of the current characteristic's descriptors.
    Descriptors(Result<Vec<u128>, String>),
    /// The value of the current descriptor.
    DescriptorValue(Result<Vec<u8>, String>),
}

/// What the caller does next. Indices point into the lists that the caller
/// last handed over: devices, services, characteristics, descriptors.
#[derive(Debug, Clone, Copy, PartialEq, Eq, Structural)]
pub enum Action {
    ListDevices,
    Connect(usize),
    ListServices,
    ListCharacteristics(usize),
    ReadLevel(usize, usize),
    ListDescriptors(usize, usize),
    ReadDescriptor(usize, usize, usize),
    Finish,
}

/// The state of one battery read.
pub struct BatteryReader {
    /// The id of the device to read, as the scanner listed it.
    pub target: String,
    pub phase: Phase,
    /// The position of the target among the devices found.
    pub device: usize,
    pub services: Vec<u128>,
    /// The current Battery Service.
    pub service: usize,
    pub characteristics: Vec<u128>,
    /// The current Battery Level characteristic.
    pub characteristic: usize,
    /// The level read from the current characteristic.
    pub level: Option<u8>,
    pub descriptors: Vec<u128>,
    /// The current user description descriptor.
    pub descriptor: usize,
    /// The last valid description read for the current characteristic.
    pub label: Option<String>,
    pub readings: Vec<BatteryInfo>,
    pub failure: Option<BleError>,
}

/// The battery level that a characteristic value holds: its first byte.
pub open spec fn level_of(value: Seq<u8>) -> Option<u8> {
    if value.len() > 0 {
        Some(value[0])
    } else {
        None
    }
}

/// The text of an optional string.
pub open spec fn text_of(s: Option<String>) -> Option<Seq<char>> {
    match s {
        Some(t) => Some(t@),
        None => None,
    }
}

/// The description kept after reading a descriptor value: its text when it is
/// valid UTF-8, else the one kept before.
pub open spec fn label_after(before: Option<Seq<char>>, value: Seq<u8>) -> Option<Seq<char>> {
    if valid_utf8(value) {
        Some(decode_utf8(value))
    } else {
        before
    }
}

/// The text of the ids of the devices found.
pub open spec fn id_texts(ids: Seq<String>) -> Seq<Seq<char>> {
    ids.map_values(|s: String| s@)
}

/// The battery level of a characteristic value.
pub fn battery_level_of(value: &Vec<u8>) -> (r: Option<u8>)
    ensures
        r == level_of(value@),
{
    if value.len() > 0 {
        Some(value[0])
    } else {
        None
    }
}

/// Relies on `String::from_utf8`: it succeeds exactly on valid UTF-8, and
/// then holds the characters that the bytes encode.
#[verifier::external_body]
fn utf8_text(bytes: Vec<u8>) -> (r: Option<String>)
    ensures
        r is Some <==> valid_utf8(bytes@),
        r is Some ==> r->Some_0@ == decode_utf8(bytes@),
{
    String::from_utf8(bytes).ok()
}

/// The first position of the id `target` among `ids`.
fn find_id(ids: &Vec<String>, target: &String) -> (r: usize)
    ensures
        r == seek(id_texts(ids@), 0, target@),
{
    let ghost texts = id_texts(ids@);
    let mut i: usize = 0;
    while i < ids.len()
        invariant
            i <= ids@.len(),
            texts == id_texts(ids@),
            seek(texts, 0, target@) == seek(texts, i as int, target@),
        decreases ids@.len() - i,
    {
        if ids[i] == *target {
            return i;
        }
        i = i + 1;
    }
    i
}

impl BatteryReader {
    /// The readings so far, as `(level, description)`.
    pub open spec fn entries(self) -> Seq<(Option<u8>, Option<Seq<char>>)> {
        self.readings@.map_values(|r: BatteryInfo| r.entry())
    }

    /// No error is recorded before the end, and the indices of the current
    /// phase point at the attributes they name.
    pub open spec fn wf(self) -> bool {
        &&& (self.phase != Phase::Done ==> self.failure is None)
        &&& (self.phase == Phase::Characteristics || self.phase == Phase::Level || self.phase
            == Phase::Descriptors || self.phase == Phase::Descriptor) ==> {
            &&& self.service < self.services@.len()
            &&& self.services@[self.service as int] == BATTERY_SERVICE_UUID
        }
        &&& (self.phase == Phase::Level || self.phase == Phase::Descriptors || self.phase
            == Phase::Descriptor) ==> {
            &&& self.characteristic < self.characteristics@.len()
            &&& self.characteristics@[self.characteristic as int] == BATTERY_LEVEL_UUID
        }
        &&& self.phase == Phase::Descriptor ==> {
            &&& self.descriptor < self.descriptors@.len()
            &&& self.descriptors@[self.descriptor as int] == USER_DESCRIPTION_UUID
        }
    }

    /// What the caller is asked to do in this state.
    pub open spec fn action_of(self) -> Action {
        match self.phase {
            Phase::Resolving => Action::ListDevices,
            Phase::Connecting => Action::Connect(self.device),
            Phase::Services => Action::ListServices,
            Phase::Characteristics => Action::ListCharacteristics(self.service),
            Phase::Level => Action::ReadLevel(self.service, self.characteristic),
            Phase::Descriptors => Action::ListDescriptors(self.service, self.characteristic),
            Phase::Descriptor => Action::ReadDescriptor(
                self.service,
                self.characteristic,
                self.descriptor,
            ),
            Phase::Done => Action::Finish,
        }
    }

    /// Whether `ev` answers the action of this state.
    pub open spec fn expects(self, ev: Event) -> bool {
        match (self.phase, ev) {
            (Phase::Resolving, Event::Devices(_)) => true,
            (Phase::Connecting, Event::Connected(_)) => true,
            (Phase::Services, Event::Services(_)) => true,
            (Phase::Characteristics, Event::Characteristics(_)) => true,
            (Phase::Level, Event::Level(_)) => true,
            (Phase::Descriptors, Event::Descriptors(_)) => true,
            (Phase::Descriptor, Event::DescriptorValue(_)) => true,
            _ => false,
        }
    }

    /// `next` has ended the read with `e`.
    pub open spec fn stopped(next: BatteryReader, e: BleError) -> bool {
        next.phase == Phase::Done && next.failure == Some(e)
    }

    /// `next` goes on from this state with the characteristics `chars` of the
    /// current service: to the first Battery Level characteristic at or after
    /// `from`; failing that, to the next Battery Service; failing that, to the
    /// end of the read.
    pub open spec fn moves_on(self, next: BatteryReader, chars: Seq<u128>, from: int) -> bool {
        let c = seek(chars, from, BATTERY_LEVEL_UUID);
        let s = seek(self.services@, self.service + 1, BATTERY_SERVICE_UUID);
        &&& next.characteristics@ == chars
        &&& next.target == self.target
        &&& next.device == self.device
        &&& next.services == self.services
        &&& next.failure == self.failure
        &&& if c < chars.len() {
            next.phase == Phase::Level && next.service == self.service && next.characteristic == c
        } else if s < self.services@.len() {
            next.phase == Phase::Characteristics && next.service == s
        } else {
            next.phase == Phase::Done
        }
    }

    /// `next` has recorded the reading of the current characteristic, with the
    /// description `label`, and gone on to what follows it.
    pub open spec fn completes(
        self,
        next: BatteryReader,
        label: Option<Seq<char>>,
    ) -> bool {
        &&& next.entries() == self.entries().push((self.level, label))
        &&& self.moves_on(next, self.characteristics@, self.characteristic + 1)
    }

    /// How one answer of the platform stack changes the state.
    pub open spec fn steps_to(self, ev: Event, next: BatteryReader) -> bool {
        if !self.expects(ev) {
            next == self
        } else {
            match ev {
                Event::Devices(Err(m)) => Self::stopped(next, BleError::EnumerationFailed(m)),
                Event::Devices(Ok(ids)) => {
                    let k = seek(id_texts(ids@), 0, self.target@);
                    if k < ids@.len() {
                        next == BatteryReader { phase: Phase::Connecting, device: k as usize, ..self }
                    } else {
                        Self::stopped(next, BleError::DeviceNotFound)
                    }
                },
                Event::Connected(Err(m)) => Self::stopped(next, BleError::ConnectionFailed(m)),
                Event::Connected(Ok(())) => next == BatteryReader { phase: Phase::Services, ..self },
                Event::Services(Err(m)) => Self::stopped(
                    next,
                    BleError::ServiceDiscoveryFailed(m),
                ),
                Event::Services(Ok(list)) => {
                    let s = seek(list@, 0, BATTERY_SERVICE_UUID);
                    if s < list@.len() {
                        next == BatteryReader {
                            phase: Phase::Characteristics,
                            services: list,
                            service: s as usize,
                            ..self
                        }
                    } else {
                        next == BatteryReader { phase: Phase::Done, services: list, ..self }
                    }
                },
                Event::Characteristics(Err(m)) => Self::stopped(
                    next,
                    BleError::CharacteristicDiscoveryFailed(m),
                ),
                Event::Characteristics(Ok(list)) => {
                    &&& self.moves_on(next, list@, 0)
                    &&& next.readings == self.readings
                },
                Event::Level(Err(m)) => Self::stopped(next, BleError::CharacteristicReadFailed(m)),
                Event::Level(Ok(value)) => next == BatteryReader {
                    phase: Phase::Descriptors,
                    level: level_of(value@),
                    label: None,
                    ..self
                },
                Event::Descriptors(Err(m)) => Self::stopped(
                    next,
                    BleError::DescriptorDiscoveryFailed(m),
                ),
                Event::Descriptors(Ok(list)) => {
                    let d = seek(list@, 0, USER_DESCRIPTION_UUID);
                    if d < list@.len() {
                        next == BatteryReader {
                            phase: Phase::Descriptor,
                            descriptors: list,
                            descriptor: d as usize,
                            ..self
                        }
                    } else {
                        self.completes(next, text_of(self.label))
                    }
                },
                Event::DescriptorValue(Err(m)) => Self::stopped(
                    next,
                    BleError::DescriptorReadFailed(m),
                ),
                Event::DescriptorValue(Ok(value)) => {
                    let label = label_after(text_of(self.label), value@);
                    let d = seek(self.descriptors@, self.descriptor + 1, USER_DESCRIPTION_UUID);
                    if d < self.descriptors@.len() {
                        &&& next == BatteryReader {
                            descriptor: d as usize,
                            label: next.label,
                            ..self
                        }
                        &&& text_of(next.label) == label
                    } else {
                        self.completes(next, label)
                    }
                },
            }
        }
    }

    /// What the read of `self` has come to, once it is over.
    pub open spec fn outcome_of(self) -> Result<Seq<(Option<u8>, Option<Seq<char>>)>, BleError> {
        match self.failure {
            Some(e) => Err(e),
            None => Ok(self.entries()),
        }
    }
}

impl BatteryReader {
    /// A read of the device listed under `target`, before anything was asked.
    pub fn new(target: String) -> (r: BatteryReader)
        ensures
            r.wf(),
            r.target == target,
            r.phase == Phase::Resolving,
            r.failure is None,
            r.entries() == Seq::<(Option<u8>, Option<Seq<char>>)>::empty(),
    {
        let r = BatteryReader {
            target,
            phase: Phase::Resolving,
            device: 0,
            services: Vec::new(),
            service: 0,
            characteristics: Vec::new(),
            characteristic: 0,
            level: None,
            descriptors: Vec::new(),
            descriptor: 0,
            label: None,
            readings: Vec::new(),
            failure: None,
        };
        assert(r.entries() =~= Seq::<(Option<u8>, Option<Seq<char>>)>::empty());
        r
    }

    /// What the caller is to do next.
    pub fn next_action(&self) -> (r: Action)
        ensures
            r == self.action_of(),
    {
        match self.phase {
            Phase::Resolving => Action::ListDevices,
            Phase::Connecting => Action::Connect(self.device),
            Phase::Services => Action::ListServices,
            Phase::Characteristics => Action::ListCharacteristics(self.service),
            Phase::Level => Action::ReadLevel(self.service, self.characteristic),
            Phase::Descriptors => Action::ListDescriptors(self.service, self.characteristic),
            Phase::Descriptor => Action::ReadDescriptor(
                self.service,
                self.characteristic,
                self.descriptor,
            ),
            Phase::Done => Action::Finish,
        }
    }

    fn stop(&mut self, e: BleError)
        ensures
            Self::stopped(*final(self), e),
            final(self).wf(),
    {
        self.phase = Phase::Done;
        self.failure = Some(e);
    }

    fn move_on(&mut self, from: usize)
        requires
            old(self).service < old(self).services@.len(),
            old(self).services@[old(self).service as int] == BATTERY_SERVICE_UUID,
            from <= old(self).characteristics@.len(),
            old(self).failure is None,
        ensures
            old(self).moves_on(*final(self), old(self).characteristics@, from as int),
            final(self).readings == old(self).readings,
            final(self).wf(),
    {
        let c = find_uuid(&self.characteristics, from, BATTERY_LEVEL_UUID);
        proof {
            lemma_seek(self.characteristics@, from as int, BATTERY_LEVEL_UUID);
        }
        if c < self.characteristics.len() {
            self.phase = Phase::Level;
            self.characteristic = c;
        } else {
            proof {
                assert(self.services.len() == self.services@.len());
            }
            let s = find_uuid(&self.services, self.service + 1, BATTERY_SERVICE_UUID);
            proof {
                lemma_seek(self.services@, self.service + 1, BATTERY_SERVICE_UUID);
            }
            if s < self.services.len() {
                self.phase = Phase::Characteristics;
                self.service = s;
            } else {
                self.phase = Phase::Done;
            }
        }
    }

    fn record(&mut self)
        ensures
            final(self).entries() == old(self).entries().push(
                (old(self).level, text_of(old(self).label)),
            ),
            *final(self) == (BatteryReader {
                readings: final(self).readings,
                label: None,
                ..*old(self)
            }),
    {
        let mut label: Option<String> = None;
        std::mem::swap(&mut label, &mut self.label);
        let reading = BatteryInfo { battery_level: self.level, user_descriptor: label };
        assert(reading.entry() == (self.level, text_of(label)));
        self.readings.push(reading);
        assert(self.entries() =~= old(self).entries().push((self.level, text_of(label))));
    }

    /// Takes in the platform's answer to the current action. An answer to
    /// another action, or any answer once the read is over, changes nothing.
    pub fn step(&mut self, ev: Event)
        requires
            old(self).wf(),
        ensures
            final(self).wf(),
            old(self).steps_to(ev, *final(self)),
    {
        match ev {
            Event::Devices(found) => {
                if self.phase == Phase::Resolving {
                    match found {
                        Err(m) => self.stop(BleError::EnumerationFailed(m)),
                        Ok(ids) => {
                            let k = find_id(&ids, &self.target);
                            if k < ids.len() {
                                self.phase = Phase::Connecting;
                                self.device = k;
                            } else {
                                self.stop(BleError::DeviceNotFound);
                            }
                        },
                    }
                }
            },
            Event::Connected(done) => {
                if self.phase == Phase::Connecting {
                    match done {
                        Err(m) => self.stop(BleError::ConnectionFailed(m)),
                        Ok(()) => {
                            self.phase = Phase::Services;
                        },
                    }
                }
            },
            Event::Services(found) => {
                if self.phase == Phase::Services {
                    match found {
                        Err(m) => self.stop(BleError::ServiceDiscoveryFailed(m)),
                        Ok(list) => {
                            let s = find_uuid(&list, 0, BATTERY_SERVICE_UUID);
                            proof {
                                lemma_seek(list@, 0, BATTERY_SERVICE_UUID);
                            }
                            if s < list.len() {
                                self.phase = Phase::Characteristics;
                                self.service = s;
                            } else {
                                self.phase = Phase::Done;
                            }
                            self.services = list;
                        },
                    }
                }
            },
            Event::Characteristics(found) => {
                if self.phase == Phase::Characteristics {
                    match found {
                        Err(m) => self.stop(BleError::CharacteristicDiscoveryFailed(m)),
                        Ok(list) => {
                            self.characteristics = list;
                            self.move_on(0);
                        },
                    }
                }
            },
            Event::Level(read) => {
                if self.phase == Phase::Level {
                    match read {
                        Err(m) => self.stop(BleError::CharacteristicReadFailed(m)),
                        Ok(value) => {
                            self.level = battery_level_of(&value);
                            self.label = None;
                            self.phase = Phase::Descriptors;
                        },
                    }
                }
            },
            Event::Descriptors(found) => {
                if self.phase == Phase::Descriptors {
                    match found {
                        Err(m) => self.stop(BleError::DescriptorDiscoveryFailed(m)),
                        Ok(list) => {
                            let d = find_uuid(&list, 0, USER_DESCRIPTION_UUID);
                            proof {
                                lemma_seek(list@, 0, USER_DESCRIPTION_UUID);
                            }
                            if d < list.len() {
                                self.phase = Phase::Descriptor;
                                self.descriptor = d;
                                self.descriptors = list;
                            } else {
                                proof {
                                    assert(self.characteristics.len() == self.characteristics@.len());
                                }
                                self.record();
                                self.move_on(self.characteristic + 1);
                            }
                        },
                    }
                }
            },
            Event::DescriptorValue(read) => {
                if self.phase == Phase::Descriptor {
                    match read {
                        Err(m) => self.stop(BleError::DescriptorReadFailed(m)),
                        Ok(value) => {
                            let text = utf8_text(value);
                            match text {
                                Some(t) => {
                                    self.label = Some(t);
                                },
                                None => {},
                            }
                            proof {
                                assert(self.descriptors.len() == self.descriptors@.len());
                            }
                            let d = find_uuid(
                                &self.descriptors,
                                self.descriptor + 1,
                                USER_DESCRIPTION_UUID,
                            );
                            proof {
                                lemma_seek(
                                    self.descriptors@,
                                    self.descriptor + 1,
                                    USER_DESCRIPTION_UUID,
                                );
                            }
                            if d < self.descriptors.len() {
                                self.descriptor = d;
                            } else {
                                proof {
                                    assert(self.characteristics.len() == self.characteristics@.len());
                                }
                                self.record();
                                self.move_on(self.characteristic + 1);
                            }
                        },
                    }
                }
            },
        }
    }

    /// The result of a finished read: its error, or the readings in the order
    /// they were taken.
    pub fn outcome(self) -> (r: Result<Vec<BatteryInfo>, BleError>)
        requires
            self.phase == Phase::Done,
        ensures
            match r {
                Ok(v) => self.outcome_of() == Ok::<_, BleError>(
                    v@.map_values(|x: BatteryInfo| x.entry()),
                ),
                Err(e) => self.outcome_of() == Err::<Seq<(Option<u8>, Option<Seq<char>>)>, _>(e),
            },
    {
        match self.failure {
            Some(e) => Err(e),
            None => Ok(self.readings),
        }
    }
}

/// A read whose target is not among the connected devices found ends with
/// `DeviceNotFound`, whatever else is true of that device.
pub proof fn lemma_absent_id_not_found(r: BatteryReader, ids: Vec<String>, next: BatteryReader)
    requires
        r.phase == Phase::Resolving,
        !id_texts(ids@).contains(r.target@),
        r.steps_to(Event::Devices(Ok(ids)), next),
    ensures
        next.phase == Phase::Done,
        next.outcome_of() == Err::<Seq<(Option<u8>, Option<Seq<char>>)>, _>(
            BleError::DeviceNotFound,
        ),
{
    let texts = id_texts(ids@);
    lemma_seek(texts, 0, r.target@);
    let k = seek(texts, 0, r.target@);
    if k < ids@.len() {
        assert(texts[k] == r.target@);
        assert(texts.contains(r.target@));
    }
}

/// A failed read of a Battery Level characteristic ends the whole read with
/// `CharacteristicReadFailed`, carrying the platform's message; no readings
/// taken before it are returned.
pub proof fn lemma_level_read_error_aborts(r: BatteryReader, m: String, next: BatteryReader)
    requires
        r.phase == Phase::Level,
        r.steps_to(Event::Level(Err(m)), next),
    ensures
        next.phase == Phase::Done,
        next.outcome_of() == Err::<Seq<(Option<u8>, Option<Seq<char>>)>, _>(
            BleError::CharacteristicReadFailed(m),
        ),
{
}

/// A finished read stays as it is: no later answer changes its outcome.
pub proof fn lemma_finished_read_stays(r: BatteryReader, ev: Event, next: BatteryReader)
    requires
        r.phase == Phase::Done,
        r.steps_to(ev, next),
    ensures
        next == r,
        next.outcome_of() == r.outcome_of(),
{
}

/// Readings are only appended: an answer that does not end the read in
/// failure keeps every reading taken so far, in place, and adds at most one
/// after them.
pub proof fn lemma_readings_appended(r: BatteryReader, ev: Event, next: BatteryReader)
    requires
        r.wf(),
        r.steps_to(ev, next),
        next.failure is None,
    ensures
        r.entries().len() <= next.entries().len() <= r.entries().len() + 1,
        next.entries().take(r.entries().len() as int) == r.entries(),
{
    assert(r.entries().take(r.entries().len() as int) =~= r.entries());
    if next.entries().len() == r.entries().len() + 1 {
        assert(next.entries().take(r.entries().len() as int) =~= r.entries());
    }
}

} // verus!
