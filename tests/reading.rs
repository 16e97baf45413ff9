use ble_battery::gatt::{BATTERY_LEVEL_UUID, BATTERY_SERVICE_UUID, USER_DESCRIPTION_UUID};
use ble_battery::model::{BatteryInfo, BleError};
use ble_battery::reader::{Action, BatteryReader, Event, Phase};

type Answer<T> = Result<T, String>;

struct FakeDescriptor {
    uuid: u128,
    value: Answer<Vec<u8>>,
}

struct FakeCharacteristic {
    uuid: u128,
    value: Answer<Vec<u8>>,
    descriptors: Answer<Vec<FakeDescriptor>>,
}

struct FakeService {
    uuid: u128,
    characteristics: Answer<Vec<FakeCharacteristic>>,
}

struct FakeDevice {
    id: String,
    connect: Answer<()>,
    services: Answer<Vec<FakeService>>,
}

fn uuids<T>(items: &Answer<Vec<T>>, uuid: fn(&T) -> u128) -> Answer<Vec<u128>> {
    match items {
        Ok(v) => Ok(v.iter().map(uuid).collect()),
        Err(e) => Err(e.clone()),
    }
}

fn service(d: &FakeDevice, s: usize) -> &FakeService {
    &d.services.as_ref().unwrap()[s]
}

fn characteristic(d: &FakeDevice, s: usize, c: usize) -> &FakeCharacteristic {
    &service(d, s).characteristics.as_ref().unwrap()[c]
}

/// Runs a read of `id` against the connected devices `devices`.
fn run(devices: Answer<Vec<FakeDevice>>, id: &str) -> (Vec<Action>, Result<Vec<BatteryInfo>, BleError>) {
    let mut reader = BatteryReader::new(id.to_string());
    let mut actions = Vec::new();
    let mut device: Option<&FakeDevice> = None;
    loop {
        let action = reader.next_action();
        actions.push(action);
        let ev = match action {
            Action::ListDevices => Event::Devices(match &devices {
                Ok(v) => Ok(v.iter().map(|d| d.id.clone()).collect()),
                Err(e) => Err(e.clone()),
            }),
            Action::Connect(k) => {
                let d = &devices.as_ref().unwrap()[k];
                device = Some(d);
                Event::Connected(d.connect.clone())
            }
            Action::ListServices => Event::Services(uuids(&device.unwrap().services, |s| s.uuid)),
            Action::ListCharacteristics(s) => Event::Characteristics(uuids(
                &service(device.unwrap(), s).characteristics,
                |c| c.uuid,
            )),
            Action::ReadLevel(s, c) => Event::Level(characteristic(device.unwrap(), s, c).value.clone()),
            Action::ListDescriptors(s, c) => Event::Descriptors(uuids(
                &characteristic(device.unwrap(), s, c).descriptors,
                |d| d.uuid,
            )),
            Action::ReadDescriptor(s, c, k) => Event::DescriptorValue(
                characteristic(device.unwrap(), s, c).descriptors.as_ref().unwrap()[k]
                    .value
                    .clone(),
            ),
            Action::Finish => break,
        };
        reader.step(ev);
    }
    (actions, reader.outcome())
}

fn level_characteristic(value: Answer<Vec<u8>>, descriptors: Vec<FakeDescriptor>) -> FakeCharacteristic {
    FakeCharacteristic {
        uuid: BATTERY_LEVEL_UUID,
        value,
        descriptors: Ok(descriptors),
    }
}

fn description(bytes: &[u8]) -> FakeDescriptor {
    FakeDescriptor {
        uuid: USER_DESCRIPTION_UUID,
        value: Ok(bytes.to_vec()),
    }
}

fn battery_service(characteristics: Vec<FakeCharacteristic>) -> FakeService {
    FakeService {
        uuid: BATTERY_SERVICE_UUID,
        characteristics: Ok(characteristics),
    }
}

fn device(id: &str, services: Vec<FakeService>) -> FakeDevice {
    FakeDevice {
        id: id.to_string(),
        connect: Ok(()),
        services: Ok(services),
    }
}

fn reading(level: Option<u8>, text: Option<&str>) -> BatteryInfo {
    BatteryInfo {
        battery_level: level,
        user_descriptor: text.map(|t| t.to_string()),
    }
}

#[test]
fn one_level_with_description() {
    let d = device(
        "DeviceId(7)",
        vec![battery_service(vec![level_characteristic(Ok(vec![0x4B]), vec![description(b"Left")])])],
    );
    let (_, r) = run(Ok(vec![d]), "DeviceId(7)");
    assert_eq!(r, Ok(vec![reading(Some(75), Some("Left"))]));
}

#[test]
fn empty_value_gives_no_level() {
    let d = device("A", vec![battery_service(vec![level_characteristic(Ok(Vec::new()), Vec::new())])]);
    let (_, r) = run(Ok(vec![d]), "A");
    assert_eq!(r, Ok(vec![reading(None, None)]));
}

#[test]
fn invalid_utf8_description_is_absent() {
    let d = device(
        "A",
        vec![battery_service(vec![level_characteristic(Ok(vec![50]), vec![description(&[0xFF, 0xFE, 0x80])])])],
    );
    let (_, r) = run(Ok(vec![d]), "A");
    assert_eq!(r, Ok(vec![reading(Some(50), None)]));
}

#[test]
fn two_battery_services_give_two_readings_in_order() {
    let d = device(
        "A",
        vec![
            battery_service(vec![level_characteristic(Ok(vec![90]), vec![description(b"Left")])]),
            battery_service(vec![level_characteristic(Ok(vec![40]), vec![description(b"Right")])]),
        ],
    );
    let (actions, r) = run(Ok(vec![d]), "A");
    assert_eq!(r, Ok(vec![reading(Some(90), Some("Left")), reading(Some(40), Some("Right"))]));
    assert!(actions.contains(&Action::ListCharacteristics(0)));
    assert!(actions.contains(&Action::ListCharacteristics(1)));
}

#[test]
fn level_read_error_aborts_the_read() {
    let d = device(
        "A",
        vec![battery_service(vec![level_characteristic(Err("read failed".to_string()), Vec::new())])],
    );
    let (_, r) = run(Ok(vec![d]), "A");
    assert_eq!(r, Err(BleError::CharacteristicReadFailed("read failed".to_string())));
}

#[test]
fn level_read_error_drops_earlier_readings() {
    let d = device(
        "A",
        vec![
            battery_service(vec![level_characteristic(Ok(vec![90]), Vec::new())]),
            battery_service(vec![level_characteristic(Err("timeout".to_string()), Vec::new())]),
        ],
    );
    let (_, r) = run(Ok(vec![d]), "A");
    assert_eq!(r, Err(BleError::CharacteristicReadFailed("timeout".to_string())));
}

#[test]
fn absent_id_is_device_not_found() {
    let d = device("A", vec![battery_service(vec![level_characteristic(Ok(vec![1]), Vec::new())])]);
    let (actions, r) = run(Ok(vec![d]), "B");
    assert_eq!(r, Err(BleError::DeviceNotFound));
    assert_eq!(actions, vec![Action::ListDevices, Action::Finish]);
}

#[test]
fn no_connected_devices_is_device_not_found() {
    let (_, r) = run(Ok(Vec::new()), "A");
    assert_eq!(r, Err(BleError::DeviceNotFound));
}

#[test]
fn target_is_found_among_several() {
    let a = device("A", vec![battery_service(vec![level_characteristic(Ok(vec![1]), Vec::new())])]);
    let b = device("B", vec![battery_service(vec![level_characteristic(Ok(vec![2]), Vec::new())])]);
    let (actions, r) = run(Ok(vec![a, b]), "B");
    assert_eq!(r, Ok(vec![reading(Some(2), None)]));
    assert!(actions.contains(&Action::Connect(1)));
}

#[test]
fn enumeration_error_fails_the_read() {
    let (_, r) = run(Err("no access".to_string()), "A");
    assert_eq!(r, Err(BleError::EnumerationFailed("no access".to_string())));
}

#[test]
fn connection_error_fails_the_read() {
    let mut d = device("A", Vec::new());
    d.connect = Err("refused".to_string());
    let (_, r) = run(Ok(vec![d]), "A");
    assert_eq!(r, Err(BleError::ConnectionFailed("refused".to_string())));
}

#[test]
fn service_discovery_error_fails_the_read() {
    let mut d = device("A", Vec::new());
    d.services = Err("gatt".to_string());
    let (_, r) = run(Ok(vec![d]), "A");
    assert_eq!(r, Err(BleError::ServiceDiscoveryFailed("gatt".to_string())));
}

#[test]
fn characteristic_discovery_error_fails_the_read() {
    let d = device(
        "A",
        vec![FakeService {
            uuid: BATTERY_SERVICE_UUID,
            characteristics: Err("lost".to_string()),
        }],
    );
    let (_, r) = run(Ok(vec![d]), "A");
    assert_eq!(r, Err(BleError::CharacteristicDiscoveryFailed("lost".to_string())));
}

#[test]
fn descriptor_discovery_error_fails_the_read() {
    let d = device(
        "A",
        vec![battery_service(vec![FakeCharacteristic {
            uuid: BATTERY_LEVEL_UUID,
            value: Ok(vec![10]),
            descriptors: Err("lost".to_string()),
        }])],
    );
    let (_, r) = run(Ok(vec![d]), "A");
    assert_eq!(r, Err(BleError::DescriptorDiscoveryFailed("lost".to_string())));
}

#[test]
fn descriptor_read_error_fails_the_read() {
    let d = device(
        "A",
        vec![battery_service(vec![level_characteristic(
            Ok(vec![10]),
            vec![FakeDescriptor {
                uuid: USER_DESCRIPTION_UUID,
                value: Err("denied".to_string()),
            }],
        )])],
    );
    let (_, r) = run(Ok(vec![d]), "A");
    assert_eq!(r, Err(BleError::DescriptorReadFailed("denied".to_string())));
}

#[test]
fn device_without_battery_service_reads_nothing() {
    let other = FakeService {
        uuid: 0x0000180A_0000_1000_8000_00805F9B34FB,
        characteristics: Err("never asked".to_string()),
    };
    let (actions, r) = run(Ok(vec![device("A", vec![other])]), "A");
    assert_eq!(r, Ok(Vec::new()));
    assert!(!actions.iter().any(|a| matches!(a, Action::ListCharacteristics(_))));
}

#[test]
fn other_characteristics_and_descriptors_are_skipped() {
    let other_char = FakeCharacteristic {
        uuid: 0x00002A1A_0000_1000_8000_00805F9B34FB,
        value: Err("never read".to_string()),
        descriptors: Err("never asked".to_string()),
    };
    let other_desc = FakeDescriptor {
        uuid: 0x00002902_0000_1000_8000_00805F9B34FB,
        value: Err("never read".to_string()),
    };
    let d = device(
        "A",
        vec![battery_service(vec![
            other_char,
            level_characteristic(Ok(vec![33, 1]), vec![other_desc, description(b"Case")]),
        ])],
    );
    let (_, r) = run(Ok(vec![d]), "A");
    assert_eq!(r, Ok(vec![reading(Some(33), Some("Case"))]));
}

#[test]
fn battery_service_without_level_reads_nothing() {
    let (_, r) = run(Ok(vec![device("A", vec![battery_service(Vec::new())])]), "A");
    assert_eq!(r, Ok(Vec::new()));
}

#[test]
fn last_valid_description_wins() {
    let d = device(
        "A",
        vec![battery_service(vec![level_characteristic(
            Ok(vec![60]),
            vec![description(b"First"), description(b"Second"), description(&[0xC3])],
        )])],
    );
    let (_, r) = run(Ok(vec![d]), "A");
    assert_eq!(r, Ok(vec![reading(Some(60), Some("Second"))]));
}

#[test]
fn two_levels_in_one_service() {
    let d = device(
        "A",
        vec![battery_service(vec![
            level_characteristic(Ok(vec![255]), Vec::new()),
            level_characteristic(Ok(vec![0]), vec![description("Étui".as_bytes())]),
        ])],
    );
    let (_, r) = run(Ok(vec![d]), "A");
    assert_eq!(r, Ok(vec![reading(Some(255), None), reading(Some(0), Some("Étui"))]));
}

#[test]
fn answer_to_another_action_changes_nothing() {
    let mut reader = BatteryReader::new("A".to_string());
    reader.step(Event::Connected(Ok(())));
    assert_eq!(reader.phase, Phase::Resolving);
    assert_eq!(reader.next_action(), Action::ListDevices);
}

#[test]
fn finished_read_ignores_answers() {
    let mut reader = BatteryReader::new("A".to_string());
    reader.step(Event::Devices(Ok(Vec::new())));
    assert_eq!(reader.next_action(), Action::Finish);
    reader.step(Event::Devices(Ok(vec!["A".to_string()])));
    assert_eq!(reader.next_action(), Action::Finish);
    assert_eq!(reader.outcome(), Err(BleError::DeviceNotFound));
}
