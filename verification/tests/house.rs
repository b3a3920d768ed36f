use smart_home::smart::location::{SmartHouse, SmartRoom};
use smart_home::smart::{Pluggable, Reportable, SmartError};
use std::sync::Arc;

struct Socket {
    name: String,
}

impl Socket {
    fn new(name: &str) -> Self {
        Socket { name: name.to_string() }
    }
}

impl Pluggable for Socket {
    // The ghost name serves proofs only and never runs.
    fn spec_name(&self) -> vstd::seq::Seq<char> {
        unreachable!()
    }

    fn name(&self) -> &str {
        &self.name
    }
}

/// Lists the house, its rooms and their devices, one per line.
struct Inventory;

impl Reportable for Inventory {
    fn make(&self, house: &SmartHouse) -> Result<String, SmartError> {
        let mut text = house.display();
        for room in house.get_rooms() {
            text.push_str(&room.display());
            for device in room.devices() {
                text.push_str(&format!("---> Device: {}\n", device));
            }
        }
        Ok(text)
    }
}

/// Counts the devices of the whole house.
struct DeviceCount;

impl Reportable for DeviceCount {
    fn make(&self, house: &SmartHouse) -> Result<String, SmartError> {
        let count: usize = house.get_rooms().iter().map(|room| room.devices().len()).sum();
        Ok(format!("{}: {} device(s)", house.name(), count))
    }
}

/// Puts the name of the house and the names of its rooms in one line.
struct RoomList;

impl Reportable for RoomList {
    fn make(&self, house: &SmartHouse) -> Result<String, SmartError> {
        let mut text = house.name().to_string();
        for room in house.get_rooms() {
            text.push_str(&format!(" | {} {:?}", room.name(), room.devices()));
        }
        Ok(text)
    }
}

/// Fails unless the house has a room.
struct NeedsRooms;

impl Reportable for NeedsRooms {
    fn make(&self, house: &SmartHouse) -> Result<String, SmartError> {
        if house.get_rooms().is_empty() {
            Err(SmartError::Propagated(format!("{} has no rooms", house.name())))
        } else {
            Ok(format!("{} room(s)", house.get_rooms().len()))
        }
    }
}

fn room(name: &str) -> SmartRoom {
    SmartRoom::new(name.to_string())
}

fn room_names(house: &SmartHouse) -> Vec<String> {
    house.get_rooms().iter().map(|room| room.name().to_string()).collect()
}

#[test]
fn new_house_has_its_name_and_no_rooms() {
    let house = SmartHouse::new(String::from("My Smart Home"));
    assert_eq!(house.name(), "My Smart Home");
    assert!(house.get_rooms().is_empty());
}

#[test]
fn add_keeps_the_order_of_adding() {
    let mut house = SmartHouse::new(String::from("My Smart Home"));
    assert_eq!(house.add(room("Living Room")), Ok(()));
    assert_eq!(house.add(room("Bedroom")), Ok(()));
    assert_eq!(house.add(room("Attic")), Ok(()));
    assert_eq!(room_names(&house), ["Living Room", "Bedroom", "Attic"]);
}

#[test]
fn add_rejects_a_second_room_of_the_same_name() {
    let mut house = SmartHouse::new(String::from("My Smart Home"));
    assert_eq!(house.add(room("Living Room")), Ok(()));
    assert_eq!(
        house.add(room("Living Room")),
        Err(SmartError::DuplicateName(String::from("Living Room")))
    );
    assert_eq!(house.get_rooms().len(), 1);
    assert_eq!(room_names(&house), ["Living Room"]);
}

#[test]
fn add_keeps_the_first_room_when_it_rejects_the_second() {
    let mut house = SmartHouse::new(String::from("H"));
    let mut first = room("Kitchen");
    first.plug(Arc::new(Socket::new("Toaster"))).unwrap();
    let mut second = room("Kitchen");
    second.plug(Arc::new(Socket::new("Mixer"))).unwrap();
    assert!(house.add(first).is_ok());
    assert!(house.add(second).is_err());
    assert_eq!(house.get_rooms().len(), 1);
    assert_eq!(house.get_rooms()[0].devices(), ["Toaster"]);
}

#[test]
fn add_keeps_the_devices_of_the_room() {
    let mut house = SmartHouse::new(String::from("H"));
    let mut kitchen = room("Kitchen");
    kitchen.plug(Arc::new(Socket::new("Toaster"))).unwrap();
    kitchen.plug(Arc::new(Socket::new("Mixer"))).unwrap();
    house.add(room("Hall")).unwrap();
    house.add(kitchen).unwrap();
    assert!(house.get_rooms()[0].devices().is_empty());
    assert_eq!(house.get_rooms()[1].devices(), ["Toaster", "Mixer"]);
    assert!(house.get_rooms()[1].is_connected(&Socket::new("Mixer")));
}

#[test]
fn del_takes_the_named_room_out() {
    let mut house = SmartHouse::new(String::from("H"));
    house.add(room("Kitchen")).unwrap();
    house.add(room("Hall")).unwrap();
    house.del("Kitchen");
    assert_eq!(room_names(&house), ["Hall"]);
}

#[test]
fn del_of_an_absent_name_changes_nothing() {
    let mut house = SmartHouse::new(String::from("H"));
    let mut kitchen = room("Kitchen");
    kitchen.plug(Arc::new(Socket::new("Toaster"))).unwrap();
    house.add(kitchen).unwrap();
    house.add(room("Hall")).unwrap();
    house.del("Garage");
    assert_eq!(house.name(), "H");
    assert_eq!(room_names(&house), ["Kitchen", "Hall"]);
    assert_eq!(house.get_rooms()[0].devices(), ["Toaster"]);
}

#[test]
fn del_from_an_empty_house_changes_nothing() {
    let mut house = SmartHouse::new(String::from("H"));
    house.del("Kitchen");
    assert_eq!(house.name(), "H");
    assert!(house.get_rooms().is_empty());
}

#[test]
fn del_keeps_the_order_of_the_others() {
    let mut house = SmartHouse::new(String::from("H"));
    for name in ["a", "b", "c", "d", "e"] {
        house.add(room(name)).unwrap();
    }
    house.del("b");
    assert_eq!(room_names(&house), ["a", "c", "d", "e"]);
    house.del("e");
    assert_eq!(room_names(&house), ["a", "c", "d"]);
    house.del("a");
    assert_eq!(room_names(&house), ["c", "d"]);
}

#[test]
fn a_name_can_be_added_again_after_del_and_then_comes_last() {
    let mut house = SmartHouse::new(String::from("H"));
    house.add(room("Kitchen")).unwrap();
    house.add(room("Hall")).unwrap();
    house.del("Kitchen");
    assert_eq!(house.add(room("Kitchen")), Ok(()));
    assert_eq!(room_names(&house), ["Hall", "Kitchen"]);
}

#[test]
fn house_display_is_exact() {
    let house = SmartHouse::new(String::from("My Smart Home"));
    assert_eq!(house.display(), "-> House: My Smart Home\n");
}

#[test]
fn house_display_does_not_depend_on_the_rooms() {
    let mut house = SmartHouse::new(String::from("My Smart Home"));
    house.add(room("Kitchen")).unwrap();
    assert_eq!(house.display(), "-> House: My Smart Home\n");
}

#[test]
fn create_report_hands_back_the_text_of_the_reporter() {
    let mut house = SmartHouse::new(String::from("My Smart Home"));
    let mut kitchen = room("Kitchen");
    kitchen.plug(Arc::new(Socket::new("Toaster"))).unwrap();
    kitchen.plug(Arc::new(Socket::new("Mixer"))).unwrap();
    let mut hall = room("Hall");
    hall.plug(Arc::new(Socket::new("Lamp"))).unwrap();
    house.add(kitchen).unwrap();
    house.add(hall).unwrap();
    house.add(room("Attic")).unwrap();

    assert_eq!(
        house.create_report(Inventory),
        Ok(String::from(
            "-> House: My Smart Home\n\
             --> Room: Kitchen\n\
             ---> Device: Toaster\n\
             ---> Device: Mixer\n\
             --> Room: Hall\n\
             ---> Device: Lamp\n\
             --> Room: Attic\n"
        ))
    );
    assert_eq!(
        house.create_report(DeviceCount),
        Ok(String::from("My Smart Home: 3 device(s)"))
    );
}

#[test]
fn create_report_hands_back_the_failure_of_the_reporter() {
    let mut house = SmartHouse::new(String::from("H"));
    assert_eq!(
        house.create_report(NeedsRooms),
        Err(SmartError::Propagated(String::from("H has no rooms")))
    );
    house.add(room("Kitchen")).unwrap();
    assert_eq!(house.create_report(NeedsRooms), Ok(String::from("1 room(s)")));
}

#[test]
fn create_report_leaves_the_house_as_it_was() {
    let mut house = SmartHouse::new(String::from("H"));
    house.add(room("Kitchen")).unwrap();
    house.create_report(RoomList).unwrap();
    assert_eq!(house.name(), "H");
    assert_eq!(room_names(&house), ["Kitchen"]);
}

#[test]
fn clone_copies_the_rooms() {
    let mut house = SmartHouse::new(String::from("H"));
    let mut kitchen = room("Kitchen");
    kitchen.plug(Arc::new(Socket::new("Toaster"))).unwrap();
    house.add(kitchen).unwrap();
    house.add(room("Hall")).unwrap();

    let mut copy = house.clone();
    assert_eq!(copy.name(), "H");
    assert_eq!(room_names(&copy), ["Kitchen", "Hall"]);
    assert_eq!(copy.get_rooms()[0].devices(), ["Toaster"]);

    copy.del("Kitchen");
    assert_eq!(room_names(&copy), ["Hall"]);
    assert_eq!(room_names(&house), ["Kitchen", "Hall"]);
}

#[test]
fn end_to_end() {
    let mut house = SmartHouse::new(String::from("H"));

    let mut kitchen = room("Kitchen");
    assert_eq!(kitchen.plug(Arc::new(Socket::new("Toaster"))), Ok(()));
    assert_eq!(
        kitchen.plug(Arc::new(Socket::new("Toaster"))),
        Err(SmartError::DuplicateName(String::from("Toaster")))
    );

    assert_eq!(house.add(kitchen), Ok(()));
    assert_eq!(
        house.add(room("Kitchen")),
        Err(SmartError::DuplicateName(String::from("Kitchen")))
    );

    assert_eq!(house.get_rooms().len(), 1);
    assert_eq!(house.get_rooms()[0].devices(), ["Toaster"]);
    assert_eq!(
        house.create_report(RoomList),
        Ok(String::from("H | Kitchen [\"Toaster\"]"))
    );
    assert_eq!(house.create_report(RoomList), house.create_report(RoomList));
}
