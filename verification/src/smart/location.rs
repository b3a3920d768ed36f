//! The house and its rooms.

use std::sync::Arc;
use vstd::prelude::*;
use vstd::string::StringExecFns;
use crate::smart::device::{share, Pluggable};
use crate::smart::error::SmartError;
use crate::smart::model::{lemma_deleted_is_gone, lemma_unplugged_is_gone, HouseView, RoomView};
use crate::smart::report::Reportable;
use crate::smart::text::same_text;

verus! {

/// A named room that holds devices, no two of them with the same name.
///
/// The room shares each device with whoever else holds it; it only stores the
/// device and looks it up by name.
pub struct SmartRoom {
    name: String,
    devices: Vec<Arc<dyn Pluggable>>,
}

/// Puts `item` behind the last of `items`.
///
/// The item comes first so that its type is settled by the item itself:
/// a shared trait object that is passed where a shared trait object is
/// already expected counts as a conversion, which the verifier cannot follow.
fn append_to<T>(item: T, items: &mut Vec<T>)
    ensures
        final(items)@ == old(items)@.push(item),
{
    items.push(item);
}

/// The names of `devices`, in their order.
spec fn names_of(devices: Seq<Arc<dyn Pluggable>>) -> Seq<Seq<char>> {
    devices.map_values(|d: Arc<dyn Pluggable>| d.spec_name())
}

impl View for SmartRoom {
    type V = RoomView;

    closed spec fn view(&self) -> RoomView {
        RoomView { name: self.name@, devices: names_of(self.devices@) }
    }
}

impl Clone for SmartRoom {
    /// Copies the room: the copy has the same name and shares the same
    /// devices, in the same order.
    fn clone(&self) -> (copy: SmartRoom)
        ensures
            copy@ == self@,
    {
        proof {
            use_type_invariant(self);
        }
        let mut devices = Vec::new();
        let mut i: usize = 0;
        while i < self.devices.len()
            invariant
                i <= self.devices.len(),
                devices@ == self.devices@.take(i as int),
            decreases self.devices.len() - i,
        {
            devices.push(share(&self.devices[i]));
            proof {
                assert(devices@ =~= self.devices@.take(i + 1));
            }
            i += 1;
        }
        proof {
            assert(devices@ =~= self.devices@);
        }
        SmartRoom { name: self.name.clone(), devices }
    }
}

impl PartialEq for SmartRoom {
    /// Two rooms are equal when they have the same name, whatever devices
    /// they hold.
    fn eq(&self, other: &Self) -> (same: bool) {
        same_text(self.name.as_str(), other.name.as_str())
    }
}

impl vstd::std_specs::cmp::PartialEqSpecImpl for SmartRoom {
    open spec fn obeys_eq_spec() -> bool {
        true
    }

    open spec fn eq_spec(&self, other: &Self) -> bool {
        self@.name == other@.name
    }
}

impl SmartRoom {
    #[verifier::type_invariant]
    spec fn inv(&self) -> bool {
        self@.wf()
    }

    /// Makes a room called `name` with no devices.
    pub fn new(name: String) -> (room: SmartRoom)
        ensures
            room@ == RoomView::empty(name@),
            room@.wf(),
    {
        let devices: Vec<Arc<dyn Pluggable>> = Vec::new();
        proof {
            assert(names_of(devices@) =~= Seq::empty());
        }
        SmartRoom { name, devices }
    }

    /// Returns the name of the room.
    pub fn name(&self) -> (name: &str)
        ensures
            name@ == self@.name,
    {
        self.name.as_str()
    }

    /// Looks for the first device called `wanted`.
    fn position(&self, wanted: &str) -> (found: Option<usize>)
        ensures
            match found {
                Some(i) => self@.devices.index_of_first(wanted@) == Some(i as int),
                None => self@.devices.index_of_first(wanted@) is None,
            },
            found is Some <==> self@.is_connected(wanted@),
            found matches Some(i) ==> i < self.devices@.len(),
    {
        let mut i: usize = 0;
        while i < self.devices.len()
            invariant
                i <= self.devices.len(),
                forall|k: int| 0 <= k < i ==> self@.devices[k] != wanted@,
            decreases self.devices.len() - i,
        {
            if same_text(self.devices[i].name(), wanted) {
                proof {
                    assert(self@.devices[i as int] == wanted@);
                    self@.devices.index_of_first_ensures(wanted@);
                    let first: int = self@.devices.index_of_first(wanted@).unwrap();
                    assert(self@.devices[first] == wanted@);
                    assert(first == i);
                }
                return Some(i);
            }
            i += 1;
        }
        proof {
            self@.devices.index_of_first_ensures(wanted@);
        }
        None
    }

    /// Plugs `device` into the room, behind the devices that are there.
    ///
    /// Fails with [`SmartError::DuplicateName`], which carries the name, when
    /// a device of that name is plugged in already; the room then stays as it
    /// was.
    pub fn plug(&mut self, device: Arc<dyn Pluggable>) -> (res: Result<(), SmartError>)
        ensures
            final(self)@ == old(self)@.with_device(device.spec_name()),
            final(self)@.wf(),
            old(self)@.is_connected(device.spec_name()) ==> (res matches Err(
                SmartError::DuplicateName(name),
            ) && name@ == device.spec_name()),
            !old(self)@.is_connected(device.spec_name()) ==> res is Ok,
    {
        proof {
            use_type_invariant(&*self);
        }
        match self.position(device.name()) {
            Some(_) => Err(SmartError::DuplicateName(device.name().to_owned())),
            None => {
                // The list is taken out, changed and put back, so that the
                // room is well formed at every point at which it can be seen.
                let mut devices = Vec::new();
                core::mem::swap(&mut self.devices, &mut devices);
                append_to(device, &mut devices);
                proof {
                    assert(names_of(devices@) =~= names_of(old(self).devices@).push(
                        device.spec_name(),
                    ));
                }
                self.devices = devices;
                Ok(())
            },
        }
    }

    /// Takes the first device called `device` out of the room. Does nothing
    /// when there is none.
    pub fn unplug(&mut self, device: &str)
        ensures
            final(self)@ == old(self)@.without_device(device@),
            final(self)@.wf(),
            !final(self)@.is_connected(device@),
    {
        proof {
            use_type_invariant(&*self);
            lemma_unplugged_is_gone(self@, device@);
        }
        if let Some(index) = self.position(device) {
            let mut devices = Vec::new();
            core::mem::swap(&mut self.devices, &mut devices);
            devices.remove(index);
            proof {
                assert(names_of(devices@) =~= names_of(old(self).devices@).remove(index as int));
            }
            self.devices = devices;
        }
    }

    /// Tells whether a device with the name of `device` is plugged in. Only
    /// the name counts: `device` need not be the object that was plugged in.
    pub fn is_connected(&self, device: &dyn Pluggable) -> (connected: bool)
        ensures
            connected == self@.is_connected(device.spec_name()),
    {
        self.position(device.name()).is_some()
    }

    /// Returns the names of the devices, in the order in which they were
    /// plugged in. No name occurs twice.
    pub fn devices(&self) -> (names: Vec<String>)
        ensures
            names.deep_view() == self@.devices,
            self@.wf(),
    {
        proof {
            use_type_invariant(self);
        }
        let mut names: Vec<String> = Vec::new();
        let mut i: usize = 0;
        while i < self.devices.len()
            invariant
                i <= self.devices.len(),
                names@.len() == i,
                forall|k: int| 0 <= k < i ==> (#[trigger] names@[k])@ == self@.devices[k],
            decreases self.devices.len() - i,
        {
            names.push(self.devices[i].name().to_owned());
            i += 1;
        }
        proof {
            assert(names.deep_view() =~= self@.devices);
        }
        names
    }

    /// Renders the room as the line `--> Room: <name>`, newline included.
    pub fn display(&self) -> (line: String)
        ensures
            line@ == "--> Room: "@ + self@.name + "\n"@,
    {
        let mut line = String::from_str("--> Room: ");
        line.append(self.name.as_str());
        line.append("\n");
        line
    }
}

/// A named house that holds rooms, no two of them with the same name.
pub struct SmartHouse {
    name: String,
    rooms: Vec<SmartRoom>,
}

/// What each of `rooms` is, in their order.
spec fn views_of(rooms: Seq<SmartRoom>) -> Seq<RoomView> {
    rooms.map_values(|room: SmartRoom| room@)
}

impl View for SmartHouse {
    type V = HouseView;

    closed spec fn view(&self) -> HouseView {
        HouseView { name: self.name@, rooms: views_of(self.rooms@) }
    }
}

impl Clone for SmartHouse {
    /// Copies the house, room by room.
    fn clone(&self) -> (copy: SmartHouse)
        ensures
            copy@ == self@,
    {
        proof {
            use_type_invariant(self);
        }
        let mut rooms: Vec<SmartRoom> = Vec::new();
        let mut i: usize = 0;
        while i < self.rooms.len()
            invariant
                i <= self.rooms.len(),
                rooms@.len() == i,
                forall|k: int| 0 <= k < i ==> (#[trigger] rooms@[k])@ == self.rooms@[k]@,
            decreases self.rooms.len() - i,
        {
            rooms.push(self.rooms[i].clone());
            i += 1;
        }
        proof {
            assert(views_of(rooms@) =~= views_of(self.rooms@));
        }
        SmartHouse { name: self.name.clone(), rooms }
    }
}

impl SmartHouse {
    #[verifier::type_invariant]
    spec fn inv(&self) -> bool {
        self@.wf()
    }

    /// Makes a house called `name` with no rooms.
    pub fn new(name: String) -> (house: SmartHouse)
        ensures
            house@ == HouseView::empty(name@),
            house@.wf(),
    {
        let rooms: Vec<SmartRoom> = Vec::new();
        proof {
            assert(views_of(rooms@) =~= Seq::empty());
            assert(HouseView::empty(name@).room_names() =~= Seq::empty());
        }
        SmartHouse { name, rooms }
    }

    /// Returns the name of the house.
    pub fn name(&self) -> (name: &str)
        ensures
            name@ == self@.name,
    {
        self.name.as_str()
    }

    /// Looks for the first room called `wanted`.
    fn position(&self, wanted: &str) -> (found: Option<usize>)
        ensures
            match found {
                Some(i) => self@.room_names().index_of_first(wanted@) == Some(i as int),
                None => self@.room_names().index_of_first(wanted@) is None,
            },
            found is Some <==> self@.has_room(wanted@),
            found matches Some(i) ==> i < self.rooms@.len(),
    {
        let mut i: usize = 0;
        while i < self.rooms.len()
            invariant
                i <= self.rooms.len(),
                forall|k: int| 0 <= k < i ==> self@.room_names()[k] != wanted@,
            decreases self.rooms.len() - i,
        {
            if same_text(self.rooms[i].name(), wanted) {
                proof {
                    assert(self@.room_names()[i as int] == wanted@);
                    self@.room_names().index_of_first_ensures(wanted@);
                    let first: int = self@.room_names().index_of_first(wanted@).unwrap();
                    assert(self@.room_names()[first] == wanted@);
                    assert(first == i);
                }
                return Some(i);
            }
            i += 1;
        }
        proof {
            self@.room_names().index_of_first_ensures(wanted@);
        }
        None
    }

    /// Adds `room` to the house, behind the rooms that are there.
    ///
    /// Fails with [`SmartError::DuplicateName`], which carries the name, when
    /// the house has a room of that name already; the house then stays as it
    /// was.
    pub fn add(&mut self, room: SmartRoom) -> (res: Result<(), SmartError>)
        ensures
            final(self)@ == old(self)@.with_room(room@),
            final(self)@.wf(),
            old(self)@.has_room(room@.name) ==> (res matches Err(SmartError::DuplicateName(name))
                && name@ == room@.name),
            !old(self)@.has_room(room@.name) ==> res is Ok,
    {
        proof {
            use_type_invariant(&*self);
            use_type_invariant(&room);
        }
        match self.position(room.name()) {
            Some(_) => Err(SmartError::DuplicateName(room.name().to_owned())),
            None => {
                let mut rooms = Vec::new();
                core::mem::swap(&mut self.rooms, &mut rooms);
                rooms.push(room);
                proof {
                    assert(views_of(rooms@) =~= views_of(old(self).rooms@).push(room@));
                    assert(old(self)@.with_room(room@).room_names() =~= old(
                        self,
                    )@.room_names().push(room@.name));
                }
                self.rooms = rooms;
                Ok(())
            },
        }
    }

    /// Takes the first room called `room` out of the house. Does nothing when
    /// there is none.
    pub fn del(&mut self, room: &str)
        ensures
            final(self)@ == old(self)@.without_room(room@),
            final(self)@.wf(),
            !final(self)@.has_room(room@),
    {
        proof {
            use_type_invariant(&*self);
            lemma_deleted_is_gone(self@, room@);
        }
        if let Some(index) = self.position(room) {
            let mut rooms = Vec::new();
            core::mem::swap(&mut self.rooms, &mut rooms);
            rooms.remove(index);
            proof {
                assert(views_of(rooms@) =~= views_of(old(self).rooms@).remove(index as int));
                assert(old(self)@.without_room(room@).room_names() =~= old(
                    self,
                )@.room_names().remove(index as int));
            }
            self.rooms = rooms;
        }
    }

    /// Returns the rooms, in the order in which they were added. No two of
    /// them have the same name.
    pub fn get_rooms(&self) -> (rooms: &[SmartRoom])
        ensures
            rooms@.len() == self@.rooms.len(),
            forall|i: int| 0 <= i < rooms@.len() ==> (#[trigger] rooms@[i])@ == self@.rooms[i],
            self@.wf(),
    {
        proof {
            use_type_invariant(self);
        }
        self.rooms.as_slice()
    }

    /// Has `report` make its report of this house and hands back what it
    /// made, text or failure, as it is.
    pub fn create_report<T: Reportable>(&self, report: T) -> (res: Result<String, SmartError>)
        ensures
            T::make.ensures((&report, self), res),
    {
        report.make(self)
    }

    /// Renders the house as the line `-> House: <name>`, newline included.
    pub fn display(&self) -> (line: String)
        ensures
            line@ == "-> House: "@ + self@.name + "\n"@,
    {
        let mut line = String::from_str("-> House: ");
        line.append(self.name.as_str());
        line.append("\n");
        line
    }
}

} // verus!
