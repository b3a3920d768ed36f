//! The mathematical model of a room and of a house.
//!
//! A room is its name and the names of its devices, a house is its name and
//! its rooms, both in the order in which they were added. The operations of
//! the registry are stated here as functions on these values, and so are the
//! facts that hold of them.

use std::sync::Arc;
use vstd::prelude::*;
use crate::smart::device::Pluggable;

verus! {

/// What a room is: its name, and the names of the devices plugged into it,
/// oldest first.
pub struct RoomView {
    pub name: Seq<char>,
    pub devices: Seq<Seq<char>>,
}

/// What a house is: its name, and its rooms, oldest first.
pub struct HouseView {
    pub name: Seq<char>,
    pub rooms: Seq<RoomView>,
}

/// In `names`, `earlier` stands somewhere before `later`.
pub open spec fn comes_before(names: Seq<Seq<char>>, earlier: Seq<char>, later: Seq<char>) -> bool {
    exists|i: int, j: int|
        0 <= i < j < names.len() && #[trigger] names[i] == earlier && #[trigger] names[j] == later
}

impl RoomView {
    /// The room called `name` with nothing plugged in.
    pub open spec fn empty(name: Seq<char>) -> RoomView {
        RoomView { name, devices: Seq::empty() }
    }

    /// No two devices of the room share a name.
    pub open spec fn wf(self) -> bool {
        self.devices.no_duplicates()
    }

    /// A device called `device` is plugged into the room.
    pub open spec fn is_connected(self, device: Seq<char>) -> bool {
        self.devices.contains(device)
    }

    /// The room after an attempt to plug in a device called `device`: the
    /// name goes to the end, unless the room has it already.
    pub open spec fn with_device(self, device: Seq<char>) -> RoomView {
        if self.is_connected(device) {
            self
        } else {
            RoomView { name: self.name, devices: self.devices.push(device) }
        }
    }

    /// The room without the first device called `device`, if there is one.
    pub open spec fn without_device(self, device: Seq<char>) -> RoomView {
        RoomView { name: self.name, devices: self.devices.remove_value(device) }
    }

    /// The room after attempts to plug in devices called `devices`, one
    /// after the other.
    pub open spec fn with_devices(self, devices: Seq<Seq<char>>) -> RoomView
        decreases devices.len(),
    {
        if devices.len() == 0 {
            self
        } else {
            self.with_devices(devices.drop_last()).with_device(devices.last())
        }
    }
}

impl HouseView {
    /// The house called `name` with no rooms.
    pub open spec fn empty(name: Seq<char>) -> HouseView {
        HouseView { name, rooms: Seq::empty() }
    }

    /// The names of the rooms, in the order of the rooms.
    pub open spec fn room_names(self) -> Seq<Seq<char>> {
        self.rooms.map_values(|room: RoomView| room.name)
    }

    /// No two rooms of the house share a name, and each room is well formed.
    pub open spec fn wf(self) -> bool {
        &&& self.room_names().no_duplicates()
        &&& forall|i: int| 0 <= i < self.rooms.len() ==> (#[trigger] self.rooms[i]).wf()
    }

    /// The house has a room called `name`.
    pub open spec fn has_room(self, name: Seq<char>) -> bool {
        self.room_names().contains(name)
    }

    /// The house after an attempt to add `room`: the room goes to the end,
    /// unless the house has a room of that name already.
    pub open spec fn with_room(self, room: RoomView) -> HouseView {
        if self.has_room(room.name) {
            self
        } else {
            HouseView { name: self.name, rooms: self.rooms.push(room) }
        }
    }

    /// The house without the first room called `name`, if there is one.
    pub open spec fn without_room(self, name: Seq<char>) -> HouseView {
        match self.room_names().index_of_first(name) {
            Some(i) => HouseView { name: self.name, rooms: self.rooms.remove(i) },
            None => self,
        }
    }

    /// The house after attempts to add `rooms`, one after the other.
    pub open spec fn with_rooms(self, rooms: Seq<RoomView>) -> HouseView
        decreases rooms.len(),
    {
        if rooms.len() == 0 {
            self
        } else {
            self.with_rooms(rooms.drop_last()).with_room(rooms.last())
        }
    }
}

/// Where `name` stands in `names`, if it occurs there: nothing before that
/// place is `name`.
proof fn lemma_first_place(names: Seq<Seq<char>>, name: Seq<char>)
    ensures
        match names.index_of_first(name) {
            Some(i) => 0 <= i < names.len() && names[i] == name && forall|k: int|
                0 <= k < i ==> names[k] != name,
            None => !names.contains(name),
        },
{
    names.index_of_first_ensures(name);
}

/// Taking one name out of a list without repeats leaves no repeats.
proof fn lemma_remove_keeps_distinct(names: Seq<Seq<char>>, i: int)
    requires
        names.no_duplicates(),
        0 <= i < names.len(),
    ensures
        names.remove(i).no_duplicates(),
{
    let rest = names.remove(i);
    assert forall|p: int, q: int| 0 <= p < rest.len() && 0 <= q < rest.len() && p != q implies rest[p]
        != rest[q] by {
        let from_p: int = if p < i { p } else { p + 1 };
        let from_q: int = if q < i { q } else { q + 1 };
        assert(rest[p] == names[from_p]);
        assert(rest[q] == names[from_q]);
    }
}

/// A name put at the end leaves the order of the others as it was.
proof fn lemma_push_keeps_order(
    names: Seq<Seq<char>>,
    name: Seq<char>,
    earlier: Seq<char>,
    later: Seq<char>,
)
    requires
        comes_before(names, earlier, later),
    ensures
        comes_before(names.push(name), earlier, later),
{
    let (i, j): (int, int) = choose|i: int, j: int|
        0 <= i < j < names.len() && #[trigger] names[i] == earlier && #[trigger] names[j] == later;
    let longer = names.push(name);
    assert(longer[i] == earlier && longer[j] == later);
}

/// A name put at the end stands behind every name that was there.
proof fn lemma_push_goes_last(names: Seq<Seq<char>>, name: Seq<char>, other: Seq<char>)
    requires
        names.contains(other),
    ensures
        comes_before(names.push(name), other, name),
{
    let i: int = choose|i: int| 0 <= i < names.len() && names[i] == other;
    let longer = names.push(name);
    assert(longer[i] == other && longer[names.len() as int] == name);
}

/// Taking one name out leaves the order of the others as it was.
proof fn lemma_remove_keeps_order(
    names: Seq<Seq<char>>,
    at: int,
    earlier: Seq<char>,
    later: Seq<char>,
)
    requires
        0 <= at < names.len(),
        comes_before(names, earlier, later),
        names[at] != earlier,
        names[at] != later,
    ensures
        comes_before(names.remove(at), earlier, later),
{
    let (i, j): (int, int) = choose|i: int, j: int|
        0 <= i < j < names.len() && #[trigger] names[i] == earlier && #[trigger] names[j] == later;
    let rest = names.remove(at);
    let to_i: int = if i < at { i } else { i - 1 };
    let to_j: int = if j < at { j } else { j - 1 };
    assert(rest[to_i] == earlier && rest[to_j] == later);
}

/// The room names of a house from which a room was taken out are the room
/// names of the house with the first such name taken out.
pub proof fn lemma_names_without_room(house: HouseView, name: Seq<char>)
    ensures
        house.without_room(name).room_names() == house.room_names().remove_value(name),
{
    lemma_first_place(house.room_names(), name);
    assert(house.without_room(name).room_names() =~= house.room_names().remove_value(name));
}

/// The room names of a house to which a room was added are the room names
/// of the house, with the new name at the end unless it was there already.
pub proof fn lemma_names_with_room(house: HouseView, room: RoomView)
    ensures
        house.with_room(room).room_names() == if house.has_room(room.name) {
            house.room_names()
        } else {
            house.room_names().push(room.name)
        },
{
    if !house.has_room(room.name) {
        assert(house.with_room(room).room_names() =~= house.room_names().push(room.name));
    }
}

/// Plugging a device into a room whose devices have distinct names leaves
/// the names distinct.
pub proof fn lemma_plug_keeps_names_distinct(room: RoomView, device: Seq<char>)
    requires
        room.wf(),
    ensures
        room.with_device(device).wf(),
{
}

/// However many devices are plugged into an empty room, and whatever their
/// names, no two devices of the room share a name.
pub proof fn lemma_plugs_keep_names_distinct(name: Seq<char>, devices: Seq<Seq<char>>)
    ensures
        RoomView::empty(name).with_devices(devices).wf(),
    decreases devices.len(),
{
    if devices.len() > 0 {
        lemma_plugs_keep_names_distinct(name, devices.drop_last());
    }
}

/// A second device with a name that the room has is turned away, and the
/// room stays as it was: after a device called `device` was plugged in, the
/// name is taken, and another attempt with it changes nothing.
pub proof fn lemma_second_plug_changes_nothing(room: RoomView, device: Seq<char>)
    ensures
        room.with_device(device).is_connected(device),
        room.with_device(device).with_device(device) == room.with_device(device),
        room.with_device(device).with_device(device).devices.len() == room.with_device(
            device,
        ).devices.len(),
{
    if !room.is_connected(device) {
        let longer = room.devices.push(device);
        assert(longer[room.devices.len() as int] == device);
    }
}

/// A device that was plugged in is found again by any object of the same
/// name: after `plugged` went into the room, or was turned away because its
/// name was taken, asking with `probe` finds a device.
pub proof fn lemma_plugged_device_is_connected(
    room: RoomView,
    plugged: Arc<dyn Pluggable>,
    probe: &dyn Pluggable,
)
    requires
        plugged.spec_name() == probe.spec_name(),
    ensures
        room.with_device(plugged.spec_name()).is_connected(probe.spec_name()),
{
    lemma_second_plug_changes_nothing(room, plugged.spec_name());
}

/// Unplugging from a room whose devices have distinct names leaves the names
/// distinct.
pub proof fn lemma_unplug_keeps_names_distinct(room: RoomView, device: Seq<char>)
    requires
        room.wf(),
    ensures
        room.without_device(device).wf(),
{
    lemma_first_place(room.devices, device);
    if let Some(i) = room.devices.index_of_first(device) {
        lemma_remove_keeps_distinct(room.devices, i);
    }
}

/// Unplugging a name that the room does not have changes nothing.
pub proof fn lemma_unplug_absent_changes_nothing(room: RoomView, device: Seq<char>)
    requires
        !room.is_connected(device),
    ensures
        room.without_device(device) == room,
{
    lemma_first_place(room.devices, device);
}

/// After a device is unplugged from a room whose devices have distinct
/// names, no device of that name is left.
pub proof fn lemma_unplugged_is_gone(room: RoomView, device: Seq<char>)
    requires
        room.wf(),
    ensures
        !room.without_device(device).is_connected(device),
{
    lemma_first_place(room.devices, device);
    if let Some(i) = room.devices.index_of_first(device) {
        let rest = room.devices.remove(i);
        assert forall|k: int| 0 <= k < rest.len() implies rest[k] != device by {
            let from: int = if k < i { k } else { k + 1 };
            assert(rest[k] == room.devices[from]);
        }
    }
}

/// Plugging keeps the devices in the order in which they were plugged in:
/// two devices that are in the room stay in their order, whatever is plugged
/// in later.
pub proof fn lemma_plug_keeps_order(
    room: RoomView,
    device: Seq<char>,
    earlier: Seq<char>,
    later: Seq<char>,
)
    requires
        comes_before(room.devices, earlier, later),
    ensures
        comes_before(room.with_device(device).devices, earlier, later),
{
    if !room.is_connected(device) {
        lemma_push_keeps_order(room.devices, device, earlier, later);
    }
}

/// A device that is plugged in with a new name stands behind every device
/// that was in the room.
pub proof fn lemma_plug_goes_last(room: RoomView, device: Seq<char>, other: Seq<char>)
    requires
        room.is_connected(other),
        !room.is_connected(device),
    ensures
        comes_before(room.with_device(device).devices, other, device),
{
    lemma_push_goes_last(room.devices, device, other);
}

/// Unplugging one device leaves the others in their order.
pub proof fn lemma_unplug_keeps_order(
    room: RoomView,
    device: Seq<char>,
    earlier: Seq<char>,
    later: Seq<char>,
)
    requires
        comes_before(room.devices, earlier, later),
        earlier != device,
        later != device,
    ensures
        comes_before(room.without_device(device).devices, earlier, later),
{
    lemma_first_place(room.devices, device);
    if let Some(i) = room.devices.index_of_first(device) {
        lemma_remove_keeps_order(room.devices, i, earlier, later);
    }
}

/// Adding a well-formed room to a well-formed house leaves the house well
/// formed: no two rooms share a name.
pub proof fn lemma_add_keeps_names_distinct(house: HouseView, room: RoomView)
    requires
        house.wf(),
        room.wf(),
    ensures
        house.with_room(room).wf(),
{
    lemma_names_with_room(house, room);
}

/// However many rooms are added to an empty house, and whatever their
/// names, no two rooms of the house share a name.
pub proof fn lemma_adds_keep_names_distinct(name: Seq<char>, rooms: Seq<RoomView>)
    ensures
        HouseView::empty(name).with_rooms(rooms).room_names().no_duplicates(),
    decreases rooms.len(),
{
    if rooms.len() > 0 {
        lemma_adds_keep_names_distinct(name, rooms.drop_last());
        lemma_names_with_room(
            HouseView::empty(name).with_rooms(rooms.drop_last()),
            rooms.last(),
        );
    } else {
        assert(HouseView::empty(name).room_names() =~= Seq::empty());
    }
}

/// A second room with a name that the house has is turned away, and the
/// house stays as it was: after `first` was added, its name is taken, and
/// adding `second` under the same name changes nothing.
pub proof fn lemma_second_add_changes_nothing(house: HouseView, first: RoomView, second: RoomView)
    requires
        first.name == second.name,
    ensures
        house.with_room(first).has_room(second.name),
        house.with_room(first).with_room(second) == house.with_room(first),
        house.with_room(first).with_room(second).rooms.len() == house.with_room(first).rooms.len(),
{
    lemma_names_with_room(house, first);
    if !house.has_room(first.name) {
        let longer = house.room_names().push(first.name);
        assert(longer[house.room_names().len() as int] == first.name);
    }
}

/// Taking a room out of a well-formed house leaves the house well formed.
pub proof fn lemma_del_keeps_names_distinct(house: HouseView, name: Seq<char>)
    requires
        house.wf(),
    ensures
        house.without_room(name).wf(),
{
    lemma_names_without_room(house, name);
    lemma_first_place(house.room_names(), name);
    if let Some(i) = house.room_names().index_of_first(name) {
        lemma_remove_keeps_distinct(house.room_names(), i);
    }
}

/// After a room is taken out of a well-formed house, no room of that name
/// is left.
pub proof fn lemma_deleted_is_gone(house: HouseView, name: Seq<char>)
    requires
        house.wf(),
    ensures
        !house.without_room(name).has_room(name),
{
    lemma_names_without_room(house, name);
    lemma_first_place(house.room_names(), name);
    if let Some(i) = house.room_names().index_of_first(name) {
        let names = house.room_names();
        let rest = names.remove(i);
        assert forall|k: int| 0 <= k < rest.len() implies rest[k] != name by {
            let from: int = if k < i { k } else { k + 1 };
            assert(rest[k] == names[from]);
        }
    }
}

/// Taking out a name that the house does not have changes nothing.
pub proof fn lemma_del_absent_changes_nothing(house: HouseView, name: Seq<char>)
    requires
        !house.has_room(name),
    ensures
        house.without_room(name) == house,
{
    lemma_first_place(house.room_names(), name);
}

/// Adding keeps the rooms in the order in which they were added: two rooms
/// that are in the house stay in their order, whatever is added later.
pub proof fn lemma_add_keeps_order(
    house: HouseView,
    room: RoomView,
    earlier: Seq<char>,
    later: Seq<char>,
)
    requires
        comes_before(house.room_names(), earlier, later),
    ensures
        comes_before(house.with_room(room).room_names(), earlier, later),
{
    lemma_names_with_room(house, room);
    if !house.has_room(room.name) {
        lemma_push_keeps_order(house.room_names(), room.name, earlier, later);
    }
}

/// A room that is added under a new name stands behind every room that was
/// in the house.
pub proof fn lemma_add_goes_last(house: HouseView, room: RoomView, other: Seq<char>)
    requires
        house.has_room(other),
        !house.has_room(room.name),
    ensures
        comes_before(house.with_room(room).room_names(), other, room.name),
{
    lemma_names_with_room(house, room);
    lemma_push_goes_last(house.room_names(), room.name, other);
}

/// Taking one room out leaves the others in their order.
pub proof fn lemma_del_keeps_order(
    house: HouseView,
    name: Seq<char>,
    earlier: Seq<char>,
    later: Seq<char>,
)
    requires
        comes_before(house.room_names(), earlier, later),
        earlier != name,
        later != name,
    ensures
        comes_before(house.without_room(name).room_names(), earlier, later),
{
    lemma_names_without_room(house, name);
    lemma_first_place(house.room_names(), name);
    if let Some(i) = house.room_names().index_of_first(name) {
        lemma_remove_keeps_order(house.room_names(), i, earlier, later);
    }
}

} // verus!
