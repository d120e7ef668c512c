//! Multicast device discovery: the wire format of its messages and the table
//! of devices heard from.

use crate::net::IpAddress;
use crate::socks5::protocol::be16;
use crate::text::{lossy_string, lossy_text};
use vstd::prelude::*;
use vstd::slice::slice_subrange;
use vstd::string::*;

verus! {

pub const MSG_TYPE_HEARTBEAT: u8 = 0;

pub const MSG_TYPE_DISCONNECT: u8 = 1;

/// Most bytes that the id and the text of a message may take together.
pub const MAX_MESSAGE_SIZE: usize = 500;

/// Bytes of a device id on the wire.
pub const UUID_SIZE: usize = 36;

/// Bytes of the header: message type and payload length.
pub const HEADER_SIZE: usize = 3;

/// A device that has been heard from.
#[derive(Debug, Clone, PartialEq, Eq)]
pub struct DeviceInfo {
    pub uuid: String,
    /// When the device was last heard from, in milliseconds on the caller's
    /// clock.
    pub last_seen: u64,
    pub last_message: String,
    pub message_count: u32,
}

/// Mathematical value of a [`DeviceInfo`].
pub struct DeviceInfoView {
    pub uuid: Seq<char>,
    pub last_seen: u64,
    pub last_message: Seq<char>,
    pub message_count: u32,
}

impl View for DeviceInfo {
    type V = DeviceInfoView;

    open spec fn view(&self) -> DeviceInfoView {
        DeviceInfoView {
            uuid: self.uuid@,
            last_seen: self.last_seen,
            last_message: self.last_message@,
            message_count: self.message_count,
        }
    }
}

impl DeviceInfoView {
    /// A device heard from for the first time.
    pub open spec fn fresh(uuid: Seq<char>, message: Seq<char>, now: u64) -> DeviceInfoView {
        DeviceInfoView { uuid, last_seen: now, last_message: message, message_count: 1 }
    }

    /// The device after another message from it.
    pub open spec fn heard(self, message: Seq<char>, now: u64) -> DeviceInfoView {
        DeviceInfoView {
            last_seen: now,
            last_message: message,
            message_count: (self.message_count + 1) as u32,
            ..self
        }
    }

    /// Milliseconds since the device was last heard from; zero if `now` is
    /// not later than that.
    pub open spec fn silence(self, now: u64) -> int {
        if now >= self.last_seen {
            now - self.last_seen
        } else {
            0
        }
    }

    /// The device was heard from less than `timeout` milliseconds before
    /// `now`.
    pub open spec fn alive(self, timeout: u64, now: u64) -> bool {
        self.silence(now) < timeout
    }
}

impl DeviceInfo {
    pub fn new(uuid: String, message: String, now: u64) -> (r: DeviceInfo)
        ensures
            r@ == DeviceInfoView::fresh(uuid@, message@, now),
    {
        DeviceInfo { uuid, last_seen: now, last_message: message, message_count: 1 }
    }

    pub fn update(&mut self, message: String, now: u64)
        requires
            old(self).message_count < u32::MAX,
        ensures
            final(self)@ == old(self)@.heard(message@, now),
    {
        self.last_seen = now;
        self.last_message = message;
        self.message_count = self.message_count + 1;
    }

    pub fn is_alive(&self, timeout: u64, now: u64) -> (r: bool)
        ensures
            r == self@.alive(timeout, now),
    {
        if now >= self.last_seen {
            now - self.last_seen < timeout
        } else {
            timeout > 0
        }
    }

    /// A copy of the record.
    pub fn snapshot(&self) -> (r: DeviceInfo)
        ensures
            r@ == self@,
    {
        DeviceInfo {
            uuid: self.uuid.clone(),
            last_seen: self.last_seen,
            last_message: self.last_message.clone(),
            message_count: self.message_count,
        }
    }
}

/// The devices heard from, in the order in which they first appeared, no id
/// twice.
#[derive(Debug)]
pub struct DeviceRegistry {
    devices: Vec<DeviceInfo>,
}

/// The values of a list of devices, in order.
pub open spec fn device_views(devices: Seq<DeviceInfo>) -> Seq<DeviceInfoView> {
    devices.map_values(|d: DeviceInfo| d@)
}

/// The values of a list of strings, in order.
pub open spec fn string_views(strings: Seq<String>) -> Seq<Seq<char>> {
    strings.map_values(|s: String| s@)
}

/// No two devices of the list have the same id.
pub open spec fn distinct_ids(devices: Seq<DeviceInfoView>) -> bool {
    forall|i: int, j: int|
        0 <= i < devices.len() && 0 <= j < devices.len() && i != j ==> devices[i].uuid
            != devices[j].uuid
}

/// The place of the device with this id in the list, if it is there.
pub open spec fn position(devices: Seq<DeviceInfoView>, uuid: Seq<char>) -> Option<int> {
    if exists|i: int| 0 <= i < devices.len() && devices[i].uuid == uuid {
        Some(choose|i: int| 0 <= i < devices.len() && devices[i].uuid == uuid)
    } else {
        None
    }
}

/// The devices of the list that are alive at `now`, in order.
pub open spec fn alive_devices(devices: Seq<DeviceInfoView>, timeout: u64, now: u64) -> Seq<
    DeviceInfoView,
>
    decreases devices.len(),
{
    if devices.len() == 0 {
        Seq::empty()
    } else {
        let front = alive_devices(devices.drop_last(), timeout, now);
        if devices.last().alive(timeout, now) {
            front.push(devices.last())
        } else {
            front
        }
    }
}

/// The ids of the devices of the list that are not alive at `now`, in order.
pub open spec fn silent_ids(devices: Seq<DeviceInfoView>, timeout: u64, now: u64) -> Seq<
    Seq<char>,
>
    decreases devices.len(),
{
    if devices.len() == 0 {
        Seq::empty()
    } else {
        let front = silent_ids(devices.drop_last(), timeout, now);
        if devices.last().alive(timeout, now) {
            front
        } else {
            front.push(devices.last().uuid)
        }
    }
}

/// Every device that is kept was in the list.
proof fn lemma_alive_devices_were_there(devices: Seq<DeviceInfoView>, timeout: u64, now: u64)
    ensures
        forall|i: int|
            0 <= i < alive_devices(devices, timeout, now).len() ==> exists|j: int|
                0 <= j < devices.len() && devices[j].uuid == (#[trigger] alive_devices(
                    devices,
                    timeout,
                    now,
                )[i]).uuid,
    decreases devices.len(),
{
    if devices.len() > 0 {
        let front = devices.drop_last();
        lemma_alive_devices_were_there(front, timeout, now);
        let kept = alive_devices(devices, timeout, now);
        let kept_front = alive_devices(front, timeout, now);
        assert forall|i: int| 0 <= i < kept.len() implies exists|j: int|
            0 <= j < devices.len() && devices[j].uuid == (#[trigger] kept[i]).uuid by {
            if i < kept_front.len() {
                assert(kept[i] == kept_front[i]);
                let j = choose|j: int| 0 <= j < front.len() && front[j].uuid == kept_front[i].uuid;
                assert(devices[j] == front[j]);
            } else {
                assert(kept[i] == devices[devices.len() - 1]);
            }
        }
    }
}

/// Dropping the silent devices of a list without repeated ids leaves a list
/// without repeated ids.
pub proof fn lemma_alive_devices_distinct(devices: Seq<DeviceInfoView>, timeout: u64, now: u64)
    requires
        distinct_ids(devices),
    ensures
        distinct_ids(alive_devices(devices, timeout, now)),
    decreases devices.len(),
{
    if devices.len() > 0 {
        let front = devices.drop_last();
        assert(distinct_ids(front)) by {
            assert forall|i: int, j: int|
                0 <= i < front.len() && 0 <= j < front.len() && i != j implies front[i].uuid
                != front[j].uuid by {
                assert(front[i] == devices[i] && front[j] == devices[j]);
            }
        }
        lemma_alive_devices_distinct(front, timeout, now);
        lemma_alive_devices_were_there(front, timeout, now);
        let kept = alive_devices(devices, timeout, now);
        let kept_front = alive_devices(front, timeout, now);
        assert forall|i: int, j: int|
            0 <= i < kept.len() && 0 <= j < kept.len() && i != j implies kept[i].uuid
            != kept[j].uuid by {
            if i < kept_front.len() && j < kept_front.len() {
                assert(kept[i] == kept_front[i] && kept[j] == kept_front[j]);
            } else {
                let older = if i < j {
                    i
                } else {
                    j
                };
                assert(kept[older] == kept_front[older]);
                let k = choose|k: int|
                    0 <= k < front.len() && front[k].uuid == kept_front[older].uuid;
                assert(devices[k] == front[k]);
                assert(k != devices.len() - 1);
            }
        }
    }
}

impl View for DeviceRegistry {
    type V = Seq<DeviceInfoView>;

    closed spec fn view(&self) -> Seq<DeviceInfoView> {
        device_views(self.devices@)
    }
}

impl DeviceRegistry {
    /// No id occurs twice.
    pub open spec fn wf(&self) -> bool {
        distinct_ids(self@)
    }

    /// A table with no device.
    pub fn new() -> (r: DeviceRegistry)
        ensures
            r@ == Seq::<DeviceInfoView>::empty(),
            r.wf(),
    {
        let r = DeviceRegistry { devices: Vec::new() };
        r
    }

    /// Forgets every device.
    pub fn clear(&mut self)
        ensures
            final(self)@ == Seq::<DeviceInfoView>::empty(),
            final(self).wf(),
    {
        self.devices.clear();
    }

    /// The place of the device with this id.
    fn find(&self, uuid: &String) -> (r: Option<usize>)
        ensures
            match r {
                Some(i) => i < self@.len() && self@[i as int].uuid == uuid@,
                None => forall|i: int| 0 <= i < self@.len() ==> self@[i].uuid != uuid@,
            },
    {
        let mut i: usize = 0;
        while i < self.devices.len()
            invariant
                i <= self.devices.len(),
                forall|j: int| 0 <= j < i ==> self@[j].uuid != uuid@,
            decreases self.devices.len() - i,
        {
            if self.devices[i].uuid == *uuid {
                return Some(i);
            }
            i += 1;
        }
        None
    }
}

/// Notes a message from the device `uuid`: a device already in the table is
/// brought up to date, a new one is added at the end.
pub fn update_device(devices: &mut DeviceRegistry, uuid: String, message: String, now: u64)
    requires
        old(devices).wf(),
        position(old(devices)@, uuid@) matches Some(i) ==> old(devices)@[i].message_count
            < u32::MAX,
    ensures
        final(devices).wf(),
        final(devices)@ == match position(old(devices)@, uuid@) {
            Some(i) => old(devices)@.update(i, old(devices)@[i].heard(message@, now)),
            None => old(devices)@.push(DeviceInfoView::fresh(uuid@, message@, now)),
        },
{
    match devices.find(&uuid) {
        Some(i) => {
            let mut device = devices.devices.remove(i);
            device.update(message, now);
            devices.devices.insert(i, device);
            assert(devices@ =~= old(devices)@.update(
                i as int,
                old(devices)@[i as int].heard(message@, now),
            ));
        },
        None => {
            devices.devices.push(DeviceInfo::new(uuid, message, now));
            assert(devices@ =~= old(devices)@.push(DeviceInfoView::fresh(uuid@, message@, now)));
        },
    }
}

/// Takes the device `uuid` out of the table, if it is there.
pub fn remove_device(devices: &mut DeviceRegistry, uuid: &str)
    requires
        old(devices).wf(),
    ensures
        final(devices).wf(),
        final(devices)@ == match position(old(devices)@, uuid@) {
            Some(i) => old(devices)@.remove(i),
            None => old(devices)@,
        },
{
    let wanted = String::from_str(uuid);
    match devices.find(&wanted) {
        Some(i) => {
            devices.devices.remove(i);
            assert(devices@ =~= old(devices)@.remove(i as int));
        },
        None => {
        },
    }
}

/// Drops the devices that have not been heard from for `timeout`
/// milliseconds or more at `now`, and returns their ids. The devices that
/// stay keep their order.
pub fn cleanup_inactive_devices(devices: &mut DeviceRegistry, timeout: u64, now: u64) -> (removed:
    Vec<String>)
    requires
        old(devices).wf(),
    ensures
        final(devices).wf(),
        final(devices)@ == alive_devices(old(devices)@, timeout, now),
        string_views(removed@) == silent_ids(old(devices)@, timeout, now),
{
    let mut kept: Vec<DeviceInfo> = Vec::new();
    let mut removed: Vec<String> = Vec::new();
    let ghost all = devices@;
    let mut i: usize = 0;
    while i < devices.devices.len()
        invariant
            i <= devices.devices.len(),
            *devices == *old(devices),
            all == devices@,
            device_views(kept@) == alive_devices(all.take(i as int), timeout, now),
            string_views(removed@) == silent_ids(all.take(i as int), timeout, now),
        decreases devices.devices.len() - i,
    {
        proof {
            let prefix = all.take(i + 1);
            assert(prefix.drop_last() =~= all.take(i as int));
        }
        if devices.devices[i].is_alive(timeout, now) {
            let device = devices.devices[i].snapshot();
            kept.push(device);
        } else {
            let uuid = devices.devices[i].uuid.clone();
            removed.push(uuid);
        }
        i += 1;
    }
    proof {
        assert(all.take(i as int) =~= all);
        lemma_alive_devices_distinct(all, timeout, now);
    }
    devices.devices = kept;
    removed
}

/// A copy of every device in the table, in order.
pub fn get_active_devices(devices: &DeviceRegistry) -> (r: Vec<DeviceInfo>)
    ensures
        device_views(r@) == devices@,
{
    let mut result: Vec<DeviceInfo> = Vec::new();
    let mut i: usize = 0;
    while i < devices.devices.len()
        invariant
            i <= devices.devices.len(),
            device_views(result@) == devices@.take(i as int),
        decreases devices.devices.len() - i,
    {
        let ghost before = device_views(result@);
        let device = devices.devices[i].snapshot();
        result.push(device);
        assert(device_views(result@) =~= before.push(device@));
        i += 1;
    }
    assert(devices@.take(i as int) =~= devices@);
    result
}

/// Number of devices in the table.
pub fn get_active_device_count(devices: &DeviceRegistry) -> (r: usize)
    ensures
        r == devices@.len(),
{
    devices.devices.len()
}

/// Where and what a node announces.
#[derive(Debug, PartialEq, Eq)]
pub struct MulticastConfig {
    /// The multicast group.
    pub ip: IpAddress,
    pub port: u16,
    /// The text sent with every heartbeat.
    pub message: String,
    /// The interface to use for IPv6, if one is asked for by name.
    pub interface_name: Option<String>,
}

/// Port that nodes announce themselves on unless told otherwise.
pub const DEFAULT_PORT: u16 = 8888;

impl MulticastConfig {
    /// The configuration is the default one: group `239.255.255.250`, port
    /// 8888, the text `Hello from client`, no interface named.
    pub open spec fn is_default(&self) -> bool {
        &&& self.ip == IpAddress::V4(239, 255, 255, 250)
        &&& self.port == DEFAULT_PORT
        &&& self.message@ == "Hello from client"@
        &&& self.interface_name is None
    }

    pub fn is_ipv4(&self) -> (r: bool)
        ensures
            r == (self.ip is V4),
    {
        match self.ip {
            IpAddress::V4(_, _, _, _) => true,
            IpAddress::V6(_) => false,
        }
    }

    pub fn is_ipv6(&self) -> (r: bool)
        ensures
            r == (self.ip is V6),
    {
        match self.ip {
            IpAddress::V4(_, _, _, _) => false,
            IpAddress::V6(_) => true,
        }
    }
}

impl Default for MulticastConfig {
    fn default() -> (r: MulticastConfig)
        ensures
            r.is_default(),
    {
        MulticastConfig {
            ip: IpAddress::V4(239, 255, 255, 250),
            port: DEFAULT_PORT,
            message: String::from_str("Hello from client"),
            interface_name: None,
        }
    }
}

/// The interface that IPv6 multicast goes through.
#[derive(Debug, PartialEq, Eq)]
pub struct Ipv6InterfaceInfo {
    pub index: u32,
    pub name: String,
}

/// One address of a network interface as the system lists it, with the
/// index that the system gives for the interface's name, if it gives one.
#[derive(Debug, PartialEq, Eq)]
pub struct InterfaceAddress {
    pub name: String,
    pub addr: IpAddress,
    pub index: Option<u32>,
}

/// Mathematical value of an [`InterfaceAddress`].
pub struct InterfaceAddressView {
    pub name: Seq<char>,
    pub addr: IpAddress,
    pub index: Option<u32>,
}

impl View for InterfaceAddress {
    type V = InterfaceAddressView;

    open spec fn view(&self) -> InterfaceAddressView {
        InterfaceAddressView { name: self.name@, addr: self.addr, index: self.index }
    }
}

/// The values of a list of interface addresses, in order.
pub open spec fn interface_views(interfaces: Seq<InterfaceAddress>) -> Seq<InterfaceAddressView> {
    interfaces.map_values(|a: InterfaceAddress| a@)
}

/// First address of the range `fe80::/10` of link-local unicast addresses.
pub const LINK_LOCAL_FIRST: u128 = 0xfe80_0000_0000_0000_0000_0000_0000_0000;

/// Last address of the range `fe80::/10`.
pub const LINK_LOCAL_LAST: u128 = 0xfebf_ffff_ffff_ffff_ffff_ffff_ffff_ffff;

impl InterfaceAddressView {
    /// An IPv6 address other than `::` and `::1`, on an interface that has
    /// an index.
    pub open spec fn usable(self) -> bool {
        &&& self.addr matches IpAddress::V6(bits) && bits != 0 && bits != 1
        &&& self.index is Some
    }

    /// A usable address that is not link-local.
    pub open spec fn preferred(self) -> bool {
        &&& self.usable()
        &&& self.addr matches IpAddress::V6(bits) && !(LINK_LOCAL_FIRST <= bits
            && bits <= LINK_LOCAL_LAST)
    }

    /// The interface of this address.
    pub open spec fn interface(self) -> (u32, Seq<char>) {
        (self.index->Some_0, self.name)
    }
}

/// The interface of the first address of the list that is preferred, or,
/// if `any` is set, usable.
pub open spec fn first_interface(interfaces: Seq<InterfaceAddressView>, any: bool) -> Option<
    (u32, Seq<char>),
>
    decreases interfaces.len(),
{
    if interfaces.len() == 0 {
        None
    } else if interfaces[0].preferred() || (any && interfaces[0].usable()) {
        Some(interfaces[0].interface())
    } else {
        first_interface(interfaces.skip(1), any)
    }
}

/// The interface for IPv6 multicast among the addresses listed: that of the
/// first address that is not link-local, and if there is none, that of the
/// first usable address.
pub open spec fn multicast_interface(interfaces: Seq<InterfaceAddressView>) -> Option<
    (u32, Seq<char>),
> {
    match first_interface(interfaces, false) {
        Some(found) => Some(found),
        None => first_interface(interfaces, true),
    }
}

/// How an interface found relates to its specification.
pub open spec fn interface_matches(r: Option<Ipv6InterfaceInfo>, expected: Option<(u32, Seq<char>)>) -> bool {
    match r {
        Some(info) => expected == Some((info.index, info.name@)),
        None => expected is None,
    }
}

fn is_usable(address: &InterfaceAddress) -> (r: bool)
    ensures
        r == address@.usable(),
{
    match address.addr {
        IpAddress::V6(bits) => bits != 0 && bits != 1 && address.index.is_some(),
        IpAddress::V4(_, _, _, _) => false,
    }
}

fn is_preferred(address: &InterfaceAddress) -> (r: bool)
    ensures
        r == address@.preferred(),
{
    match address.addr {
        IpAddress::V6(bits) => is_usable(address) && !(LINK_LOCAL_FIRST <= bits && bits
            <= LINK_LOCAL_LAST),
        IpAddress::V4(_, _, _, _) => false,
    }
}

fn find_interface(interfaces: &Vec<InterfaceAddress>, any: bool) -> (r: Option<Ipv6InterfaceInfo>)
    ensures
        interface_matches(r, first_interface(interface_views(interfaces@), any)),
{
    let ghost all = interface_views(interfaces@);
    let mut i: usize = 0;
    assert(all.skip(0) =~= all);
    while i < interfaces.len()
        invariant
            i <= interfaces.len(),
            all == interface_views(interfaces@),
            first_interface(all, any) == first_interface(all.skip(i as int), any),
        decreases interfaces.len() - i,
    {
        let ghost rest = all.skip(i as int);
        let address = &interfaces[i];
        if is_preferred(address) || (any && is_usable(address)) {
            match address.index {
                Some(index) => {
                    return Some(Ipv6InterfaceInfo { index, name: address.name.clone() });
                },
                None => {},
            }
        }
        assert(rest.skip(1) =~= all.skip(i + 1));
        i += 1;
    }
    None
}

/// Picks the interface for IPv6 multicast among the addresses that the
/// system lists.
pub fn find_ipv6_multicast_interface(interfaces: &Vec<InterfaceAddress>) -> (r: Option<
    Ipv6InterfaceInfo,
>)
    ensures
        interface_matches(r, multicast_interface(interface_views(interfaces@))),
{
    match find_interface(interfaces, false) {
        Some(info) => Some(info),
        None => find_interface(interfaces, true),
    }
}

/// The interface for IPv6 multicast: the one asked for by name, if a name
/// was given and the system has an index for it (`named_index`), and
/// otherwise the one picked among the addresses listed.
pub fn get_ipv6_interface(
    interface_name: Option<&str>,
    named_index: Option<u32>,
    interfaces: &Vec<InterfaceAddress>,
) -> (r: Option<Ipv6InterfaceInfo>)
    ensures
        interface_matches(
            r,
            match (interface_name, named_index) {
                (Some(name), Some(index)) => Some((index, name@)),
                _ => multicast_interface(interface_views(interfaces@)),
            },
        ),
{
    match interface_name {
        Some(name) => match named_index {
            Some(index) => {
                return Some(Ipv6InterfaceInfo { index, name: String::from_str(name) });
            },
            None => {},
        },
        None => {},
    }
    find_ipv6_multicast_interface(interfaces)
}

/// Why a message could not be put on or taken off the wire.
#[derive(Debug, Clone, Copy, PartialEq, Eq, Structural)]
pub enum MessageError {
    /// The id and the text together exceed [`MAX_MESSAGE_SIZE`].
    TooLong,
    /// Fewer bytes than a header.
    HeaderTooShort,
    /// Fewer bytes after the header than the header announces.
    BodyTooShort,
}

/// A discovery message.
#[derive(Debug, PartialEq, Eq)]
pub struct Message {
    pub msg_type: u8,
    /// Payload length as found on the wire; not used when encoding.
    pub length: u16,
    pub uuid: String,
    pub text: String,
}

/// Mathematical value of a [`Message`].
pub struct MessageView {
    pub msg_type: u8,
    pub length: u16,
    pub uuid: Seq<char>,
    pub text: Seq<char>,
}

impl View for Message {
    type V = MessageView;

    open spec fn view(&self) -> MessageView {
        MessageView {
            msg_type: self.msg_type,
            length: self.length,
            uuid: self.uuid@,
            text: self.text@,
        }
    }
}

/// The two bytes of `n` in big-endian order.
pub open spec fn be16_bytes(n: u16) -> Seq<u8> {
    seq![(n / 256) as u8, (n % 256) as u8]
}

impl MessageView {
    /// The bytes that the id and the text take together.
    pub open spec fn payload(self) -> Seq<u8> {
        vstd::utf8::encode_utf8(self.uuid) + vstd::utf8::encode_utf8(self.text)
    }

    /// The wire form: type, payload length in big-endian, id, text; an
    /// error if the payload is too long.
    pub open spec fn serialize(self) -> Result<Seq<u8>, MessageError> {
        if self.payload().len() > MAX_MESSAGE_SIZE {
            Err(MessageError::TooLong)
        } else {
            Ok(seq![self.msg_type] + be16_bytes(self.payload().len() as u16) + self.payload())
        }
    }

    /// The message that a datagram holds. The payload length is read from
    /// the header; a payload of at least [`UUID_SIZE`] bytes starts with the
    /// id and the rest is the text, a shorter one is all text. Both are
    /// decoded leniently. Bytes after the payload are ignored.
    pub open spec fn deserialize(data: Seq<u8>) -> Result<MessageView, MessageError> {
        if data.len() < HEADER_SIZE {
            Err(MessageError::HeaderTooShort)
        } else {
            let length = be16(data[1], data[2]);
            let end = HEADER_SIZE + length;
            if data.len() < end {
                Err(MessageError::BodyTooShort)
            } else if length >= UUID_SIZE {
                Ok(
                    MessageView {
                        msg_type: data[0],
                        length,
                        uuid: lossy_text(data.subrange(HEADER_SIZE as int, HEADER_SIZE + UUID_SIZE)),
                        text: if length > UUID_SIZE {
                            lossy_text(data.subrange(HEADER_SIZE + UUID_SIZE, end))
                        } else {
                            Seq::empty()
                        },
                    },
                )
            } else {
                Ok(
                    MessageView {
                        msg_type: data[0],
                        length,
                        uuid: Seq::empty(),
                        text: lossy_text(data.subrange(HEADER_SIZE as int, end)),
                    },
                )
            }
        }
    }
}

impl Message {
    pub fn serialize(&self) -> (r: Result<Vec<u8>, MessageError>)
        ensures
            match r {
                Ok(bytes) => self@.serialize() == Ok::<Seq<u8>, MessageError>(bytes@),
                Err(e) => self@.serialize() == Err::<Seq<u8>, MessageError>(e),
            },
    {
        let uuid_bytes = self.uuid.as_str().as_bytes();
        let text_bytes = self.text.as_str().as_bytes();
        if uuid_bytes.len() > MAX_MESSAGE_SIZE || text_bytes.len() > MAX_MESSAGE_SIZE
            - uuid_bytes.len() {
            return Err(MessageError::TooLong);
        }
        let total_length = uuid_bytes.len() + text_bytes.len();
        let mut buffer: Vec<u8> = Vec::new();
        buffer.push(self.msg_type);
        buffer.push((total_length / 256) as u8);
        buffer.push((total_length % 256) as u8);
        buffer.extend_from_slice(uuid_bytes);
        buffer.extend_from_slice(text_bytes);
        assert(buffer@ =~= seq![self.msg_type] + be16_bytes(total_length as u16)
            + self@.payload());
        Ok(buffer)
    }

    pub fn deserialize(data: &[u8]) -> (r: Result<Message, MessageError>)
        ensures
            match r {
                Ok(message) => MessageView::deserialize(data@) == Ok::<MessageView, MessageError>(
                    message@,
                ),
                Err(e) => MessageView::deserialize(data@) == Err::<MessageView, MessageError>(e),
            },
    {
        if data.len() < HEADER_SIZE {
            return Err(MessageError::HeaderTooShort);
        }
        let msg_type = data[0];
        let wire_length: u16 = (data[1] as u16) * 256 + (data[2] as u16);
        let length = wire_length as usize;
        if data.len() < HEADER_SIZE + length {
            return Err(MessageError::BodyTooShort);
        }
        let uuid;
        let text;
        if length >= UUID_SIZE {
            uuid = lossy_string(slice_subrange(data, HEADER_SIZE, HEADER_SIZE + UUID_SIZE));
            if length > UUID_SIZE {
                text = lossy_string(
                    slice_subrange(data, HEADER_SIZE + UUID_SIZE, HEADER_SIZE + length),
                );
            } else {
                text = String::new();
            }
        } else {
            uuid = String::new();
            text = lossy_string(slice_subrange(data, HEADER_SIZE, HEADER_SIZE + length));
        }
        Ok(Message { msg_type, length: wire_length, uuid, text })
    }
}

/// A message whose id takes exactly [`UUID_SIZE`] bytes and that is short
/// enough to be sent comes back from the wire as it went, with the length
/// field set to the length of its payload.
pub proof fn theorem_message_round_trip(m: MessageView)
    requires
        vstd::utf8::encode_utf8(m.uuid).len() == UUID_SIZE,
        m.payload().len() <= MAX_MESSAGE_SIZE,
    ensures
        m.serialize() is Ok,
        MessageView::deserialize(m.serialize()->Ok_0) == Ok::<MessageView, MessageError>(
            MessageView { length: m.payload().len() as u16, ..m },
        ),
{
    let uuid_bytes = vstd::utf8::encode_utf8(m.uuid);
    let text_bytes = vstd::utf8::encode_utf8(m.text);
    let length = m.payload().len();
    let bytes = m.serialize()->Ok_0;
    assert(bytes.len() == HEADER_SIZE + length);
    assert(bytes[1] == (length as u16 / 256) as u8);
    assert(bytes[2] == (length as u16 % 256) as u8);
    assert(be16(bytes[1], bytes[2]) == length);
    assert(bytes.subrange(HEADER_SIZE as int, HEADER_SIZE + UUID_SIZE) =~= uuid_bytes);
    assert(bytes.subrange(HEADER_SIZE + UUID_SIZE, HEADER_SIZE + length) =~= text_bytes);
    vstd::utf8::encode_utf8_valid_utf8(m.uuid);
    vstd::utf8::encode_utf8_valid_utf8(m.text);
    vstd::utf8::encode_utf8_decode_utf8(m.uuid);
    vstd::utf8::encode_utf8_decode_utf8(m.text);
    if length == UUID_SIZE {
        assert(text_bytes =~= Seq::<u8>::empty());
        assert(vstd::utf8::decode_utf8(Seq::<u8>::empty()) =~= Seq::<char>::empty());
        assert(m.text =~= Seq::<char>::empty());
    }
}

} // verus!
