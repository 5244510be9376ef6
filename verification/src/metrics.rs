//! The operating system's network counters, as the `sysinfo` crate holds
//! them.
//!
//! Nothing in this file is proved: each item states what the crate's
//! source shows of one of its types or functions, and the rest of the
//! library is verified against these statements.

use sysinfo::{MacAddr, NetworkData, NetworkExt, NetworksExt, System, SystemExt};
use vstd::prelude::*;

verus! {

/// `sysinfo::System`, the handle through which the counters are read. Its
/// inside is not visible to the verifier.
#[verifier::external_type_specification]
#[verifier::external_body]
pub struct ExSystem(System);

/// `sysinfo::NetworkData`, the counters that a handle keeps for one
/// interface. Its inside is not visible to the verifier.
#[verifier::external_type_specification]
#[verifier::external_body]
pub struct ExNetworkData(NetworkData);

/// The interfaces that a handle lists: the table behind
/// `SystemExt::networks`, from each interface's name to its counters.
pub uninterp spec fn networks_of(sys: System) -> Map<Seq<char>, NetworkData>;

/// What `NetworkExt::transmitted` returns for these counters: the bytes
/// sent between the last two refreshes.
pub uninterp spec fn transmitted_of(data: NetworkData) -> u64;

/// What `NetworkExt::received` returns for these counters: the bytes
/// received between the last two refreshes.
pub uninterp spec fn received_of(data: NetworkData) -> u64;

/// What `NetworkExt::total_transmitted` returns for these counters: all
/// bytes sent so far.
pub uninterp spec fn total_transmitted_of(data: NetworkData) -> u64;

/// What `NetworkExt::total_received` returns for these counters: all
/// bytes received so far.
pub uninterp spec fn total_received_of(data: NetworkData) -> u64;

/// The six bytes of what `NetworkExt::mac_address` returns for these
/// counters.
pub uninterp spec fn mac_address_of(data: NetworkData) -> Seq<u8>;

/// The names under which the entries stand, in their order.
pub open spec fn entry_names(entries: Seq<(&String, &NetworkData)>) -> Seq<Seq<char>> {
    entries.map_values(|entry: (&String, &NetworkData)| entry.0@)
}

/// Calls `SystemExt::refresh_networks`, which reads the counters of the
/// listed interfaces anew from the operating system. What the handle
/// holds afterwards is the system's to decide, so nothing is claimed of
/// it.
#[verifier::external_body]
pub(crate) fn refresh_networks(sys: &mut System) {
    sys.refresh_networks()
}

/// Calls `SystemExt::networks` and walks the table with
/// `NetworksExt::iter`. The table is a hash map keyed by name, so every
/// listed interface comes once, under its own name and with its own
/// counters, in an order that is not fixed.
#[verifier::external_body]
pub(crate) fn network_entries(sys: &System) -> (entries: Vec<(&String, &NetworkData)>)
    ensures
        entry_names(entries@).no_duplicates(),
        entry_names(entries@).to_set() == networks_of(*sys).dom(),
        forall|i: int|
            0 <= i < entries.len() ==> *(#[trigger] entries[i]).1 == networks_of(*sys)[entries[i].0@],
{
    sys.networks().iter().collect()
}

/// Calls `NetworkExt::transmitted`.
#[verifier::external_body]
pub(crate) fn transmitted(data: &NetworkData) -> (bytes: u64)
    ensures
        bytes == transmitted_of(*data),
{
    data.transmitted()
}

/// Calls `NetworkExt::received`.
#[verifier::external_body]
pub(crate) fn received(data: &NetworkData) -> (bytes: u64)
    ensures
        bytes == received_of(*data),
{
    data.received()
}

/// Calls `NetworkExt::total_transmitted`.
#[verifier::external_body]
pub(crate) fn total_transmitted(data: &NetworkData) -> (bytes: u64)
    ensures
        bytes == total_transmitted_of(*data),
{
    data.total_transmitted()
}

/// Calls `NetworkExt::total_received`.
#[verifier::external_body]
pub(crate) fn total_received(data: &NetworkData) -> (bytes: u64)
    ensures
        bytes == total_received_of(*data),
{
    data.total_received()
}

/// Calls `NetworkExt::mac_address` and hands out the six bytes of the
/// address.
#[verifier::external_body]
pub(crate) fn mac_address(data: &NetworkData) -> (mac: [u8; 6])
    ensures
        mac@ == mac_address_of(*data),
{
    data.mac_address().0
}

/// The character of one hexadecimal digit, in lower case.
pub open spec fn hex_char(d: nat) -> char {
    if d < 10 {
        crate::text::digit_char(d)
    } else if d == 10 {
        'a'
    } else if d == 11 {
        'b'
    } else if d == 12 {
        'c'
    } else if d == 13 {
        'd'
    } else if d == 14 {
        'e'
    } else {
        'f'
    }
}

/// The two hexadecimal digits of a byte.
pub open spec fn hex_pair(byte: u8) -> Seq<char> {
    seq![hex_char((byte / 16) as nat), hex_char((byte % 16) as nat)]
}

/// A hardware address of six bytes as text: the bytes in order, each as
/// two lower-case hexadecimal digits, with a colon between neighbours.
pub open spec fn mac_text(mac: Seq<u8>) -> Seq<char>
    recommends
        mac.len() == 6,
{
    hex_pair(mac[0]) + seq![':'] + hex_pair(mac[1]) + seq![':'] + hex_pair(mac[2]) + seq![':']
        + hex_pair(mac[3]) + seq![':'] + hex_pair(mac[4]) + seq![':'] + hex_pair(mac[5])
}

/// Formats the address with the `Display` of `sysinfo::MacAddr`, which
/// writes each of the six bytes as `{:02x}` and puts `:` between them.
#[verifier::external_body]
pub(crate) fn mac_to_string(mac: &[u8; 6]) -> (text: String)
    ensures
        text@ == mac_text(mac@),
{
    MacAddr(*mac).to_string()
}

} // verus!
