//! The packet encoder: one ARP message in one Ethernet frame, byte for
//! byte, and the hardware address that a link listing shows.
use crate::link::interface::{hardware_address_of, Interface};
use crate::plan::{Action, ActionView};
use vstd::prelude::*;

verus! {

/// The length of an Ethernet header.
pub const ETHERNET_HEADER_LEN: usize = 14;

/// The length of an ARP message for Ethernet and IPv4.
pub const ARP_PACKET_LEN: usize = 28;

/// The length of the whole frame.
pub const FRAME_LEN: usize = 42;

/// The operation code of an ARP message.
#[derive(Clone, Copy, Debug, PartialEq, Eq)]
pub struct ArpOperation {
    pub code: u16,
}

impl ArpOperation {
    /// The code of a request.
    pub fn request() -> (r: ArpOperation)
        ensures
            r.code == 1,
    {
        ArpOperation { code: 1 }
    }

    /// The code of a reply.
    pub fn reply() -> (r: ArpOperation)
        ensures
            r.code == 2,
    {
        ArpOperation { code: 2 }
    }
}

/// The Ethernet header: destination, source, and the EtherType of ARP,
/// `0x0806`.
pub open spec fn ethernet_header(destination: Seq<u8>, source: Seq<u8>) -> Seq<u8> {
    destination + source + seq![0x08u8, 0x06u8]
}

/// The ARP message: hardware type Ethernet (1), protocol type IPv4
/// (`0x0800`), hardware length 6, protocol length 4, the operation code
/// with its high byte first, then the sender's and the target's hardware
/// and protocol addresses.
pub open spec fn arp_packet(
    operation: u16,
    sender_mac: Seq<u8>,
    sender_ip: Seq<u8>,
    target_mac: Seq<u8>,
    target_ip: Seq<u8>,
) -> Seq<u8> {
    seq![
        0x00u8,
        0x01u8,
        0x08u8,
        0x00u8,
        6u8,
        4u8,
        (operation / 256) as u8,
        (operation % 256) as u8,
    ] + sender_mac + sender_ip + target_mac + target_ip
}

/// The frame that announces `source_mac` and `source_ip` to `target_mac`
/// and `target_ip`: the Ethernet header from the source to the target, then
/// the ARP message.
pub open spec fn arp_frame(
    source_ip: Seq<u8>,
    source_mac: Seq<u8>,
    target_ip: Seq<u8>,
    target_mac: Seq<u8>,
    operation: u16,
) -> Seq<u8> {
    ethernet_header(target_mac, source_mac) + arp_packet(
        operation,
        source_mac,
        source_ip,
        target_mac,
        target_ip,
    )
}

/// The address that a gratuitous announcement carries as its sender and its
/// target: 10.10.99.1, a fixed address kept for this notice alone. It is
/// not the address of the interface.
pub open spec fn sentinel_ip() -> Seq<u8> {
    seq![10u8, 10u8, 99u8, 1u8]
}

/// The hardware address that every station listens to.
pub open spec fn broadcast_mac() -> Seq<u8> {
    seq![0xffu8, 0xffu8, 0xffu8, 0xffu8, 0xffu8, 0xffu8]
}

/// The gratuitous announcement of the station `mac`: a request for the
/// sentinel address, from it, to everyone.
pub open spec fn gratuitous_frame(mac: Seq<u8>) -> Seq<u8> {
    arp_frame(sentinel_ip(), mac, sentinel_ip(), broadcast_mac(), 1)
}

/// The six bytes that `pnet::util::MacAddr` reads from a text such as
/// `52:54:00:12:34:56`, or `None` where it reads no address.
pub uninterp spec fn mac_of_text(text: Seq<char>) -> Option<Seq<u8>>;

/// The hardware address that a link listing shows, as six bytes.
pub open spec fn station_of(output: Seq<char>) -> Option<Seq<u8>> {
    match hardware_address_of(output) {
        Some(text) => match mac_of_text(text) {
            Some(mac) => if mac.len() == 6 {
                Some(mac)
            } else {
                None
            },
            None => None,
        },
        None => None,
    }
}

/// Reads a hardware address with `pnet::util::MacAddr::from_str`, which
/// splits the text at `:` and reads six parts as hexadecimal bytes. The
/// result is that function's, with the six bytes in their order.
#[verifier::external_body]
fn parse_mac(text: &str) -> (r: Option<[u8; 6]>)
    ensures
        match r {
            Some(mac) => mac_of_text(text@) == Some(mac@),
            None => mac_of_text(text@).is_none(),
        },
{
    match text.parse::<pnet::util::MacAddr>() {
        Ok(mac) => Some(mac.octets()),
        Err(_) => None,
    }
}

fn extend<const N: usize>(out: &mut Vec<u8>, bytes: &[u8; N])
    ensures
        final(out)@ == old(out)@ + bytes@,
{
    let mut i: usize = 0;
    while i < N
        invariant
            i <= N,
            bytes@.len() == N,
            out@ == old(out)@ + bytes@.take(i as int),
        decreases N - i,
    {
        out.push(bytes[i]);
        assert(bytes@.take(i + 1) =~= bytes@.take(i as int).push(bytes@[i as int]));
        i += 1;
    }
    assert(bytes@.take(N as int) =~= bytes@);
}

/// The sentinel address of a gratuitous announcement.
pub fn sentinel_address() -> (r: [u8; 4])
    ensures
        r@ == sentinel_ip(),
{
    let r: [u8; 4] = [10, 10, 99, 1];
    assert(r@ =~= sentinel_ip());
    r
}

/// The broadcast hardware address.
pub fn broadcast_address() -> (r: [u8; 6])
    ensures
        r@ == broadcast_mac(),
{
    let r: [u8; 6] = [0xff, 0xff, 0xff, 0xff, 0xff, 0xff];
    assert(r@ =~= broadcast_mac());
    r
}

/// Builds the Ethernet frame that carries one ARP message.
pub fn encode_arp_frame(
    source_ip: &[u8; 4],
    source_mac: &[u8; 6],
    target_ip: &[u8; 4],
    target_mac: &[u8; 6],
    arp_operation: ArpOperation,
) -> (frame: Vec<u8>)
    ensures
        frame@ == arp_frame(source_ip@, source_mac@, target_ip@, target_mac@, arp_operation.code),
        frame@.len() == FRAME_LEN,
{
    let mut frame: Vec<u8> = Vec::new();
    extend(&mut frame, target_mac);
    extend(&mut frame, source_mac);
    frame.push(0x08);
    frame.push(0x06);
    assert(frame@ =~= ethernet_header(target_mac@, source_mac@));
    frame.push(0x00);
    frame.push(0x01);
    frame.push(0x08);
    frame.push(0x00);
    frame.push(6);
    frame.push(4);
    frame.push((arp_operation.code / 256) as u8);
    frame.push((arp_operation.code % 256) as u8);
    extend(&mut frame, source_mac);
    extend(&mut frame, source_ip);
    extend(&mut frame, target_mac);
    extend(&mut frame, target_ip);
    assert(frame@ =~= arp_frame(
        source_ip@,
        source_mac@,
        target_ip@,
        target_mac@,
        arp_operation.code,
    ));
    frame
}

/// The transmission of one ARP message on the link of `interface`: the
/// frame is built here, and the caller puts it on the wire.
pub fn send_arp_packet(
    interface: &Interface,
    source_ip: &[u8; 4],
    source_mac: &[u8; 6],
    target_ip: &[u8; 4],
    target_mac: &[u8; 6],
    arp_operation: ArpOperation,
) -> (action: Action)
    ensures
        action@ == (ActionView::Transmit {
            link: interface.name@,
            frame: arp_frame(
                source_ip@,
                source_mac@,
                target_ip@,
                target_mac@,
                arp_operation.code,
            ),
        }),
{
    let frame = encode_arp_frame(source_ip, source_mac, target_ip, target_mac, arp_operation);
    Action::Transmit { link: interface.name.clone(), frame }
}

/// The hardware address in the listing that `Interface::show` printed, as
/// six bytes; `None` where the listing shows none that can be read.
pub fn read_station(output: &str) -> (r: Option<[u8; 6]>)
    ensures
        match r {
            Some(mac) => station_of(output@) == Some(mac@),
            None => station_of(output@).is_none(),
        },
{
    match Interface::get_mac(output) {
        Some(text) => parse_mac(text.as_str()),
        None => None,
    }
}

/// The gratuitous announcement for the station `mac` on the link of
/// `interface`.
pub fn announce(interface: &Interface, mac: &[u8; 6]) -> (action: Action)
    ensures
        action@ == (ActionView::Transmit { link: interface.name@, frame: gratuitous_frame(mac@) }),
{
    let sentinel = sentinel_address();
    let everyone = broadcast_address();
    send_arp_packet(interface, &sentinel, mac, &sentinel, &everyone, ArpOperation::request())
}

/// The layout of the frame, field by field: 42 bytes, of which the first
/// six are the target's hardware address, the next six the source's, the
/// next two the EtherType `0x0806`, and the rest the ARP message with its
/// fixed fields and the four addresses at their fixed offsets.
pub proof fn lemma_frame_layout(
    source_ip: Seq<u8>,
    source_mac: Seq<u8>,
    target_ip: Seq<u8>,
    target_mac: Seq<u8>,
    operation: u16,
)
    requires
        source_ip.len() == 4,
        target_ip.len() == 4,
        source_mac.len() == 6,
        target_mac.len() == 6,
    ensures
        ({
            let f = arp_frame(source_ip, source_mac, target_ip, target_mac, operation);
            &&& f.len() == 42
            &&& f.subrange(0, 6) == target_mac
            &&& f.subrange(6, 12) == source_mac
            &&& f[12] == 0x08 && f[13] == 0x06
            &&& f[14] == 0x00 && f[15] == 0x01
            &&& f[16] == 0x08 && f[17] == 0x00
            &&& f[18] == 6 && f[19] == 4
            &&& f[20] as int * 256 + f[21] as int == operation
            &&& f.subrange(22, 28) == source_mac
            &&& f.subrange(28, 32) == source_ip
            &&& f.subrange(32, 38) == target_mac
            &&& f.subrange(38, 42) == target_ip
        }),
{
    let f = arp_frame(source_ip, source_mac, target_ip, target_mac, operation);
    assert(f.subrange(0, 6) =~= target_mac);
    assert(f.subrange(6, 12) =~= source_mac);
    assert(f.subrange(22, 28) =~= source_mac);
    assert(f.subrange(28, 32) =~= source_ip);
    assert(f.subrange(32, 38) =~= target_mac);
    assert(f.subrange(38, 42) =~= target_ip);
}

/// The layout of a gratuitous announcement, byte for byte: it goes from
/// the station to everyone, carries the EtherType `0x0806`, and asks, as
/// a request over Ethernet and IPv4, for the sentinel address in the name
/// of the sentinel address.
pub proof fn lemma_gratuitous_layout(mac: Seq<u8>)
    requires
        mac.len() == 6,
    ensures
        ({
            let f = gratuitous_frame(mac);
            &&& f.len() == FRAME_LEN
            &&& f.subrange(0, 6) == broadcast_mac()
            &&& f.subrange(6, 12) == mac
            &&& f.subrange(12, 22) == seq![
                0x08u8,
                0x06u8,
                0x00u8,
                0x01u8,
                0x08u8,
                0x00u8,
                6u8,
                4u8,
                0x00u8,
                0x01u8,
            ]
            &&& f.subrange(22, 28) == mac
            &&& f.subrange(28, 32) == sentinel_ip()
            &&& f.subrange(32, 38) == broadcast_mac()
            &&& f.subrange(38, 42) == sentinel_ip()
        }),
{
    let f = gratuitous_frame(mac);
    lemma_frame_layout(sentinel_ip(), mac, sentinel_ip(), broadcast_mac(), 1);
    assert(f.subrange(12, 22) =~= seq![
        0x08u8,
        0x06u8,
        0x00u8,
        0x01u8,
        0x08u8,
        0x00u8,
        6u8,
        4u8,
        0x00u8,
        0x01u8,
    ]);
}

} // verus!
