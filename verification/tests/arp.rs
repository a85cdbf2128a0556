use netd::arp::{
    announce, broadcast_address, encode_arp_frame, read_station, send_arp_packet, sentinel_address,
    ArpOperation, ARP_PACKET_LEN, ETHERNET_HEADER_LEN, FRAME_LEN,
};
use netd::link::interface::Interface;
use netd::plan::Action;
use pnet::packet::arp::{ArpHardwareTypes, ArpOperations, MutableArpPacket};
use pnet::packet::ethernet::{EtherTypes, MutableEthernetPacket};
use pnet::packet::{MutablePacket, Packet};
use pnet::util::MacAddr;

fn reference_frame(
    source_ip: [u8; 4],
    source_mac: [u8; 6],
    target_ip: [u8; 4],
    target_mac: [u8; 6],
    operation: u16,
) -> Vec<u8> {
    let mut ethernet_buffer = [0u8; 42];
    let mut ethernet_packet = MutableEthernetPacket::new(&mut ethernet_buffer).unwrap();
    ethernet_packet.set_destination(MacAddr::from(target_mac));
    ethernet_packet.set_source(MacAddr::from(source_mac));
    ethernet_packet.set_ethertype(EtherTypes::Arp);
    let mut arp_buffer = [0u8; 28];
    let mut arp_packet = MutableArpPacket::new(&mut arp_buffer).unwrap();
    arp_packet.set_hardware_type(ArpHardwareTypes::Ethernet);
    arp_packet.set_protocol_type(EtherTypes::Ipv4);
    arp_packet.set_hw_addr_len(6);
    arp_packet.set_proto_addr_len(4);
    arp_packet.set_operation(pnet::packet::arp::ArpOperation::new(operation));
    arp_packet.set_sender_hw_addr(MacAddr::from(source_mac));
    arp_packet.set_sender_proto_addr(source_ip.into());
    arp_packet.set_target_hw_addr(MacAddr::from(target_mac));
    arp_packet.set_target_proto_addr(target_ip.into());
    ethernet_packet.set_payload(arp_packet.packet_mut());
    ethernet_packet.packet().to_vec()
}

#[test]
fn lengths_add_up() {
    assert_eq!(ETHERNET_HEADER_LEN, 14);
    assert_eq!(ARP_PACKET_LEN, 28);
    assert_eq!(FRAME_LEN, 42);
    assert_eq!(ETHERNET_HEADER_LEN + ARP_PACKET_LEN, FRAME_LEN);
}

#[test]
fn operation_codes() {
    assert_eq!(ArpOperation::request().code, 1);
    assert_eq!(ArpOperation::reply().code, 2);
    assert_eq!(ArpOperations::Request.0, ArpOperation::request().code);
    assert_eq!(ArpOperations::Reply.0, ArpOperation::reply().code);
}

#[test]
fn reply_frame_byte_for_byte() {
    let frame = encode_arp_frame(
        &[0xc0, 0xa8, 0x00, 0x66],
        &[0x28, 0xef, 0xf9, 0x5f, 0x8e, 0x2b],
        &[0xc0, 0xa8, 0x00, 0x65],
        &[0xff; 6],
        ArpOperation::reply(),
    );
    let expected: Vec<u8> = vec![
        0xff, 0xff, 0xff, 0xff, 0xff, 0xff, // destination
        0x28, 0xef, 0xf9, 0x5f, 0x8e, 0x2b, // source
        0x08, 0x06, // EtherType
        0x00, 0x01, // hardware type
        0x08, 0x00, // protocol type
        0x06, 0x04, // lengths
        0x00, 0x02, // operation
        0x28, 0xef, 0xf9, 0x5f, 0x8e, 0x2b, // sender hardware address
        0xc0, 0xa8, 0x00, 0x66, // sender protocol address
        0xff, 0xff, 0xff, 0xff, 0xff, 0xff, // target hardware address
        0xc0, 0xa8, 0x00, 0x65, // target protocol address
    ];
    assert_eq!(frame, expected);
    assert_eq!(frame.len(), 42);
}

#[test]
fn operation_has_its_high_byte_first() {
    let frame = encode_arp_frame(&[1, 2, 3, 4], &[1; 6], &[5, 6, 7, 8], &[2; 6], ArpOperation { code: 0x1234 });
    assert_eq!(frame[20], 0x12);
    assert_eq!(frame[21], 0x34);
}

#[test]
fn frames_agree_with_pnet() {
    let cases: [([u8; 4], [u8; 6], [u8; 4], [u8; 6], u16); 5] = [
        ([10, 10, 99, 1], [0x52, 0x54, 0x00, 0x12, 0x34, 0x56], [10, 10, 99, 1], [0xff; 6], 1),
        ([192, 168, 0, 102], [0x28, 0xef, 0xf9, 0x5f, 0x8e, 0x2b], [192, 168, 0, 101], [0xff; 6], 2),
        ([0, 0, 0, 0], [0; 6], [255, 255, 255, 255], [0xaa, 0xbb, 0xcc, 0xdd, 0xee, 0xff], 0),
        ([1, 2, 3, 4], [6, 5, 4, 3, 2, 1], [4, 3, 2, 1], [1, 2, 3, 4, 5, 6], 0xfffe),
        ([172, 16, 254, 1], [0x02, 0, 0, 0, 0, 0x01], [172, 16, 254, 2], [0x02, 0, 0, 0, 0, 0x02], 256),
    ];
    for (source_ip, source_mac, target_ip, target_mac, code) in cases {
        let ours = encode_arp_frame(&source_ip, &source_mac, &target_ip, &target_mac, ArpOperation { code });
        assert_eq!(ours, reference_frame(source_ip, source_mac, target_ip, target_mac, code));
    }
}

#[test]
fn transmission_names_the_link() {
    let eth0 = Interface::get_from_name("eth0");
    let action = send_arp_packet(&eth0, &[10, 0, 0, 1], &[1, 2, 3, 4, 5, 6], &[10, 0, 0, 2], &[0xff; 6], ArpOperation::request());
    match action {
        Action::Transmit { link, frame } => {
            assert_eq!(link, "eth0");
            assert_eq!(frame, reference_frame([10, 0, 0, 1], [1, 2, 3, 4, 5, 6], [10, 0, 0, 2], [0xff; 6], 1));
        }
        other => panic!("unexpected action {:?}", other),
    }
}

#[test]
fn sentinel_and_broadcast() {
    assert_eq!(sentinel_address(), [10, 10, 99, 1]);
    assert_eq!(broadcast_address(), [0xff; 6]);
    assert_eq!(broadcast_address(), MacAddr::broadcast().octets());
}

#[test]
fn announcement_is_a_request_for_the_sentinel() {
    let br0 = Interface::get_from_name("br0");
    let mac = [0x52, 0x54, 0x00, 0x12, 0x34, 0x56];
    match announce(&br0, &mac) {
        Action::Transmit { link, frame } => {
            assert_eq!(link, "br0");
            assert_eq!(frame.len(), 42);
            assert_eq!(&frame[0..6], &[0xff; 6]);
            assert_eq!(&frame[6..12], &mac);
            assert_eq!(&frame[12..14], &[0x08, 0x06]);
            assert_eq!(&frame[14..22], &[0x00, 0x01, 0x08, 0x00, 6, 4, 0x00, 0x01]);
            assert_eq!(&frame[22..28], &mac);
            assert_eq!(&frame[28..32], &[10, 10, 99, 1]);
            assert_eq!(&frame[32..38], &[0xff; 6]);
            assert_eq!(&frame[38..42], &[10, 10, 99, 1]);
        }
        other => panic!("unexpected action {:?}", other),
    }
}

#[test]
fn station_is_read_from_a_listing() {
    let listing = "2: eth0: <BROADCAST,MULTICAST,UP,LOWER_UP> mtu 1500\n    link/ether 52:54:00:12:34:ab brd ff:ff:ff:ff:ff:ff\n";
    assert_eq!(read_station(listing), Some([0x52, 0x54, 0x00, 0x12, 0x34, 0xab]));
    assert_eq!(read_station("x link/ether FF:ff:0:1:a:B"), Some([0xff, 0xff, 0, 1, 0xa, 0xb]));
}

#[test]
fn station_that_cannot_be_read() {
    assert_eq!(read_station(""), None);
    assert_eq!(read_station("1: lo: link/loopback 00:00:00:00:00:00"), None);
    assert_eq!(read_station("x link/ether 52:54:00:12:34"), None);
    assert_eq!(read_station("x link/ether 52:54:00:12:34:56:78"), None);
    assert_eq!(read_station("x link/ether 52:54:00:12:34:zz"), None);
    assert_eq!(read_station("x link/ether ::::::"), None);
    assert_eq!(read_station("x link/ether"), None);
}
