use netd::interface::garp::{Announcer, AnnouncerStage, ANNOUNCEMENTS, ANNOUNCEMENT_INTERVAL};
use netd::link::interface::Interface;
use netd::plan::{Action, Command, Error, Outcome, Step};

fn show(name: &str) -> Action {
    Action::Run(Command { program: "ip".to_string(), args: vec!["link".to_string(), "show".to_string(), name.to_string()] })
}

fn ok() -> Outcome {
    Outcome::Finished { success: true, output: String::new() }
}

fn listing(mac: &str) -> Outcome {
    Outcome::Finished {
        success: true,
        output: format!("2: eth0: <BROADCAST,UP> mtu 1500\n    link/ether {} brd ff:ff:ff:ff:ff:ff\n", mac),
    }
}

fn frame(mac: [u8; 6]) -> Vec<u8> {
    let mut f = vec![0xff; 6];
    f.extend_from_slice(&mac);
    f.extend_from_slice(&[0x08, 0x06, 0x00, 0x01, 0x08, 0x00, 6, 4, 0x00, 0x01]);
    f.extend_from_slice(&mac);
    f.extend_from_slice(&[10, 10, 99, 1]);
    f.extend_from_slice(&[0xff; 6]);
    f.extend_from_slice(&[10, 10, 99, 1]);
    f
}

#[test]
fn three_announcements_a_second_apart() {
    assert_eq!(ANNOUNCEMENTS, 3);
    assert_eq!(ANNOUNCEMENT_INTERVAL, 1);
    let eth0 = Interface::get_from_name("eth0");
    let mut a = Announcer::new(&eth0);
    assert_eq!(a.stage(), AnnouncerStage::Idle);
    assert_eq!(a.sent(), 0);
    let mut step = a.start();
    for round in 1..=3u8 {
        assert_eq!(step, Step::Perform(show("eth0")));
        assert_eq!(a.stage(), AnnouncerStage::Reading);
        let sent = a.advance(&listing("52:54:00:12:34:56"));
        assert_eq!(
            sent,
            Step::Perform(Action::Transmit { link: "eth0".to_string(), frame: frame([0x52, 0x54, 0x00, 0x12, 0x34, 0x56]) })
        );
        assert_eq!(a.sent(), round);
        assert_eq!(a.advance(&ok()), Step::Perform(Action::Sleep(1)));
        step = a.advance(&ok());
    }
    assert_eq!(step, Step::Complete);
    assert_eq!(a.stage(), AnnouncerStage::Done);
    assert_eq!(a.sent(), 3);
    assert!(!a.active());
    assert_eq!(a.advance(&listing("52:54:00:12:34:56")), Step::Complete);
    assert_eq!(a.sent(), 3);
}

#[test]
fn each_frame_carries_the_address_of_its_moment() {
    let eth0 = Interface::get_from_name("eth0");
    let mut a = Announcer::new(&eth0);
    a.start();
    let first = a.advance(&listing("02:00:00:00:00:01"));
    a.advance(&ok());
    a.advance(&ok());
    let second = a.advance(&listing("02:00:00:00:00:02"));
    assert_eq!(first, Step::Perform(Action::Transmit { link: "eth0".to_string(), frame: frame([2, 0, 0, 0, 0, 1]) }));
    assert_eq!(second, Step::Perform(Action::Transmit { link: "eth0".to_string(), frame: frame([2, 0, 0, 0, 0, 2]) }));
}

#[test]
fn frames_are_42_bytes_of_arp() {
    let eth0 = Interface::get_from_name("eth0");
    let mut a = Announcer::new(&eth0);
    a.start();
    match a.advance(&listing("aa:bb:cc:dd:ee:ff")) {
        Step::Perform(Action::Transmit { frame, .. }) => {
            assert_eq!(frame.len(), 42);
            assert_eq!(&frame[12..14], &[0x08, 0x06]);
        }
        other => panic!("unexpected step {:?}", other),
    }
}

#[test]
fn unreadable_hardware_address_is_fatal() {
    let eth0 = Interface::get_from_name("eth0");
    let mut a = Announcer::new(&eth0);
    a.start();
    assert_eq!(a.advance(&ok()), Step::Abort(Error::NoHardwareAddress("eth0".to_string())));
    assert_eq!(a.stage(), AnnouncerStage::Failed);
    assert_eq!(a.sent(), 0);
    let mut b = Announcer::new(&eth0);
    b.start();
    assert_eq!(b.advance(&listing("52:54:00:12:34")), Step::Abort(Error::NoHardwareAddress("eth0".to_string())));
}

#[test]
fn failed_link_listing_is_fatal() {
    let eth0 = Interface::get_from_name("eth0");
    let mut a = Announcer::new(&eth0);
    a.start();
    let listing = Outcome::Finished {
        success: false,
        output: "2: eth0: <UP>\n    link/ether 52:54:00:12:34:56 brd ff:ff:ff:ff:ff:ff\n".to_string(),
    };
    assert_eq!(a.advance(&listing), Step::Abort(Error::Failed(show("eth0"))));
    assert_eq!(a.stage(), AnnouncerStage::Failed);
    assert_eq!(a.sent(), 0);
}

#[test]
fn frame_that_cannot_be_sent_is_fatal() {
    let eth0 = Interface::get_from_name("eth0");
    let mut a = Announcer::new(&eth0);
    a.start();
    a.advance(&listing("52:54:00:12:34:56"));
    assert_eq!(
        a.advance(&Outcome::Unperformed),
        Step::Abort(Error::Unperformed(Action::Transmit { link: "eth0".to_string(), frame: frame([0x52, 0x54, 0x00, 0x12, 0x34, 0x56]) }))
    );
    assert_eq!(a.sent(), 1);
}
