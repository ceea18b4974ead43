use dlna::discovery::{
    announce, judge_send, notify_message, Beacon, Notice, Verdict, INTERVAL_SECS, NOTICES,
    SSDP_GROUP,
};

const UDN: &str = "uuid:6b0e8a2e-1f0f-4c55-9f4f-0d7bbd2c1a11";
const ADDR: &str = "192.168.1.5:8080";

fn expected(nt: &str, usn: &str) -> String {
    format!(
        "NOTIFY * HTTP/1.1\r\nHOST: 239.255.255.250:1900\r\nNT: {}\r\nNTS: ssdp:alive\r\nLOCATION: http://{}/root.xml\r\nUSN: {}\r\nCACHE-CONTROL: max-age=1800\r\nSERVER: somesystem, DLNADOC/1.50 UPnP/1.0, rustmedia/1.0\r\n\r\n",
        nt, ADDR, usn
    )
}

#[test]
fn notify_message_text() {
    assert_eq!(notify_message("upnp:rootdevice", ADDR, "some::usn"), expected("upnp:rootdevice", "some::usn"));
    assert_eq!(
        notify_message("", "", ""),
        "NOTIFY * HTTP/1.1\r\nHOST: 239.255.255.250:1900\r\nNT: \r\nNTS: ssdp:alive\r\nLOCATION: http:///root.xml\r\nUSN: \r\nCACHE-CONTROL: max-age=1800\r\nSERVER: somesystem, DLNADOC/1.50 UPnP/1.0, rustmedia/1.0\r\n\r\n"
    );
}

#[test]
fn the_five_announcements() {
    let cases = vec![
        (Notice::Uuid, UDN.to_string(), UDN.to_string()),
        (Notice::Root, "upnp:rootdevice".to_string(), format!("{}::upnp:rootdevice", UDN)),
        (
            Notice::MediaServer,
            "urn:schemas-upnp-org:device:MediaServer:1".to_string(),
            format!("{}::urn:schemas-upnp-org:device:MediaServer:1", UDN),
        ),
        (
            Notice::ConnectionManager,
            "urn:schemas-upnp-org:service:ConnectionManager:1".to_string(),
            format!("{}::urn:schemas-upnp-org:service:ConnectionManager:1", UDN),
        ),
        (
            Notice::ContentDirectory,
            "urn:schemas-upnp-org:service:ContentDirectory:1".to_string(),
            format!("{}::urn:schemas-upnp-org:service:ContentDirectory:1", UDN),
        ),
    ];
    for (notice, nt, usn) in cases {
        let a = announce(notice, UDN, ADDR);
        assert_eq!(a.notice, notice);
        assert_eq!(a.data, expected(&nt, &usn).into_bytes());
    }
}

#[test]
fn announcements_carry_text_outside_ascii_as_utf8() {
    let a = announce(Notice::Uuid, "uuid:é", "h");
    let text = String::from_utf8(a.data).unwrap();
    assert!(text.contains("NT: uuid:é\r\n"));
    assert!(text.contains("USN: uuid:é\r\n"));
}

#[test]
fn notice_names() {
    assert_eq!(Notice::Uuid.name(), "uuid");
    assert_eq!(Notice::Root.name(), "root");
    assert_eq!(Notice::MediaServer.name(), "mediaserver");
    assert_eq!(Notice::ConnectionManager.name(), "connectionmanager");
    assert_eq!(Notice::ContentDirectory.name(), "contentdir");
}

#[test]
fn fixed_network_identity() {
    assert_eq!(SSDP_GROUP, "239.255.255.250:1900");
    assert_eq!(INTERVAL_SECS, 10);
    assert_eq!(NOTICES, 5);
}

#[test]
fn sends_are_judged() {
    assert_eq!(judge_send(Some(120), 120), Verdict::Delivered);
    assert_eq!(judge_send(Some(0), 0), Verdict::Delivered);
    assert_eq!(judge_send(Some(60), 120), Verdict::Truncated);
    assert_eq!(judge_send(Some(0), 120), Verdict::Truncated);
    assert_eq!(judge_send(Some(121), 120), Verdict::Truncated);
    assert_eq!(judge_send(None, 120), Verdict::Failed);
}

fn run_burst(beacon: &Beacon, fail_at: Option<usize>, truncate_at: Option<usize>) -> Vec<Notice> {
    let mut sent = Vec::new();
    let mut next = beacon.on_tick();
    while let Some(pos) = next {
        let datagram = beacon.datagram(pos).unwrap();
        let written = if fail_at == Some(pos) {
            None
        } else if truncate_at == Some(pos) {
            Some(datagram.data.len() / 2)
        } else {
            Some(datagram.data.len())
        };
        if written.is_some() {
            sent.push(datagram.notice);
        }
        next = beacon.after_send(pos, judge_send(written, datagram.data.len()));
    }
    sent
}

#[test]
fn three_ticks_three_bursts_of_five() {
    let beacon = Beacon::new(UDN, ADDR, 1);
    let mut bursts = Vec::new();
    for _tick in 0..3 {
        bursts.push(run_burst(&beacon, None, None));
    }
    assert_eq!(bursts.len(), 3);
    for burst in bursts {
        assert_eq!(
            burst,
            vec![
                Notice::Uuid,
                Notice::Root,
                Notice::MediaServer,
                Notice::ConnectionManager,
                Notice::ContentDirectory
            ]
        );
    }
}

#[test]
fn bursts_repeat_as_often_as_asked() {
    let beacon = Beacon::new(UDN, ADDR, 3);
    assert_eq!(beacon.burst_len(), 15);
    let burst = run_burst(&beacon, None, None);
    assert_eq!(burst.len(), 15);
    for round in 0..3 {
        assert_eq!(burst[round * 5], Notice::Uuid);
        assert_eq!(burst[round * 5 + 1], Notice::Root);
        assert_eq!(burst[round * 5 + 2], Notice::MediaServer);
        assert_eq!(burst[round * 5 + 3], Notice::ConnectionManager);
        assert_eq!(burst[round * 5 + 4], Notice::ContentDirectory);
    }
    assert!(beacon.datagram(15).is_none());
    assert_eq!(beacon.datagram(7).unwrap().data, announce(Notice::MediaServer, UDN, ADDR).data);

    let silent = Beacon::new(UDN, ADDR, 0);
    assert_eq!(silent.burst_len(), 0);
    assert_eq!(silent.on_tick(), None);
    assert!(silent.datagram(0).is_none());
    assert!(run_burst(&silent, None, None).is_empty());
}

#[test]
fn a_failed_send_ends_the_burst_and_the_next_tick_starts_over() {
    let beacon = Beacon::new(UDN, ADDR, 1);
    assert_eq!(run_burst(&beacon, Some(2), None), vec![Notice::Uuid, Notice::Root]);
    assert_eq!(run_burst(&beacon, Some(0), None), Vec::<Notice>::new());
    assert_eq!(run_burst(&beacon, None, None).len(), 5);
    assert_eq!(beacon.after_send(1, Verdict::Failed), None);
    assert_eq!(beacon.after_send(1, Verdict::Delivered), Some(2));
    assert_eq!(beacon.after_send(4, Verdict::Delivered), None);
    assert_eq!(beacon.after_send(9, Verdict::Delivered), None);
}

#[test]
fn a_truncated_send_does_not_end_the_burst() {
    let beacon = Beacon::new(UDN, ADDR, 1);
    assert_eq!(run_burst(&beacon, None, Some(1)).len(), 5);
    assert_eq!(beacon.after_send(1, Verdict::Truncated), Some(2));
    assert_eq!(beacon.after_send(4, Verdict::Truncated), None);
}
