use dlna::browse::{browse, classify, make_container, make_item, resource, search};
use dlna::media::{FileType, MediaEntry};

fn entry(id: &str, file_type: FileType, prefix: &str) -> MediaEntry {
    MediaEntry {
        id: id.to_string(),
        parent_id: "show".to_string(),
        title: format!("T:{}", id),
        file_type,
        dlna_class: match file_type {
            FileType::Directory => "object.container.storageFolder".to_string(),
            FileType::Video => "object.item.videoItem".to_string(),
            _ => "object.item".to_string(),
        },
        prefix: prefix.to_string(),
    }
}

fn video(id: &str) -> MediaEntry {
    entry(id, FileType::Video, id)
}

#[test]
fn natural_sort_of_items() {
    let response = browse("http://h", vec![video("ep1"), video("ep10"), video("ep2")]);
    let ids: Vec<&str> = response.result.items.iter().map(|i| i.id.as_str()).collect();
    assert_eq!(ids, vec!["ep1", "ep2", "ep10"]);
}

#[test]
fn support_attachment() {
    let children = vec![
        video("show/ep1"),
        entry("show/ep1.jpg", FileType::Image, "show/ep1"),
        entry("show/ep1.srt", FileType::Subtitles, "show/ep1"),
        entry("show/ep2.jpg", FileType::Image, "show/ep2"),
    ];
    let response = browse("http://h:8080", children);
    assert_eq!(response.result.items.len(), 1);
    let item = &response.result.items[0];
    assert_eq!(item.id, "show/ep1");
    assert_eq!(item.res.len(), 2);
    assert_eq!(item.res[0].protocol_info, "http-get:*:video/x-matroska:*");
    assert_eq!(item.res[0].uri, "http://h:8080/video/show/ep1");
    assert_eq!(item.res[1].protocol_info, "http-get:*:image/jpeg:*");
    assert_eq!(item.res[1].uri, "http://h:8080/files/show/ep1.jpg");
}

#[test]
fn browse_has_fixed_counts_and_namespaces() {
    let response = browse("http://h", Vec::new());
    assert_eq!(response.number_returned, 1);
    assert_eq!(response.total_matches, 1);
    assert_eq!(response.update_id, 1);
    assert_eq!(response.result.xmlns, "urn:schemas-upnp-org:metadata-1-0/DIDL-Lite/");
    assert_eq!(response.result.xmlns_dc, "http://purl.org/dc/elements/1.1/");
    assert_eq!(response.result.xmlns_upnp, "urn:schemas-upnp-org:metadata-1-0/upnp/");
    assert!(response.result.containers.is_empty());
    assert!(response.result.items.is_empty());
}

#[test]
fn browse_sorts_containers_and_drops_other_files() {
    let children = vec![
        entry("lib/s10", FileType::Directory, "lib/s10"),
        entry("lib/notes.txt", FileType::Other, "lib/notes"),
        entry("lib/s2", FileType::Directory, "lib/s2"),
        video("lib/movie.mkv"),
        entry("lib/s1", FileType::Directory, "lib/s1"),
    ];
    let response = browse("http://h", children);
    let dirs: Vec<&str> = response.result.containers.iter().map(|c| c.id.as_str()).collect();
    assert_eq!(dirs, vec!["lib/s1", "lib/s2", "lib/s10"]);
    let c = &response.result.containers[0];
    assert_eq!(c.parent_id, "show");
    assert_eq!(c.title, "T:lib/s1");
    assert!(c.restricted);
    assert_eq!(c.class, "object.container.storageFolder");
    assert_eq!(response.result.items.len(), 1);
    let item = &response.result.items[0];
    assert_eq!(item.id, "lib/movie.mkv");
    assert_eq!(item.parent_id, "show");
    assert_eq!(item.title, "T:lib/movie.mkv");
    assert!(item.restricted);
    assert_eq!(item.class, "object.item.videoItem");
    assert_eq!(item.res.len(), 1);
}

#[test]
fn each_video_gets_its_own_images() {
    let children = vec![
        entry("s/b.mkv", FileType::Video, "s/b."),
        entry("s/a.mkv", FileType::Video, "s/a."),
        entry("s/b.jpg", FileType::Image, "s/b."),
        entry("s/a.png", FileType::Image, "s/a."),
        entry("s/a.jpg", FileType::Image, "s/a."),
        entry("s/a.en.srt", FileType::Subtitles, "s/a."),
        entry("s/c.jpg", FileType::Image, "s/c."),
    ];
    let response = browse("http://h", children);
    let items = &response.result.items;
    assert_eq!(items.len(), 2);
    assert_eq!(items[0].id, "s/a.mkv");
    let a: Vec<&str> = items[0].res.iter().map(|r| r.uri.as_str()).collect();
    assert_eq!(a, vec!["http://h/video/s/a.mkv", "http://h/files/s/a.jpg", "http://h/files/s/a.png"]);
    assert_eq!(items[1].id, "s/b.mkv");
    let b: Vec<&str> = items[1].res.iter().map(|r| r.uri.as_str()).collect();
    assert_eq!(b, vec!["http://h/video/s/b.mkv", "http://h/files/s/b.jpg"]);
}

#[test]
fn resource_uris_are_percent_encoded() {
    let res = resource("http://h", "/video/", "my show/ep 1?.mkv", "http-get:*:video/x-matroska:*");
    assert_eq!(res.uri, "http://h/video/my%20show/ep%201%3F.mkv");
    assert_eq!(res.protocol_info, "http-get:*:video/x-matroska:*");
    let res = resource("", "/files/", "a\"#<>`{}b", "p");
    assert_eq!(res.uri, "/files/a%22%23%3C%3E%60%7B%7Db");
    let res = resource("", "/", "é\u{7f}\n~%/", "p");
    assert_eq!(res.uri, "/%C3%A9%7F%0A~%/");
    let res = resource("u", "/r/", "", "p");
    assert_eq!(res.uri, "u/r/");
}

#[test]
fn classify_keeps_arrival_order() {
    let parts = classify(vec![
        entry("d2", FileType::Directory, ""),
        entry("v2", FileType::Video, ""),
        entry("i1", FileType::Image, ""),
        entry("o", FileType::Other, ""),
        entry("d1", FileType::Directory, ""),
        entry("s1", FileType::Subtitles, ""),
        entry("v1", FileType::Video, ""),
    ]);
    let ids = |v: &Vec<MediaEntry>| v.iter().map(|e| e.id.clone()).collect::<Vec<_>>();
    assert_eq!(ids(&parts.containers), vec!["d2", "d1"]);
    assert_eq!(ids(&parts.items), vec!["v2", "v1"]);
    assert_eq!(ids(&parts.support), vec!["i1", "s1"]);
}

#[test]
fn search_finds_the_first_entry_with_the_prefix() {
    let support = vec![
        entry("a.jpg", FileType::Image, ""),
        entry("b.jpg", FileType::Image, ""),
        entry("b.srt", FileType::Subtitles, ""),
        entry("d.jpg", FileType::Image, ""),
    ];
    assert_eq!(search(&support, b""), 0);
    assert_eq!(search(&support, b"a.jpg"), 0);
    assert_eq!(search(&support, b"b"), 1);
    assert_eq!(search(&support, b"b.s"), 2);
    assert_eq!(search(&support, b"b.k"), 4);
    assert_eq!(search(&support, b"c"), 4);
    assert_eq!(search(&support, b"d.jpg"), 3);
    assert_eq!(search(&support, b"d.jpgx"), 4);
    assert_eq!(search(&support, b"e"), 4);
    assert_eq!(search(&Vec::new(), b"x"), 0);
    assert_eq!(search(&Vec::new(), b""), 0);
}

#[test]
fn search_does_not_need_the_order_of_bytes() {
    // natural order: ep2 before ep10, though "show/ep10" is below "show/ep2" as bytes
    let support = vec![
        entry("show/ep2.jpg", FileType::Image, ""),
        entry("show/ep10.jpg", FileType::Image, ""),
        entry("show/ep100.jpg", FileType::Image, ""),
    ];
    assert_eq!(search(&support, b"show/ep10"), 1);
    assert_eq!(search(&support, b"show/ep100"), 2);
    assert_eq!(search(&support, b"show/ep2"), 0);
    assert_eq!(search(&support, b"show/ep3"), 3);
}

#[test]
fn poster_is_attached_across_digit_runs_of_different_length() {
    let children = vec![
        entry("show/ep10", FileType::Video, "show/ep10"),
        entry("show/ep2.jpg", FileType::Image, "show/ep2"),
        entry("show/ep10.jpg", FileType::Image, "show/ep10"),
    ];
    let response = browse("http://h", children);
    assert_eq!(response.result.items.len(), 1);
    let item = &response.result.items[0];
    assert_eq!(item.id, "show/ep10");
    let uris: Vec<&str> = item.res.iter().map(|r| r.uri.as_str()).collect();
    assert_eq!(uris, vec!["http://h/video/show/ep10", "http://h/files/show/ep10.jpg"]);
    assert_eq!(item.res[1].protocol_info, "http-get:*:image/jpeg:*");
}

#[test]
fn every_episode_gets_its_poster_whatever_its_number() {
    let mut children = Vec::new();
    for n in vec![1, 2, 9, 10, 11, 20, 99, 100, 101, 1000] {
        children.push(entry(&format!("s/ep{}.mkv", n), FileType::Video, &format!("s/ep{}.", n)));
        children.push(entry(&format!("s/ep{}.jpg", n), FileType::Image, &format!("s/ep{}.", n)));
        children.push(entry(&format!("s/ep{}.png", n), FileType::Image, &format!("s/ep{}.", n)));
        children.push(entry(&format!("s/ep{}.srt", n), FileType::Subtitles, &format!("s/ep{}.", n)));
    }
    children.reverse();
    let response = browse("http://h", children);
    let items = &response.result.items;
    let ids: Vec<&str> = items.iter().map(|i| i.id.as_str()).collect();
    assert_eq!(
        ids,
        vec![
            "s/ep1.mkv", "s/ep2.mkv", "s/ep9.mkv", "s/ep10.mkv", "s/ep11.mkv", "s/ep20.mkv",
            "s/ep99.mkv", "s/ep100.mkv", "s/ep101.mkv", "s/ep1000.mkv"
        ]
    );
    for item in items {
        let stem = item.id.trim_end_matches("mkv");
        let uris: Vec<String> = item.res.iter().map(|r| r.uri.clone()).collect();
        assert_eq!(
            uris,
            vec![
                format!("http://h/video/{}mkv", stem),
                format!("http://h/files/{}jpg", stem),
                format!("http://h/files/{}png", stem),
            ]
        );
    }
}

#[test]
fn only_the_first_run_with_the_prefix_is_attached() {
    // "ep1" is also how "ep10.jpg" starts, but "ep2.jpg" stands between them
    let support = vec![
        entry("ep1.jpg", FileType::Image, ""),
        entry("ep1.srt", FileType::Subtitles, ""),
        entry("ep2.jpg", FileType::Image, ""),
        entry("ep10.jpg", FileType::Image, ""),
    ];
    let item = make_item("http://h", &entry("ep1", FileType::Video, "ep1"), &support);
    let uris: Vec<&str> = item.res.iter().map(|r| r.uri.as_str()).collect();
    assert_eq!(uris, vec!["http://h/video/ep1", "http://h/files/ep1.jpg"]);
    let item = make_item("http://h", &entry("ep3", FileType::Video, "ep3"), &support);
    assert_eq!(item.res.len(), 1);
    let item = make_item("http://h", &entry("all", FileType::Video, ""), &support);
    assert_eq!(item.res.len(), 4);
}

#[test]
fn make_item_stops_at_the_first_entry_without_the_prefix() {
    let support = vec![
        entry("m/a.jpg", FileType::Image, ""),
        entry("m/a.srt", FileType::Subtitles, ""),
        entry("m/b.jpg", FileType::Image, ""),
        entry("m/a.zzz.jpg", FileType::Image, ""),
    ];
    let item = make_item("http://h", &entry("m/a.mkv", FileType::Video, "m/a."), &support);
    let uris: Vec<&str> = item.res.iter().map(|r| r.uri.as_str()).collect();
    assert_eq!(uris, vec!["http://h/video/m/a.mkv", "http://h/files/m/a.jpg"]);
}

#[test]
fn make_container_copies_the_entry() {
    let c = make_container(&entry("lib/dir", FileType::Directory, "lib/dir"));
    assert_eq!(c.id, "lib/dir");
    assert_eq!(c.parent_id, "show");
    assert_eq!(c.title, "T:lib/dir");
    assert_eq!(c.class, "object.container.storageFolder");
    assert!(c.restricted);
}
