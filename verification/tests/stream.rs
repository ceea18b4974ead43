use dlna::http::Status;
use dlna::job::{Job, JobState, ReadStep, Reader};
use dlna::stream::{
    clamp_span, plan_file, plan_stream, BodySource, ByteRangeSpec, ContentRange, Range, Size,
};

fn bytes(n: usize) -> Vec<u8> {
    (0..n).map(|i| (i * 7 % 251) as u8).collect()
}

fn flat(chunks: &Vec<Vec<u8>>) -> Vec<u8> {
    let mut out = Vec::new();
    for c in chunks {
        out.extend_from_slice(c);
    }
    out
}

#[test]
fn span_within_what_is_ready() {
    assert_eq!(clamp_span(ByteRangeSpec::FromTo(0, 0), 3), Some((0, 0)));
    assert_eq!(clamp_span(ByteRangeSpec::FromTo(1, 2), 3), Some((1, 2)));
    assert_eq!(clamp_span(ByteRangeSpec::FromTo(1, 5), 3), Some((1, 2)));
    assert_eq!(clamp_span(ByteRangeSpec::FromTo(1, u64::MAX), 3), Some((1, 2)));
    assert_eq!(clamp_span(ByteRangeSpec::AllFrom(0), 3), Some((0, 2)));
    assert_eq!(clamp_span(ByteRangeSpec::AllFrom(2), 3), Some((2, 2)));
    assert_eq!(
        clamp_span(ByteRangeSpec::AllFrom(0), u64::MAX),
        Some((0, u64::MAX - 1))
    );
}

#[test]
fn span_that_cannot_be_served() {
    assert_eq!(clamp_span(ByteRangeSpec::FromTo(3, 3), 3), None);
    assert_eq!(clamp_span(ByteRangeSpec::FromTo(2, 1), 3), None);
    assert_eq!(clamp_span(ByteRangeSpec::FromTo(0, 0), 0), None);
    assert_eq!(clamp_span(ByteRangeSpec::AllFrom(3), 3), None);
    assert_eq!(clamp_span(ByteRangeSpec::AllFrom(5), 3), None);
    assert_eq!(clamp_span(ByteRangeSpec::AllFrom(0), 0), None);
    assert_eq!(clamp_span(ByteRangeSpec::Last(2), 3), None);
    assert_eq!(clamp_span(ByteRangeSpec::Last(0), 3), None);
}

#[test]
fn no_range_gives_the_whole_stream() {
    let plan = plan_stream(&None, Size { available: 100, total: Some(400) });
    assert_eq!(plan.status, Status::Success);
    assert_eq!(plan.status.code(), 200);
    assert_eq!(plan.content_range, None);
    assert_eq!(plan.content_length, Some(400));
    assert_eq!(plan.body, BodySource::All);
    let plan = plan_stream(&None, Size { available: 100, total: None });
    assert_eq!(plan.status, Status::Success);
    assert_eq!(plan.content_length, None);
    assert_eq!(plan.body, BodySource::All);
}

#[test]
fn closed_range_gives_partial_content() {
    let range = Some(Range::Bytes(vec![ByteRangeSpec::FromTo(10, 19)]));
    let plan = plan_stream(&range, Size { available: 100, total: Some(400) });
    assert_eq!(plan.status, Status::PartialContent);
    assert_eq!(plan.status.code(), 206);
    assert_eq!(
        plan.content_range,
        Some(ContentRange { first: 10, last: 19, instance_length: Some(400) })
    );
    assert_eq!(plan.content_length, Some(10));
    assert_eq!(plan.body, BodySource::Span { start: 10, end: 20 });
}

#[test]
fn range_is_cut_to_what_is_ready() {
    let range = Some(Range::Bytes(vec![ByteRangeSpec::FromTo(90, 399)]));
    let plan = plan_stream(&range, Size { available: 100, total: None });
    assert_eq!(plan.status, Status::PartialContent);
    assert_eq!(
        plan.content_range,
        Some(ContentRange { first: 90, last: 99, instance_length: None })
    );
    assert_eq!(plan.content_length, Some(10));
    assert_eq!(plan.body, BodySource::Span { start: 90, end: 100 });
}

#[test]
fn open_range_runs_to_the_last_ready_byte() {
    let range = Some(Range::Bytes(vec![ByteRangeSpec::AllFrom(40)]));
    let plan = plan_stream(&range, Size { available: 100, total: Some(100) });
    assert_eq!(plan.status, Status::PartialContent);
    assert_eq!(
        plan.content_range,
        Some(ContentRange { first: 40, last: 99, instance_length: Some(100) })
    );
    assert_eq!(plan.content_length, Some(60));
    assert_eq!(plan.body, BodySource::Span { start: 40, end: 100 });
}

#[test]
fn only_the_first_entry_counts() {
    let range = Some(Range::Bytes(vec![
        ByteRangeSpec::FromTo(0, 4),
        ByteRangeSpec::FromTo(50, 59),
    ]));
    let plan = plan_stream(&range, Size { available: 100, total: None });
    assert_eq!(plan.content_length, Some(5));
    assert_eq!(plan.body, BodySource::Span { start: 0, end: 5 });
    let range = Some(Range::Bytes(vec![ByteRangeSpec::Last(5), ByteRangeSpec::FromTo(0, 4)]));
    let plan = plan_stream(&range, Size { available: 100, total: None });
    assert_eq!(plan.status, Status::Success);
    assert_eq!(plan.body, BodySource::All);
}

#[test]
fn unusable_ranges_fall_back_to_the_whole_stream() {
    let size = Size { available: 100, total: Some(250) };
    for range in vec![
        Some(Range::Bytes(vec![ByteRangeSpec::Last(10)])),
        Some(Range::Bytes(vec![ByteRangeSpec::FromTo(100, 120)])),
        Some(Range::Bytes(vec![ByteRangeSpec::AllFrom(100)])),
        Some(Range::Bytes(vec![ByteRangeSpec::AllFrom(5000)])),
        Some(Range::Bytes(vec![ByteRangeSpec::FromTo(7, 3)])),
        Some(Range::Bytes(Vec::new())),
        Some(Range::Unregistered),
    ] {
        let plan = plan_stream(&range, size);
        assert_eq!(plan.status, Status::Success);
        assert_eq!(plan.content_range, None);
        assert_eq!(plan.content_length, Some(250));
        assert_eq!(plan.body, BodySource::All);
    }
}

#[test]
fn nothing_ready_means_no_partial_content() {
    let range = Some(Range::Bytes(vec![ByteRangeSpec::AllFrom(0)]));
    let plan = plan_stream(&range, Size { available: 0, total: None });
    assert_eq!(plan.status, Status::Success);
    assert_eq!(plan.content_length, None);
    assert_eq!(plan.body, BodySource::All);
}

#[test]
fn files_are_sent_whole_without_a_length() {
    let plan = plan_file();
    assert_eq!(plan.status, Status::Success);
    assert_eq!(plan.content_range, None);
    assert_eq!(plan.content_length, None);
    assert_eq!(plan.body, BodySource::All);
}

#[test]
fn job_grows_and_reports_its_size() {
    let mut job = Job::new();
    assert_eq!(job.state(), JobState::Running);
    assert_eq!(job.size(), Size { available: 0, total: None });
    job.append(&bytes(10));
    job.append(&[]);
    job.append(&bytes(5));
    assert_eq!(job.size(), Size { available: 15, total: None });
    job.finish();
    assert_eq!(job.state(), JobState::Complete);
    assert_eq!(job.size(), Size { available: 15, total: Some(15) });
    job.append(&bytes(3));
    assert_eq!(job.size(), Size { available: 15, total: Some(15) });
    job.fail();
    assert_eq!(job.state(), JobState::Complete);
}

#[test]
fn range_body_is_the_slice() {
    let content = bytes(1000);
    let mut job = Job::new();
    job.append(&content[..300]);
    job.append(&content[300..]);
    for (start, end) in vec![(0u64, 0u64), (0, 999), (10, 19), (299, 300), (500, 998), (999, 999)] {
        let range = Some(Range::Bytes(vec![ByteRangeSpec::FromTo(start, end)]));
        let plan = plan_stream(&range, job.size());
        assert_eq!(plan.status, Status::PartialContent);
        assert_eq!(plan.content_length, Some(end - start + 1));
        assert_eq!(plan.body, BodySource::Span { start, end: end + 1 });
        for limit in vec![1usize, 7, 64, 4096] {
            let chunks = job.read_range(start, end + 1, limit);
            let body = flat(&chunks);
            assert_eq!(body.len() as u64, end - start + 1);
            assert_eq!(&body[..], &content[start as usize..=end as usize]);
            assert!(chunks.iter().all(|c| !c.is_empty() && c.len() <= limit));
        }
        let whole = job.read_range(start, end + 1, 0);
        assert_eq!(whole.len(), 1);
        assert_eq!(&whole[0][..], &content[start as usize..=end as usize]);
    }
}

#[test]
fn read_all_gives_what_is_ready() {
    let content = bytes(100);
    let mut job = Job::new();
    assert!(job.read_all(16).is_empty());
    job.append(&content[..40]);
    assert_eq!(flat(&job.read_all(16)), &content[..40]);
    assert_eq!(job.read_all(16).len(), 3);
    job.append(&content[40..]);
    job.finish();
    assert_eq!(flat(&job.read_all(16)), content);
    assert_eq!(job.read_all(0), vec![content.clone()]);
    match job.read(90, None, 0) {
        ReadStep::Chunk(c) => assert_eq!(c, &content[90..]),
        _ => panic!("bytes are ready"),
    }
}

#[test]
fn reader_follows_a_growing_job() {
    let content = bytes(50);
    let mut job = Job::new();
    let mut reader = Reader::new(BodySource::All);
    assert_eq!(reader, Reader { pos: 0, end: None });
    assert!(matches!(reader.poll(&job, 8), ReadStep::Pending));
    job.append(&content[..20]);
    let mut got = Vec::new();
    loop {
        match reader.poll(&job, 8) {
            ReadStep::Chunk(c) => got.extend_from_slice(&c),
            ReadStep::Pending => break,
            _ => panic!("running job"),
        }
    }
    assert_eq!(got, &content[..20]);
    assert_eq!(reader.pos, 20);
    job.append(&content[20..]);
    job.finish();
    loop {
        match reader.poll(&job, 8) {
            ReadStep::Chunk(c) => got.extend_from_slice(&c),
            ReadStep::Done => break,
            _ => panic!("complete job"),
        }
    }
    assert_eq!(got, content);
    assert_eq!(reader.pos, 50);
    assert!(matches!(reader.poll(&job, 8), ReadStep::Done));
}

#[test]
fn reader_of_a_span_waits_only_for_its_own_bytes() {
    let content = bytes(50);
    let mut job = Job::new();
    job.append(&content[..30]);
    let mut reader = Reader::new(BodySource::Span { start: 10, end: 40 });
    assert_eq!(reader, Reader { pos: 10, end: Some(40) });
    match reader.poll(&job, 100) {
        ReadStep::Chunk(c) => assert_eq!(c, &content[10..30]),
        _ => panic!("bytes are ready"),
    }
    assert!(matches!(reader.poll(&job, 100), ReadStep::Pending));
    job.append(&content[30..]);
    match reader.poll(&job, 100) {
        ReadStep::Chunk(c) => assert_eq!(c, &content[30..40]),
        _ => panic!("bytes are ready"),
    }
    assert!(matches!(reader.poll(&job, 100), ReadStep::Done));
    assert_eq!(reader.pos, 40);
}

#[test]
fn span_beyond_a_complete_job_ends_with_the_job() {
    let mut job = Job::new();
    job.append(&bytes(10));
    job.finish();
    let mut reader = Reader::new(BodySource::Span { start: 5, end: 100 });
    match reader.poll(&job, 100) {
        ReadStep::Chunk(c) => assert_eq!(c, &bytes(10)[5..]),
        _ => panic!("bytes are ready"),
    }
    assert!(matches!(reader.poll(&job, 100), ReadStep::Done));
    assert!(matches!(job.read(3, Some(3), 10), ReadStep::Done));
    assert!(matches!(job.read(4, Some(3), 10), ReadStep::Done));
    assert!(matches!(job.read(10, None, 10), ReadStep::Done));
}

#[test]
fn failed_job_fails_every_read() {
    let mut job = Job::new();
    job.append(&bytes(10));
    job.fail();
    assert_eq!(job.state(), JobState::Failed);
    assert!(matches!(job.read(0, None, 10), ReadStep::Failed));
    assert!(matches!(job.read(0, Some(5), 10), ReadStep::Failed));
    assert!(matches!(job.read(5, Some(5), 10), ReadStep::Failed));
    assert!(matches!(job.read(100, None, 10), ReadStep::Failed));
    let mut reader = Reader::new(BodySource::All);
    assert!(matches!(reader.poll(&job, 4), ReadStep::Failed));
    assert_eq!(reader.pos, 0);
    assert!(job.read_all(4).is_empty());
    job.append(&bytes(3));
    job.finish();
    assert_eq!(job.state(), JobState::Failed);
    assert_eq!(job.size(), Size { available: 10, total: None });
}
