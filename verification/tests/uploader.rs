use journald_to_cloudwatch::configuration::Configuration;
use journald_to_cloudwatch::event::LogEvent;
use journald_to_cloudwatch::uploader::{
    select_log_stream, CloudWatch, LogStream, Phase, Request, Response, Status, DESCRIBE_LIMIT,
};

fn create_conf() -> Configuration {
    Configuration {
        log_group_name: "myGroup".to_string(),
        log_stream_name: "myStream".to_string(),
        is_debug_mode_enabled: false,
    }
}

fn event(message: &str, timestamp: i64) -> LogEvent {
    LogEvent::new(message.to_string(), timestamp)
}

fn stream(name: &str, token: Option<&str>) -> LogStream {
    LogStream {
        log_stream_name: Some(name.to_string()),
        upload_sequence_token: token.map(|t| t.to_string()),
    }
}

fn describe() -> Request {
    Request::DescribeLogStreams {
        log_group_name: "myGroup".to_string(),
        log_stream_name_prefix: "myStream".to_string(),
        limit: 1,
    }
}

fn create() -> Request {
    Request::CreateLogStream {
        log_group_name: "myGroup".to_string(),
        log_stream_name: "myStream".to_string(),
    }
}

fn put(token: Option<&str>, events: Vec<LogEvent>) -> Request {
    Request::PutLogEvents {
        log_group_name: "myGroup".to_string(),
        log_stream_name: "myStream".to_string(),
        sequence_token: token.map(|t| t.to_string()),
        log_events: events,
    }
}

fn found(token: Option<&str>) -> Response {
    Response::DescribeLogStreams(Ok(Some(vec![stream("myStream", token)])))
}

fn ready(token: Option<&str>) -> CloudWatch {
    let (mut uploader, _) = CloudWatch::new(create_conf());
    assert_eq!(uploader.handle(found(token)), None);
    uploader
}

#[test]
fn a_new_uploader_describes_its_stream() {
    let (uploader, request) = CloudWatch::new(create_conf());
    assert_eq!(DESCRIBE_LIMIT, 1);
    assert_eq!(request, describe());
    assert_eq!(uploader.status(), Status::Init);
    assert_eq!(uploader.phase(), Phase::Probing);
    assert_eq!(uploader.sequence_token(), &None);
    assert_eq!(uploader.queued(), 0);
}

#[test]
fn the_token_of_the_stream_is_taken() {
    let (mut uploader, _) = CloudWatch::new(create_conf());
    assert_eq!(uploader.handle(found(Some("token-1"))), None);
    assert_eq!(uploader.status(), Status::Ready);
    assert_eq!(uploader.phase(), Phase::Idle);
    assert_eq!(uploader.sequence_token(), &Some("token-1".to_string()));
}

#[test]
fn a_fresh_stream_has_no_token() {
    let (mut uploader, _) = CloudWatch::new(create_conf());
    assert_eq!(uploader.handle(found(None)), None);
    assert_eq!(uploader.status(), Status::Ready);
    assert_eq!(uploader.sequence_token(), &None);
}

#[test]
fn a_missing_stream_is_created_and_described_again() {
    let (mut uploader, _) = CloudWatch::new(create_conf());
    assert_eq!(uploader.handle(Response::DescribeLogStreams(Ok(Some(Vec::new())))), Some(create()));
    assert_eq!(uploader.phase(), Phase::Creating);
    assert_eq!(uploader.status(), Status::Init);
    assert_eq!(uploader.handle(Response::CreateLogStream(Ok(()))), Some(describe()));
    assert_eq!(uploader.phase(), Phase::Reprobing);
    assert_eq!(uploader.status(), Status::Init);
    assert_eq!(uploader.handle(found(Some("t0"))), None);
    assert_eq!(uploader.status(), Status::Ready);
    assert_eq!(uploader.sequence_token(), &Some("t0".to_string()));
}

#[test]
fn a_failed_describe_counts_as_a_missing_stream() {
    let (mut uploader, _) = CloudWatch::new(create_conf());
    assert_eq!(
        uploader.handle(Response::DescribeLogStreams(Err("no network".to_string()))),
        Some(create())
    );
    assert_eq!(
        uploader.handle(Response::CreateLogStream(Err("denied".to_string()))),
        Some(describe())
    );
    assert_eq!(uploader.handle(Response::DescribeLogStreams(Ok(None))), None);
    assert_eq!(uploader.status(), Status::Ready);
    assert_eq!(uploader.phase(), Phase::Idle);
    assert_eq!(uploader.sequence_token(), &None);
}

#[test]
fn a_batch_is_sent_with_the_token() {
    let mut uploader = ready(Some("t1"));
    let request = uploader.upload(vec![event("b", 2), event("a", 1)]);
    assert_eq!(request, Some(put(Some("t1"), vec![event("a", 1), event("b", 2)])));
    assert_eq!(uploader.phase(), Phase::Putting);
    assert_eq!(uploader.status(), Status::Ready);
    assert_eq!(uploader.handle(Response::PutLogEvents(Ok(Some("t2".to_string())))), None);
    assert_eq!(uploader.sequence_token(), &Some("t2".to_string()));
    assert_eq!(uploader.phase(), Phase::Idle);
    let request = uploader.upload(vec![event("c", 3)]);
    assert_eq!(request, Some(put(Some("t2"), vec![event("c", 3)])));
}

#[test]
fn a_batch_without_token_is_sent_without() {
    let mut uploader = ready(None);
    assert_eq!(uploader.upload(vec![event("a", 1)]), Some(put(None, vec![event("a", 1)])));
    assert_eq!(uploader.handle(Response::PutLogEvents(Ok(None))), None);
    assert_eq!(uploader.sequence_token(), &None);
}

#[test]
fn an_empty_batch_asks_for_nothing() {
    let mut uploader = ready(Some("t1"));
    assert_eq!(uploader.upload(Vec::new()), None);
    assert_eq!(uploader.phase(), Phase::Idle);
    assert_eq!(uploader.queued(), 0);
}

#[test]
fn groups_are_sent_one_after_the_other() {
    let day: i64 = 86_400_000;
    let mut uploader = ready(Some("t1"));
    let request = uploader.upload(vec![event("c", 2 * day), event("a", 0), event("b", day)]);
    assert_eq!(request, Some(put(Some("t1"), vec![event("a", 0)])));
    assert_eq!(uploader.queued(), 2);
    let request = uploader.handle(Response::PutLogEvents(Ok(Some("t2".to_string()))));
    assert_eq!(request, Some(put(Some("t2"), vec![event("b", day)])));
    assert_eq!(uploader.queued(), 1);
    let request = uploader.handle(Response::PutLogEvents(Ok(Some("t3".to_string()))));
    assert_eq!(request, Some(put(Some("t3"), vec![event("c", 2 * day)])));
    assert_eq!(uploader.handle(Response::PutLogEvents(Ok(Some("t4".to_string())))), None);
    assert_eq!(uploader.phase(), Phase::Idle);
    assert_eq!(uploader.sequence_token(), &Some("t4".to_string()));
}

#[test]
fn a_failed_call_is_not_made_again() {
    let day: i64 = 86_400_000;
    let mut uploader = ready(Some("stale"));
    let request = uploader.upload(vec![event("a", 0), event("b", day)]);
    assert_eq!(request, Some(put(Some("stale"), vec![event("a", 0)])));
    let request = uploader.handle(Response::PutLogEvents(Err("invalid token".to_string())));
    assert_eq!(request, Some(describe()));
    assert_eq!(uploader.status(), Status::Failed);
    assert_eq!(uploader.phase(), Phase::Probing);
    assert_eq!(uploader.queued(), 1);
    // The refreshed token goes with the next group; the failed one is given up.
    let request = uploader.handle(found(Some("fresh")));
    assert_eq!(request, Some(put(Some("fresh"), vec![event("b", day)])));
    assert_eq!(uploader.status(), Status::Ready);
    assert_eq!(uploader.handle(Response::PutLogEvents(Ok(Some("next".to_string())))), None);
    assert_eq!(uploader.queued(), 0);
    assert_eq!(uploader.sequence_token(), &Some("next".to_string()));
}

#[test]
fn a_refresh_that_finds_no_stream_leaves_no_token() {
    let mut uploader = ready(Some("stale"));
    uploader.upload(vec![event("a", 0)]);
    assert_eq!(
        uploader.handle(Response::PutLogEvents(Err("throttled".to_string()))),
        Some(describe())
    );
    assert_eq!(uploader.handle(Response::DescribeLogStreams(Ok(None))), Some(create()));
    assert_eq!(uploader.status(), Status::Failed);
    assert_eq!(uploader.handle(Response::CreateLogStream(Ok(()))), Some(describe()));
    assert_eq!(uploader.status(), Status::Failed);
    assert_eq!(uploader.handle(Response::DescribeLogStreams(Err("gone".to_string()))), None);
    assert_eq!(uploader.status(), Status::Ready);
    assert_eq!(uploader.sequence_token(), &None);
    assert_eq!(uploader.upload(vec![event("b", 1)]), Some(put(None, vec![event("b", 1)])));
}

#[test]
fn a_batch_that_comes_during_a_call_waits() {
    let (mut uploader, _) = CloudWatch::new(create_conf());
    assert_eq!(uploader.upload(vec![event("a", 1)]), None);
    assert_eq!(uploader.queued(), 1);
    assert_eq!(uploader.phase(), Phase::Probing);
    assert_eq!(uploader.handle(found(Some("t1"))), Some(put(Some("t1"), vec![event("a", 1)])));
    assert_eq!(uploader.upload(vec![event("b", 2)]), None);
    assert_eq!(uploader.queued(), 1);
    assert_eq!(
        uploader.handle(Response::PutLogEvents(Ok(Some("t2".to_string())))),
        Some(put(Some("t2"), vec![event("b", 2)]))
    );
}

#[test]
fn an_answer_that_is_not_awaited_changes_nothing() {
    let mut uploader = ready(Some("t1"));
    assert_eq!(uploader.handle(Response::PutLogEvents(Ok(Some("other".to_string())))), None);
    assert_eq!(uploader.handle(Response::CreateLogStream(Ok(()))), None);
    assert_eq!(uploader.handle(found(Some("other"))), None);
    assert_eq!(uploader.phase(), Phase::Idle);
    assert_eq!(uploader.sequence_token(), &Some("t1".to_string()));
    let (mut uploader, _) = CloudWatch::new(create_conf());
    assert_eq!(uploader.handle(Response::PutLogEvents(Err("x".to_string()))), None);
    assert_eq!(uploader.handle(Response::CreateLogStream(Ok(()))), None);
    assert_eq!(uploader.phase(), Phase::Probing);
    assert_eq!(uploader.status(), Status::Init);
}

#[test]
fn only_the_stream_of_that_very_name_is_selected() {
    let name = "myStream".to_string();
    assert_eq!(
        select_log_stream(Ok(Some(vec![stream("myStream", Some("t"))])), &name),
        Some(stream("myStream", Some("t")))
    );
    assert_eq!(select_log_stream(Ok(Some(vec![stream("myStream2", Some("t"))])), &name), None);
    assert_eq!(
        select_log_stream(
            Ok(Some(vec![stream("myStreamLonger", None), stream("myStream", Some("t"))])),
            &name
        ),
        None
    );
    assert_eq!(
        select_log_stream(
            Ok(Some(vec![stream("myStream", None), stream("myStream2", Some("t"))])),
            &name
        ),
        Some(stream("myStream", None))
    );
    let nameless = LogStream { log_stream_name: None, upload_sequence_token: Some("t".to_string()) };
    assert_eq!(select_log_stream(Ok(Some(vec![nameless])), &name), None);
    assert_eq!(select_log_stream(Ok(Some(Vec::new())), &name), None);
    assert_eq!(select_log_stream(Ok(None), &name), None);
    assert_eq!(select_log_stream(Err("failed".to_string()), &name), None);
}
