use usbsas_core::protocol::{Network, Request, Response, UploadRequest};
use usbsas_core::sandbox::AccessMode;
use usbsas_core::uploader::{
    is_success, Action, Event, Phase, Uploader, WorkerError, WorkerState,
};

fn worker(path: &str) -> Uploader {
    match Uploader::new(path.to_string()) {
        Ok(u) => u,
        Err(e) => panic!("a worker is always made: {:?}", e),
    }
}

fn upload(url: &str, id: &str) -> Request {
    Request::Upload(UploadRequest {
        id: id.to_string(),
        network: Some(Network { url: url.to_string(), krb_service_name: String::new() }),
    })
}

fn error(text: &str) -> Action {
    Action::Send(Response::Error { err: text.to_string() })
}

/// Brings a fresh worker to the point where it reads its first request.
fn running(path: &str, byte: u8) -> Uploader {
    let mut w = worker(path);
    w.step(&Event::Start);
    w.step(&Event::Done);
    w.step(&Event::Control(byte));
    assert_eq!(w.step(&Event::Opened), Action::Receive);
    assert_eq!(w.state(), WorkerState::Running);
    w
}

#[test]
fn a_fresh_worker_is_in_init() {
    let w = worker("/var/out/bundle.tar");
    assert_eq!(w.state(), WorkerState::Init);
    assert_eq!(w.current_phase(), Phase::Idle);
}

#[test]
fn the_worker_confines_itself_first() {
    let mut w = worker("/var/out/bundle.tar");
    match w.step(&Event::Start) {
        Action::Confine(policy) => {
            assert_eq!(policy.mode, AccessMode::ReadOnly);
            assert_eq!(
                policy.paths,
                vec![
                    "/var/out/bundle.tar".to_string(),
                    "/var/out/bundle_clean.tar".to_string(),
                    "/etc".to_string(),
                    "/lib".to_string(),
                    "/usr/lib/".to_string(),
                    "/var/lib/usbsas".to_string(),
                ]
            );
        }
        other => panic!("expected the sandbox, got {:?}", other),
    }
    assert_eq!(w.current_phase(), Phase::Confining);
    assert_eq!(w.step(&Event::Done), Action::ReadControl);
    assert_eq!(w.state(), WorkerState::Init);
}

#[test]
fn control_byte_one_opens_the_path_as_given() {
    let mut w = worker("/var/out/bundle.tar");
    w.step(&Event::Start);
    w.step(&Event::Done);
    assert_eq!(w.step(&Event::Control(1)), Action::Open("/var/out/bundle.tar".to_string()));
    assert_eq!(w.state(), WorkerState::Init);
    assert_eq!(w.step(&Event::Opened), Action::Receive);
    assert_eq!(w.state(), WorkerState::Running);
}

#[test]
fn control_byte_two_opens_the_clean_path() {
    let mut w = worker("/var/out/bundle.tar");
    w.step(&Event::Start);
    w.step(&Event::Done);
    assert_eq!(
        w.step(&Event::Control(2)),
        Action::Open("/var/out/bundle_clean.tar".to_string())
    );
    assert_eq!(w.step(&Event::Opened), Action::Receive);
    assert_eq!(w.state(), WorkerState::Running);
}

#[test]
fn control_byte_zero_goes_straight_to_drain_and_only_end_is_acknowledged() {
    let mut w = worker("/var/out/bundle.tar");
    w.step(&Event::Start);
    w.step(&Event::Done);
    assert_eq!(w.step(&Event::Control(0)), Action::Receive);
    assert_eq!(w.state(), WorkerState::WaitEnd);
    assert_eq!(w.current_phase(), Phase::Draining);
    for _ in 0..3 {
        assert_eq!(
            w.step(&Event::Request(upload("http://host/api", "42"))),
            error("bad request, waiting end")
        );
        assert_eq!(w.state(), WorkerState::WaitEnd);
        assert_eq!(w.step(&Event::Done), Action::Receive);
        assert_eq!(w.current_phase(), Phase::Draining);
    }
    assert_eq!(w.step(&Event::Request(Request::End)), Action::Send(Response::End));
    assert_eq!(w.state(), WorkerState::WaitEnd);
    assert_eq!(w.step(&Event::Done), Action::Finish);
    assert_eq!(w.state(), WorkerState::End);
}

#[test]
fn any_other_control_byte_goes_to_drain() {
    for byte in [3u8, 7, 255] {
        let mut w = worker("/b.tar");
        w.step(&Event::Start);
        w.step(&Event::Done);
        assert_eq!(w.step(&Event::Control(byte)), Action::Receive);
        assert_eq!(w.state(), WorkerState::WaitEnd);
    }
}

#[test]
fn an_upload_that_goes_through_is_acknowledged() {
    let mut w = running("/b.tar", 1);
    assert_eq!(
        w.step(&Event::Request(upload("http://host/api/upload///", "42"))),
        Action::Post { url: "http://host/api/upload/42".to_string(), krb_service_name: None }
    );
    assert_eq!(w.state(), WorkerState::Running);
    assert_eq!(w.step(&Event::Status(200)), Action::Send(Response::Upload));
    assert_eq!(w.step(&Event::Done), Action::Receive);
    assert_eq!(w.state(), WorkerState::WaitEnd);
    assert_eq!(w.step(&Event::Request(Request::End)), Action::Send(Response::End));
    assert_eq!(w.step(&Event::Done), Action::Finish);
    assert_eq!(w.state(), WorkerState::End);
}

#[test]
fn the_service_name_is_handed_on_where_there_is_one() {
    let mut w = running("/b.tar", 1);
    let request = Request::Upload(UploadRequest {
        id: "7".to_string(),
        network: Some(Network {
            url: "https://host".to_string(),
            krb_service_name: "HTTP@host".to_string(),
        }),
    });
    assert_eq!(
        w.step(&Event::Request(request)),
        Action::Post {
            url: "https://host/7".to_string(),
            krb_service_name: Some("HTTP@host".to_string()),
        }
    );
}

#[test]
fn an_upload_that_is_turned_down_is_reported_and_survived() {
    let mut w = running("/b.tar", 1);
    w.step(&Event::Request(upload("http://host", "42")));
    assert_eq!(w.step(&Event::Status(404)), error("upload error: Unknown status code 404"));
    assert_eq!(w.state(), WorkerState::Running);
    assert_eq!(w.step(&Event::Done), Action::Receive);
    assert_eq!(w.state(), WorkerState::WaitEnd);
}

#[test]
fn success_is_a_status_from_200_to_299() {
    assert!(!is_success(0));
    assert!(!is_success(199));
    assert!(is_success(200));
    assert!(is_success(204));
    assert!(is_success(299));
    assert!(!is_success(300));
    assert!(!is_success(500));
    assert!(!is_success(65535));
}

#[test]
fn a_post_that_fails_is_reported_in_the_hosts_words() {
    let mut w = running("/b.tar", 2);
    w.step(&Event::Request(upload("http://host", "42")));
    assert_eq!(w.step(&Event::Failed("connection refused".to_string())), error("connection refused"));
    assert_eq!(w.step(&Event::Done), Action::Receive);
    assert_eq!(w.state(), WorkerState::WaitEnd);
}

#[test]
fn an_upload_without_a_network_is_a_bad_request() {
    let mut w = running("/b.tar", 1);
    let request = Request::Upload(UploadRequest { id: "42".to_string(), network: None });
    assert_eq!(w.step(&Event::Request(request)), error("Bad Request"));
    assert_eq!(w.step(&Event::Done), Action::Receive);
    assert_eq!(w.state(), WorkerState::WaitEnd);
}

#[test]
fn an_acknowledgement_that_cannot_be_sent_is_an_upload_error() {
    let mut w = running("/b.tar", 1);
    w.step(&Event::Request(upload("http://host", "42")));
    w.step(&Event::Status(201));
    assert_eq!(w.step(&Event::Failed("broken pipe".to_string())), error("broken pipe"));
    assert_eq!(w.current_phase(), Phase::Reporting);
    assert_eq!(w.step(&Event::Failed("broken pipe".to_string())), error("run error: broken pipe"));
    assert_eq!(w.current_phase(), Phase::Recovering);
    assert_eq!(
        w.step(&Event::Failed("broken pipe".to_string())),
        Action::Abort(WorkerError::Host("broken pipe".to_string()))
    );
    assert_eq!(w.state(), WorkerState::End);
}

#[test]
fn end_while_running_ends_the_worker() {
    let mut w = running("/b.tar", 1);
    assert_eq!(w.step(&Event::Request(Request::End)), Action::Send(Response::End));
    assert_eq!(w.state(), WorkerState::Running);
    assert_eq!(w.step(&Event::Done), Action::Finish);
    assert_eq!(w.state(), WorkerState::End);
}

#[test]
fn a_request_without_operation_is_a_run_error() {
    let mut w = running("/b.tar", 1);
    assert_eq!(w.step(&Event::Request(Request::Empty)), error("run error: Bad Request"));
    assert_eq!(w.state(), WorkerState::WaitEnd);
    assert_eq!(w.step(&Event::Done), Action::Receive);
    assert_eq!(w.step(&Event::Request(Request::Empty)), error("run error: Bad Request"));
    assert_eq!(w.step(&Event::Done), Action::Receive);
    assert_eq!(w.current_phase(), Phase::Draining);
}

#[test]
fn a_sandbox_that_cannot_be_applied_opens_nothing() {
    let mut w = worker("/b.tar");
    w.step(&Event::Start);
    assert_eq!(
        w.step(&Event::Failed("sandbox: not supported".to_string())),
        error("run error: sandbox: not supported")
    );
    assert_eq!(w.state(), WorkerState::WaitEnd);
    assert_eq!(w.step(&Event::Done), Action::Receive);
    assert_eq!(w.step(&Event::Request(upload("http://host", "1"))), error("bad request, waiting end"));
    assert_eq!(w.step(&Event::Done), Action::Receive);
    assert_eq!(w.step(&Event::Request(Request::End)), Action::Send(Response::End));
    assert_eq!(w.step(&Event::Done), Action::Finish);
}

#[test]
fn a_bundle_that_cannot_be_opened_is_a_run_error() {
    let mut w = worker("/b.tar");
    w.step(&Event::Start);
    w.step(&Event::Done);
    w.step(&Event::Control(1));
    assert_eq!(
        w.step(&Event::Failed("io error: No such file".to_string())),
        error("run error: io error: No such file")
    );
    assert_eq!(w.state(), WorkerState::WaitEnd);
}

#[test]
fn a_channel_that_breaks_is_reported_and_then_fatal() {
    let mut w = running("/b.tar", 1);
    assert_eq!(
        w.step(&Event::Failed("io error: eof".to_string())),
        error("run error: io error: eof")
    );
    assert_eq!(
        w.step(&Event::Failed("io error: eof".to_string())),
        Action::Abort(WorkerError::Host("io error: eof".to_string()))
    );
    assert_eq!(w.state(), WorkerState::End);
}

#[test]
fn an_event_out_of_turn_is_a_state_error() {
    let mut w = worker("/b.tar");
    assert_eq!(w.step(&Event::Opened), error("run error: State error"));
    assert_eq!(w.state(), WorkerState::WaitEnd);
    assert_eq!(w.step(&Event::Status(200)), Action::Abort(WorkerError::State));
    assert_eq!(w.state(), WorkerState::End);
}

#[test]
fn an_ended_worker_stays_ended() {
    let mut w = running("/b.tar", 1);
    w.step(&Event::Request(Request::End));
    w.step(&Event::Done);
    for event in [Event::Start, Event::Done, Event::Request(Request::End)] {
        assert_eq!(w.step(&event), Action::Abort(WorkerError::State));
        assert_eq!(w.state(), WorkerState::End);
    }
}

#[test]
fn errors_have_their_texts() {
    assert_eq!(WorkerError::BadRequest.message(), "Bad Request");
    assert_eq!(WorkerError::State.message(), "State error");
    assert_eq!(WorkerError::Host("x y".to_string()).message(), "x y");
    assert_eq!(WorkerError::Upload("nope".to_string()).message(), "upload error: nope");
}

#[test]
fn main_loop_runs_a_whole_session() {
    let events = vec![
        Event::Start,
        Event::Done,
        Event::Control(2),
        Event::Opened,
        Event::Request(upload("http://host/", "99")),
        Event::Status(503),
        Event::Done,
        Event::Request(upload("http://host/", "99")),
        Event::Done,
        Event::Request(Request::End),
        Event::Done,
        Event::Request(Request::End),
    ];
    let actions = worker("/d/x.tar").main_loop(&events);
    assert_eq!(actions.len(), 11);
    assert!(matches!(actions[0], Action::Confine(_)));
    assert_eq!(
        actions[1..],
        [
            Action::ReadControl,
            Action::Open("/d/x_clean.tar".to_string()),
            Action::Receive,
            Action::Post { url: "http://host/99".to_string(), krb_service_name: None },
            error("upload error: Unknown status code 503"),
            Action::Receive,
            error("bad request, waiting end"),
            Action::Receive,
            Action::Send(Response::End),
            Action::Finish,
        ]
    );
}

#[test]
fn main_loop_stops_when_the_events_are_used_up() {
    let events = vec![Event::Start, Event::Done];
    let actions = worker("/d/x.tar").main_loop(&events);
    assert_eq!(actions.len(), 2);
    assert_eq!(actions[1], Action::ReadControl);
    assert!(worker("/d/x.tar").main_loop(&vec![]).is_empty());
}

#[test]
fn every_response_the_worker_sends_is_final() {
    assert!(Response::Upload.closes_exchange());
    assert!(Response::End.closes_exchange());
    assert!(Response::Error { err: "x".to_string() }.closes_exchange());
    assert!(!Response::UploadStatus { current_size: 1, total_size: 2 }.closes_exchange());
}
