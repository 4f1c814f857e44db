use curl_easy::ErrCode;
use curl_easy::ResponseBuilder;
use curl_easy::body::BodySource;
use curl_easy::body::ReadOutcome;
use curl_easy::bridge::READ_ABORT;
use curl_easy::bridge::header_bridge_step;
use curl_easy::bridge::map_read_outcome;
use curl_easy::bridge::read_bridge_step;
use curl_easy::bridge::write_bridge_step;
use curl_easy::transfer::check_transfer;
use curl_easy::transfer::finish_with_status;
use curl_easy::transfer::status_query_result;

/// A scripted request-body source: hands out its chunks one per pull,
/// then reports end of stream, or a failure when so told.
struct ScriptedBody {
    chunks: Vec<Vec<u8>>,
    next: usize,
    fail_at_end: bool,
    pulls: usize,
}

impl ScriptedBody {
    fn new(chunks: Vec<Vec<u8>>, fail_at_end: bool) -> ScriptedBody {
        ScriptedBody { chunks, next: 0, fail_at_end, pulls: 0 }
    }
}

impl BodySource for ScriptedBody {
    fn pull(&mut self, max: usize) -> ReadOutcome {
        self.pulls += 1;
        if self.next < self.chunks.len() {
            let mut chunk = self.chunks[self.next].clone();
            chunk.truncate(max);
            self.next += 1;
            ReadOutcome::Data(chunk)
        } else if self.fail_at_end {
            ReadOutcome::Failed
        } else {
            ReadOutcome::Eof
        }
    }
}

#[test]
fn fresh_builder_is_empty() {
    let builder = ResponseBuilder::new();
    let resp = builder.build();
    assert_eq!(resp.code, 0);
    assert!(resp.hdrs.is_empty());
    assert!(resp.body.is_empty());
}

#[test]
fn write_bridge_concatenates_chunks_in_order() {
    let mut builder = ResponseBuilder::new();
    let first = b"Hello".to_vec();
    let second = b" World".to_vec();
    assert_eq!(write_bridge_step(&mut builder, &first), 5);
    assert_eq!(write_bridge_step(&mut builder, &second), 6);
    let resp = builder.build();
    assert_eq!(resp.body, b"Hello World".to_vec());
}

#[test]
fn repeated_header_names_accumulate_in_order() {
    let mut builder = ResponseBuilder::new();
    builder.add_header("Set-Cookie", "a=1");
    builder.add_header("Server", "tester");
    builder.add_header("Set-Cookie", "b=2");
    let resp = builder.build();
    assert_eq!(
        resp.hdrs,
        vec![
            ("Set-Cookie".to_string(), vec!["a=1".to_string(), "b=2".to_string()]),
            ("Server".to_string(), vec!["tester".to_string()]),
        ]
    );
}

#[test]
fn header_bridge_records_a_parsing_line() {
    let mut builder = ResponseBuilder::new();
    let line = b"Content-Type: text/html\r\n".to_vec();
    let consumed = header_bridge_step(&mut builder, &line);
    assert_eq!(consumed, line.len());
    let resp = builder.build();
    assert_eq!(
        resp.hdrs,
        vec![("Content-Type".to_string(), vec!["text/html".to_string()])]
    );
}

#[test]
fn header_bridge_ignores_a_status_line_but_consumes_it() {
    let mut builder = ResponseBuilder::new();
    let line = b"HTTP/1.1 200 OK\r\n".to_vec();
    let consumed = header_bridge_step(&mut builder, &line);
    assert_eq!(consumed, line.len());
    let resp = builder.build();
    assert!(resp.hdrs.is_empty());
}

#[test]
fn scenario_no_body_success() {
    let mut builder = ResponseBuilder::new();
    assert_eq!(write_bridge_step(&mut builder, &b"Hello".to_vec()), 5);
    assert_eq!(write_bridge_step(&mut builder, &b" World".to_vec()), 6);
    header_bridge_step(&mut builder, &b"Content-Type: text/html\r\n".to_vec());

    let builder = match check_transfer(builder, ErrCode::new(0)) {
        Ok(b) => b,
        Err(_) => panic!("successful transfer must keep the builder"),
    };
    let status = status_query_result(ErrCode::new(0), 200);
    let resp = match finish_with_status(builder, status) {
        Ok(r) => r,
        Err(_) => panic!("successful status query must produce a response"),
    };
    assert_eq!(resp.code, 200);
    assert_eq!(
        resp.hdrs,
        vec![("Content-Type".to_string(), vec!["text/html".to_string()])]
    );
    assert_eq!(resp.body, b"Hello World".to_vec());
}

#[test]
fn zero_callback_invocations_yield_an_empty_response() {
    let builder = ResponseBuilder::new();
    let builder = match check_transfer(builder, ErrCode::new(0)) {
        Ok(b) => b,
        Err(_) => panic!("successful transfer must keep the builder"),
    };
    let resp = match finish_with_status(builder, status_query_result(ErrCode::new(0), 204)) {
        Ok(r) => r,
        Err(_) => panic!("successful status query must produce a response"),
    };
    assert_eq!(resp.code, 204);
    assert!(resp.hdrs.is_empty());
    assert!(resp.body.is_empty());
}

#[test]
fn scenario_body_then_end_of_stream() {
    let mut source = ScriptedBody::new(vec![b"abc".to_vec()], false);
    let (bytes, reported) = read_bridge_step(&mut source, 1024);
    assert_eq!(bytes, b"abc".to_vec());
    assert_eq!(reported, 3);
    let (bytes, reported) = read_bridge_step(&mut source, 1024);
    assert!(bytes.is_empty());
    assert_eq!(reported, 0);
    assert_eq!(source.pulls, 2);
}

#[test]
fn scenario_second_read_fails_and_aborts() {
    let mut source = ScriptedBody::new(vec![b"ab".to_vec()], true);
    let (_, reported) = read_bridge_step(&mut source, 1024);
    assert_eq!(reported, 2);
    let (bytes, reported) = read_bridge_step(&mut source, 1024);
    assert!(bytes.is_empty());
    assert_eq!(reported, READ_ABORT);

    // the engine turns the abort into a failing transfer result
    let mut builder = ResponseBuilder::new();
    builder.add_header("Partial", "data");
    match check_transfer(builder, ErrCode::new(42)) {
        Ok(_) => panic!("aborted transfer must not keep the builder"),
        Err(e) => assert_eq!(e, ErrCode::new(42)),
    }
}

#[test]
fn end_of_stream_answers_zero() {
    let (bytes, reported) = map_read_outcome(ReadOutcome::Eof, 512);
    assert!(bytes.is_empty());
    assert_eq!(reported, 0);
}

#[test]
fn read_failure_answers_abort_sentinel() {
    let (bytes, reported) = map_read_outcome(ReadOutcome::Failed, 512);
    assert!(bytes.is_empty());
    assert_eq!(reported, READ_ABORT);
    assert_eq!(READ_ABORT, 0x1000_0000);
}

#[test]
fn data_answers_its_own_count() {
    let (bytes, reported) = map_read_outcome(ReadOutcome::Data(b"xyz".to_vec()), 512);
    assert_eq!(bytes, b"xyz".to_vec());
    assert_eq!(reported, 3);
}

#[test]
fn scenario_failing_transfer_discards_accumulated_data() {
    let mut builder = ResponseBuilder::new();
    write_bridge_step(&mut builder, &b"half a page".to_vec());
    builder.add_header("Server", "tester");
    match check_transfer(builder, ErrCode::new(6)) {
        Ok(_) => panic!("failing transfer must not produce a response"),
        Err(e) => assert_eq!(e.code, 6),
    }
}

#[test]
fn scenario_status_query_failure_fails_the_call() {
    let mut builder = ResponseBuilder::new();
    write_bridge_step(&mut builder, &b"complete body".to_vec());
    let builder = match check_transfer(builder, ErrCode::new(0)) {
        Ok(b) => b,
        Err(_) => panic!("successful transfer must keep the builder"),
    };
    let status = status_query_result(ErrCode::new(2), 0);
    match finish_with_status(builder, status) {
        Ok(_) => panic!("failing status query must fail the whole call"),
        Err(e) => assert_eq!(e.code, 2),
    }
}
