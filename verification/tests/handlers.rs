use greeter::call::{Call, CallState, WINDOW};
use greeter::channel::{Received, Sent};
use greeter::error::{CallError, HandlerFault, TransportFault, Violation};
use greeter::handlers::{Counting, MyGreeter, StreamStep, PACE, REPLY_COUNT};
use greeter::message::{HelloReply, HelloRequest};
use greeter::pattern::Pattern;
use greeter::server::{Handler, Progress};

fn request(name: &str) -> HelloRequest {
    HelloRequest::new(name)
}

fn reply(message: &str) -> HelloReply {
    HelloReply { message: message.to_string() }
}

fn opened(pattern: Pattern) -> Call {
    let mut call = Call::new(pattern);
    call.open();
    call
}

fn item(message: &str) -> Option<Received<HelloReply>> {
    Some(Received::Item(reply(message)))
}

#[test]
fn say_hello_greets_the_name() {
    let greeter = MyGreeter::default();
    assert_eq!(greeter.say_hello(request("Tonic")), Ok(reply("Hello Tonic!")));
    assert_eq!(greeter.say_hello(request("")), Ok(reply("Hello !")));
    assert_eq!(greeter.say_hello(request("a b\n!")), Ok(reply("Hello a b\n!!")));
    assert_eq!(greeter.say_hello(request("Grüße, 世界")), Ok(reply("Hello Grüße, 世界!")));
}

#[test]
fn the_reply_stream_paces_before_each_of_three_replies() {
    let greeter = MyGreeter::default();
    let mut stream = greeter.server_streaming(request("Tonic")).unwrap();
    assert_eq!(REPLY_COUNT, 3);
    assert_eq!(PACE, 1);
    for _ in 0..3 {
        assert_eq!(stream.poll_next(), StreamStep::Pace(1));
        assert_eq!(stream.poll_next(), StreamStep::Item(reply("Hello Tonic!")));
    }
    assert_eq!(stream.poll_next(), StreamStep::End);
    assert_eq!(stream.poll_next(), StreamStep::End);
}

#[test]
fn counting_answers_zero_for_an_empty_sequence() {
    let greeter = MyGreeter::default();
    let mut call = opened(Pattern::ClientStreaming);
    let mut counting = greeter.client_streaming();
    assert_eq!(counting.poll(&mut call), None);
    call.finish_requests().unwrap();
    assert_eq!(counting.poll(&mut call), Some(Ok(reply("Hello 0!"))));
}

#[test]
fn counting_takes_what_has_arrived_and_waits_for_more() {
    let greeter = MyGreeter::default();
    let mut call = opened(Pattern::ClientStreaming);
    let mut counting = greeter.client_streaming();
    call.send_request(request("a")).unwrap();
    call.send_request(request("b")).unwrap();
    assert_eq!(counting.poll(&mut call), None);
    assert_eq!(call.next_request(), None);
    assert_eq!(counting.poll(&mut call), None);
    call.send_request(request("c")).unwrap();
    call.finish_requests().unwrap();
    assert_eq!(counting.poll(&mut call), Some(Ok(reply("Hello 3!"))));
}

#[test]
fn counting_reports_the_error_of_a_failed_call() {
    let greeter = MyGreeter::default();
    let mut call = opened(Pattern::ClientStreaming);
    let mut counting = greeter.client_streaming();
    call.send_request(request("a")).unwrap();
    let lost = CallError::Transport(TransportFault::ConnectionLost);
    call.fail(lost);
    assert_eq!(counting.poll(&mut call), Some(Err(lost)));
}

#[test]
fn counting_past_the_largest_count_is_an_overflow() {
    let overflow = CallError::Handler(HandlerFault::CountOverflow);
    let mut call = opened(Pattern::ClientStreaming);
    let mut counting = Counting::starting_at(u64::MAX - 1);
    call.send_request(request("a")).unwrap();
    assert_eq!(counting.poll(&mut call), None);
    call.send_request(request("b")).unwrap();
    call.send_request(request("c")).unwrap();
    assert_eq!(counting.poll(&mut call), Some(Err(overflow)));
    assert_eq!(call.next_request(), Some(Received::Item(request("c"))));
    call.finish_requests().unwrap();
    assert_eq!(counting.poll(&mut call), Some(Err(overflow)));
}

#[test]
fn counting_reaches_the_largest_count() {
    let mut call = opened(Pattern::ClientStreaming);
    let mut counting = Counting::starting_at(u64::MAX - 1);
    call.send_request(request("a")).unwrap();
    call.finish_requests().unwrap();
    assert_eq!(counting.poll(&mut call), Some(Ok(reply("Hello 18446744073709551615!"))));
}

#[test]
fn the_echo_waits_for_the_first_arrival() {
    let greeter = MyGreeter::default();
    let mut call = opened(Pattern::Bidirectional);
    assert!(greeter.bidirectional_streaming(&mut call).is_none());
    call.send_request(request("1")).unwrap();
    let mut echo = greeter.bidirectional_streaming(&mut call).unwrap().unwrap();
    assert_eq!(call.next_request(), None);
    assert_eq!(echo.poll_next(&mut call), item("Hello 1!"));
    assert_eq!(echo.poll_next(&mut call), None);
    call.send_request(request("2")).unwrap();
    call.send_request(request("3")).unwrap();
    assert_eq!(echo.poll_next(&mut call), item("Hello 2!"));
    assert_eq!(echo.poll_next(&mut call), item("Hello 3!"));
    assert_eq!(echo.poll_next(&mut call), None);
    call.finish_requests().unwrap();
    assert_eq!(echo.poll_next(&mut call), Some(Received::EndOfSequence));
    assert_eq!(echo.poll_next(&mut call), Some(Received::EndOfSequence));
}

#[test]
fn the_echo_of_an_empty_sequence_has_ended_from_the_start() {
    let greeter = MyGreeter::default();
    let mut call = opened(Pattern::Bidirectional);
    call.finish_requests().unwrap();
    let mut echo = greeter.bidirectional_streaming(&mut call).unwrap().unwrap();
    assert_eq!(echo.poll_next(&mut call), Some(Received::EndOfSequence));
}

#[test]
fn the_echo_fails_before_it_begins_where_the_call_has_failed() {
    let greeter = MyGreeter::default();
    let mut call = opened(Pattern::Bidirectional);
    let timeout = CallError::Transport(TransportFault::Timeout);
    call.fail(timeout);
    assert_eq!(greeter.bidirectional_streaming(&mut call).unwrap().unwrap_err(), timeout);
}

#[test]
fn the_echo_ends_after_an_error() {
    let greeter = MyGreeter::default();
    let mut call = opened(Pattern::Bidirectional);
    call.send_request(request("1")).unwrap();
    call.send_request(request("2")).unwrap();
    let mut echo = greeter.bidirectional_streaming(&mut call).unwrap().unwrap();
    let malformed = CallError::Transport(TransportFault::MalformedFrame);
    call.fail(malformed);
    assert_eq!(echo.poll_next(&mut call), item("Hello 1!"));
    assert_eq!(echo.poll_next(&mut call), Some(Received::Error(malformed)));
    assert_eq!(echo.poll_next(&mut call), Some(Received::EndOfSequence));
}

#[test]
fn the_handler_is_chosen_by_the_pattern() {
    let greeter = MyGreeter::default();
    assert!(matches!(greeter.handler(Pattern::Unary), Handler::Unary));
    assert!(matches!(greeter.handler(Pattern::ServerStreaming), Handler::ServerStreaming(None)));
    assert!(matches!(greeter.handler(Pattern::ClientStreaming), Handler::ClientStreaming(_)));
    assert!(matches!(greeter.handler(Pattern::Bidirectional), Handler::Bidirectional(None)));
}

#[test]
fn serving_a_unary_call() {
    let greeter = MyGreeter::default();
    let mut call = opened(Pattern::Unary);
    let mut handler = greeter.handler(Pattern::Unary);
    assert_eq!(greeter.serve(&mut handler, &mut call), Progress::AwaitingRequest);
    assert!(!handler.is_finished());
    call.send_request(request("Tonic")).unwrap();
    assert_eq!(greeter.serve(&mut handler, &mut call), Progress::Done);
    assert!(handler.is_finished());
    assert!(matches!(handler, Handler::Finished));
    assert_eq!(greeter.serve(&mut handler, &mut call), Progress::Done);
    assert_eq!(call.next_reply(), item("Hello Tonic!"));
    assert_eq!(call.next_reply(), Some(Received::EndOfSequence));
    assert_eq!(call.state(), CallState::Closed);
}

#[test]
fn serving_a_server_streaming_call() {
    let greeter = MyGreeter::default();
    let mut call = opened(Pattern::ServerStreaming);
    let mut handler = greeter.handler(Pattern::ServerStreaming);
    assert_eq!(greeter.serve(&mut handler, &mut call), Progress::AwaitingRequest);
    call.send_request(request("Tonic")).unwrap();
    assert_eq!(greeter.serve(&mut handler, &mut call), Progress::Advanced);
    for _ in 0..3 {
        assert_eq!(call.next_reply(), None);
        assert_eq!(greeter.serve(&mut handler, &mut call), Progress::Pace(1));
        assert_eq!(call.next_reply(), None);
        assert_eq!(greeter.serve(&mut handler, &mut call), Progress::Advanced);
        assert_eq!(call.next_reply(), item("Hello Tonic!"));
    }
    assert_eq!(greeter.serve(&mut handler, &mut call), Progress::Done);
    assert_eq!(call.next_reply(), Some(Received::EndOfSequence));
    assert_eq!(call.status(), Some(Ok(())));
    assert_eq!(greeter.serve(&mut handler, &mut call), Progress::Done);
}

#[test]
fn serving_a_client_streaming_call() {
    let greeter = MyGreeter::default();
    let mut call = opened(Pattern::ClientStreaming);
    let mut handler = greeter.handler(Pattern::ClientStreaming);
    for name in ["1", "2", "3", "4", "5"] {
        call.send_request(request(name)).unwrap();
        assert_eq!(greeter.serve(&mut handler, &mut call), Progress::AwaitingRequest);
    }
    call.finish_requests().unwrap();
    assert_eq!(greeter.serve(&mut handler, &mut call), Progress::Done);
    assert_eq!(call.next_reply(), item("Hello 5!"));
    assert_eq!(call.status(), Some(Ok(())));
}

#[test]
fn serving_a_bidirectional_call() {
    let greeter = MyGreeter::default();
    let mut call = opened(Pattern::Bidirectional);
    let mut handler = greeter.handler(Pattern::Bidirectional);
    assert_eq!(greeter.serve(&mut handler, &mut call), Progress::AwaitingRequest);
    call.send_request(request("1")).unwrap();
    call.send_request(request("2")).unwrap();
    assert_eq!(greeter.serve(&mut handler, &mut call), Progress::Advanced);
    assert_eq!(call.next_reply(), None);
    assert_eq!(greeter.serve(&mut handler, &mut call), Progress::Advanced);
    assert_eq!(greeter.serve(&mut handler, &mut call), Progress::Advanced);
    assert_eq!(greeter.serve(&mut handler, &mut call), Progress::AwaitingRequest);
    assert_eq!(call.next_reply(), item("Hello 1!"));
    assert_eq!(call.next_reply(), item("Hello 2!"));
    assert_eq!(call.next_reply(), None);
    call.finish_requests().unwrap();
    assert_eq!(greeter.serve(&mut handler, &mut call), Progress::Done);
    assert_eq!(call.next_reply(), Some(Received::EndOfSequence));
    assert_eq!(call.status(), Some(Ok(())));
}

#[test]
fn an_empty_bidirectional_call_ends_in_two_steps() {
    let greeter = MyGreeter::default();
    let mut call = opened(Pattern::Bidirectional);
    let mut handler = greeter.handler(Pattern::Bidirectional);
    call.finish_requests().unwrap();
    assert_eq!(greeter.serve(&mut handler, &mut call), Progress::Advanced);
    assert_eq!(greeter.serve(&mut handler, &mut call), Progress::Done);
    assert_eq!(call.next_reply(), Some(Received::EndOfSequence));
    assert_eq!(call.status(), Some(Ok(())));
}

#[test]
fn an_empty_client_streaming_call_ends_in_one_step() {
    let greeter = MyGreeter::default();
    let mut call = opened(Pattern::ClientStreaming);
    let mut handler = greeter.handler(Pattern::ClientStreaming);
    call.finish_requests().unwrap();
    assert_eq!(greeter.serve(&mut handler, &mut call), Progress::Done);
    assert_eq!(call.next_reply(), item("Hello 0!"));
    assert_eq!(call.status(), Some(Ok(())));
}

#[test]
fn the_handler_takes_no_request_while_the_replies_are_full() {
    let greeter = MyGreeter::default();
    let mut call = opened(Pattern::Bidirectional);
    let mut handler = greeter.handler(Pattern::Bidirectional);
    let mut sent = 0;
    let mut got = Vec::new();
    while sent < WINDOW {
        assert_eq!(call.send_request(request(&sent.to_string())), Ok(Sent::Accepted));
        sent += 1;
    }
    assert_eq!(greeter.serve(&mut handler, &mut call), Progress::Advanced);
    for _ in 0..WINDOW {
        assert_eq!(greeter.serve(&mut handler, &mut call), Progress::Advanced);
    }
    assert!(call.replies_full());
    assert_eq!(call.send_request(request("8")), Ok(Sent::Accepted));
    assert_eq!(greeter.serve(&mut handler, &mut call), Progress::AwaitingRoom);
    assert_eq!(greeter.serve(&mut handler, &mut call), Progress::AwaitingRoom);
    if let Some(Received::Item(first)) = call.next_reply() {
        got.push(first.message);
    }
    assert_eq!(greeter.serve(&mut handler, &mut call), Progress::Advanced);
    assert_eq!(greeter.serve(&mut handler, &mut call), Progress::AwaitingRoom);
    call.finish_requests().unwrap();
    while let Some(Received::Item(next)) = call.next_reply() {
        got.push(next.message);
    }
    assert_eq!(greeter.serve(&mut handler, &mut call), Progress::Done);
    assert_eq!(call.next_reply(), Some(Received::EndOfSequence));
    let expected: Vec<String> = (0..9).map(|i| format!("Hello {}!", i)).collect();
    assert_eq!(got, expected);
    assert_eq!(call.status(), Some(Ok(())));
}

#[test]
fn a_failed_call_ends_the_handler() {
    let greeter = MyGreeter::default();
    let lost = CallError::Transport(TransportFault::ConnectionLost);
    for pattern in
        [Pattern::Unary, Pattern::ServerStreaming, Pattern::ClientStreaming, Pattern::Bidirectional]
    {
        let mut call = opened(pattern);
        let mut handler = greeter.handler(pattern);
        call.send_request(request("a")).unwrap();
        call.fail(lost);
        assert_eq!(greeter.serve(&mut handler, &mut call), Progress::Failed(lost));
        assert!(matches!(handler, Handler::Finished));
        assert_eq!(greeter.serve(&mut handler, &mut call), Progress::Failed(lost));
    }
}

#[test]
fn a_count_overflow_fails_the_call() {
    let greeter = MyGreeter::default();
    let overflow = CallError::Handler(HandlerFault::CountOverflow);
    let mut call = opened(Pattern::ClientStreaming);
    let mut handler = Handler::ClientStreaming(Counting::starting_at(u64::MAX));
    call.send_request(request("one too many")).unwrap();
    assert_eq!(greeter.serve(&mut handler, &mut call), Progress::Failed(overflow));
    assert_eq!(call.status(), Some(Err(overflow)));
    assert_eq!(call.next_reply(), Some(Received::Error(overflow)));
}

#[test]
fn a_handler_of_another_pattern_runs_into_the_rules_of_the_call() {
    let greeter = MyGreeter::default();
    let illegal = CallError::Protocol(Violation::IllegalSequence);
    let mut call = opened(Pattern::ClientStreaming);
    let mut handler = greeter.handler(Pattern::Bidirectional);
    call.send_request(request("1")).unwrap();
    call.send_request(request("2")).unwrap();
    assert_eq!(greeter.serve(&mut handler, &mut call), Progress::Advanced);
    assert_eq!(greeter.serve(&mut handler, &mut call), Progress::Advanced);
    assert_eq!(greeter.serve(&mut handler, &mut call), Progress::Failed(illegal));
    assert_eq!(call.state(), CallState::Failed);
    assert_eq!(call.status(), Some(Err(illegal)));
}
