use greeter::client::{
    bidirectional_streaming, client_streaming, invoke_bidirectional, invoke_client_streaming,
    invoke_server_streaming, invoke_unary, run, say_hello, server_streaming,
};
use greeter::handlers::MyGreeter;
use greeter::message::{HelloReply, HelloRequest};

fn messages(replies: &[HelloReply]) -> Vec<String> {
    replies.iter().map(|reply| reply.message.clone()).collect()
}

fn requests(names: &[&str]) -> Vec<HelloRequest> {
    names.iter().map(|name| HelloRequest::new(name)).collect()
}

#[test]
fn unary_greets_tonic() {
    let greeter = MyGreeter::default();
    let reply = invoke_unary(&greeter, HelloRequest::new("Tonic")).unwrap();
    assert_eq!(reply.message, "Hello Tonic!");
    assert_eq!(messages(&say_hello(&greeter).unwrap()), vec!["Hello Tonic!"]);
}

#[test]
fn server_streaming_greets_tonic_three_times() {
    let greeter = MyGreeter::default();
    let replies = invoke_server_streaming(&greeter, HelloRequest::new("Tonic")).unwrap();
    assert_eq!(messages(&replies), vec!["Hello Tonic!", "Hello Tonic!", "Hello Tonic!"]);
    assert_eq!(messages(&server_streaming(&greeter).unwrap()), messages(&replies));
}

#[test]
fn client_streaming_counts_five() {
    let greeter = MyGreeter::default();
    let reply =
        invoke_client_streaming(&greeter, requests(&["1", "2", "3", "4", "5"])).unwrap();
    assert_eq!(reply.message, "Hello 5!");
    assert_eq!(messages(&client_streaming(&greeter).unwrap()), vec!["Hello 5!"]);
}

#[test]
fn bidirectional_echoes_five_in_order() {
    let greeter = MyGreeter::default();
    let replies = invoke_bidirectional(&greeter, requests(&["1", "2", "3", "4", "5"])).unwrap();
    let expected = vec!["Hello 1!", "Hello 2!", "Hello 3!", "Hello 4!", "Hello 5!"];
    assert_eq!(messages(&replies), expected);
    assert_eq!(messages(&bidirectional_streaming(&greeter).unwrap()), expected);
}

#[test]
fn run_selects_by_number() {
    let greeter = MyGreeter::default();
    assert_eq!(messages(&run("1", &greeter).unwrap().unwrap()), vec!["Hello Tonic!"]);
    assert_eq!(messages(&run("2", &greeter).unwrap().unwrap()).len(), 3);
    assert_eq!(messages(&run("3", &greeter).unwrap().unwrap()), vec!["Hello 5!"]);
    assert_eq!(messages(&run("4", &greeter).unwrap().unwrap()).len(), 5);
    assert!(run("5", &greeter).unwrap().is_none());
    assert!(run("", &greeter).unwrap().is_none());
    assert!(run("11", &greeter).unwrap().is_none());
}
