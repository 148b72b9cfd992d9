use greeter::message::{greet, render_count, HelloReply, HelloRequest};
use greeter::pattern::{same_text, Pattern};

#[test]
fn a_greeting_wraps_its_subject() {
    assert_eq!(greet("Tonic"), "Hello Tonic!");
    assert_eq!(greet(""), "Hello !");
    assert_eq!(greet("5"), "Hello 5!");
    assert_eq!(greet("Hello Tonic!"), "Hello Hello Tonic!!");
    assert_eq!(greet("naïve 🚀"), "Hello naïve 🚀!");
}

#[test]
fn a_greeting_is_what_formatting_gives() {
    for subject in ["", " ", "Tonic", "{}", "a\tb", "ünïcödé", "1234567890"] {
        assert_eq!(greet(subject), format!("Hello {}!", subject));
        assert_eq!(HelloReply::greeting_for(subject).message, format!("Hello {}!", subject));
    }
}

#[test]
fn counts_are_written_in_decimal() {
    assert_eq!(render_count(0), "0");
    assert_eq!(render_count(5), "5");
    assert_eq!(render_count(9), "9");
    assert_eq!(render_count(10), "10");
    assert_eq!(render_count(11), "11");
    assert_eq!(render_count(99), "99");
    assert_eq!(render_count(100), "100");
    assert_eq!(render_count(101), "101");
    assert_eq!(render_count(1_000_000), "1000000");
    assert_eq!(render_count(9_876_543_210), "9876543210");
    assert_eq!(render_count(u64::MAX), "18446744073709551615");
}

#[test]
fn counts_are_written_as_formatting_writes_them() {
    let mut n: u64 = 0;
    for step in 0..2000u64 {
        assert_eq!(render_count(n), format!("{}", n));
        assert_eq!(render_count(step), step.to_string());
        n = n.wrapping_mul(6364136223846793005).wrapping_add(1442695040888963407);
    }
    for power in 0..20u32 {
        let bound = 10u64.pow(power);
        assert_eq!(render_count(bound), bound.to_string());
        assert_eq!(render_count(bound - 1), (bound - 1).to_string());
        assert_eq!(render_count(bound + 1), (bound + 1).to_string());
    }
}

#[test]
fn a_counting_reply_greets_the_numeral() {
    assert_eq!(HelloReply::counting(0).message, "Hello 0!");
    assert_eq!(HelloReply::counting(5).message, "Hello 5!");
    assert_eq!(HelloReply::counting(120).message, "Hello 120!");
}

#[test]
fn a_request_carries_its_name() {
    let request = HelloRequest::new("Tonic");
    assert_eq!(request.name, "Tonic");
    assert_eq!(request.duplicate(), request);
    assert_eq!(HelloRequest::new("").name, "");
}

#[test]
fn texts_are_compared_by_their_characters() {
    assert!(same_text("", ""));
    assert!(same_text("abc", "abc"));
    assert!(!same_text("abc", "abd"));
    assert!(!same_text("abc", "ab"));
    assert!(!same_text("", " "));
    assert!(same_text("é", "\u{e9}"));
}

#[test]
fn selectors_one_to_four_name_the_patterns() {
    assert_eq!(Pattern::from_selector("1"), Some(Pattern::Unary));
    assert_eq!(Pattern::from_selector("2"), Some(Pattern::ServerStreaming));
    assert_eq!(Pattern::from_selector("3"), Some(Pattern::ClientStreaming));
    assert_eq!(Pattern::from_selector("4"), Some(Pattern::Bidirectional));
    for other in ["", "0", "5", "01", "1 ", " 1", "one", "12", "-1", "１"] {
        assert_eq!(Pattern::from_selector(other), None);
    }
}

#[test]
fn each_pattern_has_its_method_name() {
    assert_eq!(Pattern::Unary.method_name(), "SayHello");
    assert_eq!(Pattern::ServerStreaming.method_name(), "ServerStreaming");
    assert_eq!(Pattern::ClientStreaming.method_name(), "ClientStreaming");
    assert_eq!(Pattern::Bidirectional.method_name(), "BidirectionalStreaming");
}

#[test]
fn a_method_name_leads_back_to_its_pattern() {
    for pattern in
        [Pattern::Unary, Pattern::ServerStreaming, Pattern::ClientStreaming, Pattern::Bidirectional]
    {
        assert_eq!(Pattern::from_method_name(pattern.method_name()), Some(pattern));
    }
    for other in ["", "sayhello", "SayHello ", "Streaming", "Bidirectional", "SayHelloSayHello"] {
        assert_eq!(Pattern::from_method_name(other), None);
    }
}

#[test]
fn patterns_know_which_directions_stream() {
    assert!(!Pattern::Unary.has_request_sequence());
    assert!(!Pattern::Unary.has_reply_sequence());
    assert!(!Pattern::ServerStreaming.has_request_sequence());
    assert!(Pattern::ServerStreaming.has_reply_sequence());
    assert!(Pattern::ClientStreaming.has_request_sequence());
    assert!(!Pattern::ClientStreaming.has_reply_sequence());
    assert!(Pattern::Bidirectional.has_request_sequence());
    assert!(Pattern::Bidirectional.has_reply_sequence());
}

#[test]
fn each_pattern_has_its_path_on_the_wire() {
    assert_eq!(Pattern::service_name(), "helloworld.Greeter");
    assert_eq!(Pattern::Unary.path(), "/helloworld.Greeter/SayHello");
    assert_eq!(Pattern::ServerStreaming.path(), "/helloworld.Greeter/ServerStreaming");
    assert_eq!(Pattern::ClientStreaming.path(), "/helloworld.Greeter/ClientStreaming");
    assert_eq!(Pattern::Bidirectional.path(), "/helloworld.Greeter/BidirectionalStreaming");
    for pattern in
        [Pattern::Unary, Pattern::ServerStreaming, Pattern::ClientStreaming, Pattern::Bidirectional]
    {
        let built = format!("/{}/{}", Pattern::service_name(), pattern.method_name());
        assert_eq!(pattern.path(), built);
        assert_eq!(Pattern::from_path(&built), Some(pattern));
    }
}

#[test]
fn other_paths_lead_nowhere() {
    for other in [
        "",
        "/",
        "SayHello",
        "/SayHello",
        "helloworld.Greeter/SayHello",
        "/helloworld.Greeter/",
        "/helloworld.Greeter/SayHello/",
        "/helloworld.Greeter/sayhello",
        "/helloworld.greeter/SayHello",
        "/other.Greeter/SayHello",
        "/helloworld.Greeter/Streaming",
    ] {
        assert_eq!(Pattern::from_path(other), None);
    }
}
