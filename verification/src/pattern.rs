//! The four call patterns, and the names by which a call selects one.

use vstd::prelude::*;
use vstd::string::*;

verus! {

/// The pattern of a call. It fixes which directions carry a sequence of items
/// and which carry a single item.
#[derive(Clone, Copy, Debug, PartialEq, Eq, Structural)]
pub enum Pattern {
    /// One request, one reply.
    Unary,
    /// One request, a sequence of replies.
    ServerStreaming,
    /// A sequence of requests, one reply.
    ClientStreaming,
    /// A sequence of requests, a sequence of replies.
    Bidirectional,
}

/// Whether two texts hold the same characters.
pub fn same_text(left: &str, right: &str) -> (same: bool)
    ensures
        same == (left@ == right@),
{
    let a = String::from_str(left);
    let b = String::from_str(right);
    a == b
}

impl Pattern {
    /// Whether the requests of a call of this pattern form a sequence.
    pub open spec fn streams_requests(self) -> bool {
        self is ClientStreaming || self is Bidirectional
    }

    /// Whether the replies of a call of this pattern form a sequence.
    pub open spec fn streams_replies(self) -> bool {
        self is ServerStreaming || self is Bidirectional
    }

    /// Whether the requests of a call of this pattern form a sequence.
    #[verifier::when_used_as_spec(streams_requests)]
    pub fn has_request_sequence(self) -> (streams: bool)
        ensures
            streams == self.streams_requests(),
    {
        match self {
            Pattern::ClientStreaming | Pattern::Bidirectional => true,
            _ => false,
        }
    }

    /// Whether the replies of a call of this pattern form a sequence.
    #[verifier::when_used_as_spec(streams_replies)]
    pub fn has_reply_sequence(self) -> (streams: bool)
        ensures
            streams == self.streams_replies(),
    {
        match self {
            Pattern::ServerStreaming | Pattern::Bidirectional => true,
            _ => false,
        }
    }

    /// The pattern that a selector stands for: `1` to `4`, in the order of the
    /// variants. Any other text selects nothing.
    pub open spec fn selected(selector: Seq<char>) -> Option<Pattern> {
        if selector == seq!['1'] {
            Some(Pattern::Unary)
        } else if selector == seq!['2'] {
            Some(Pattern::ServerStreaming)
        } else if selector == seq!['3'] {
            Some(Pattern::ClientStreaming)
        } else if selector == seq!['4'] {
            Some(Pattern::Bidirectional)
        } else {
            None
        }
    }

    /// The pattern that `selector` stands for, if it stands for one.
    pub fn from_selector(selector: &str) -> (pattern: Option<Pattern>)
        ensures
            pattern == Self::selected(selector@),
    {
        proof {
            reveal_strlit("1");
            reveal_strlit("2");
            reveal_strlit("3");
            reveal_strlit("4");
            assert("1"@ =~= seq!['1']);
            assert("2"@ =~= seq!['2']);
            assert("3"@ =~= seq!['3']);
            assert("4"@ =~= seq!['4']);
        }
        if same_text(selector, "1") {
            Some(Pattern::Unary)
        } else if same_text(selector, "2") {
            Some(Pattern::ServerStreaming)
        } else if same_text(selector, "3") {
            Some(Pattern::ClientStreaming)
        } else if same_text(selector, "4") {
            Some(Pattern::Bidirectional)
        } else {
            None
        }
    }

    /// The method name under which the service offers this pattern.
    pub open spec fn method_text(self) -> Seq<char> {
        match self {
            Pattern::Unary => "SayHello"@,
            Pattern::ServerStreaming => "ServerStreaming"@,
            Pattern::ClientStreaming => "ClientStreaming"@,
            Pattern::Bidirectional => "BidirectionalStreaming"@,
        }
    }

    /// The method name under which the service offers this pattern.
    pub fn method_name(self) -> (name: &'static str)
        ensures
            name@ == self.method_text(),
    {
        match self {
            Pattern::Unary => "SayHello",
            Pattern::ServerStreaming => "ServerStreaming",
            Pattern::ClientStreaming => "ClientStreaming",
            Pattern::Bidirectional => "BidirectionalStreaming",
        }
    }

    /// The pattern that the service offers under `name`, if it offers one.
    pub open spec fn named(name: Seq<char>) -> Option<Pattern> {
        if name == Pattern::Unary.method_text() {
            Some(Pattern::Unary)
        } else if name == Pattern::ServerStreaming.method_text() {
            Some(Pattern::ServerStreaming)
        } else if name == Pattern::ClientStreaming.method_text() {
            Some(Pattern::ClientStreaming)
        } else if name == Pattern::Bidirectional.method_text() {
            Some(Pattern::Bidirectional)
        } else {
            None
        }
    }

    /// The pattern that the service offers under `name`, if it offers one.
    pub fn from_method_name(name: &str) -> (pattern: Option<Pattern>)
        ensures
            pattern == Self::named(name@),
    {
        if same_text(name, Pattern::Unary.method_name()) {
            Some(Pattern::Unary)
        } else if same_text(name, Pattern::ServerStreaming.method_name()) {
            Some(Pattern::ServerStreaming)
        } else if same_text(name, Pattern::ClientStreaming.method_name()) {
            Some(Pattern::ClientStreaming)
        } else if same_text(name, Pattern::Bidirectional.method_name()) {
            Some(Pattern::Bidirectional)
        } else {
            None
        }
    }

    /// The name of the service that offers the four methods.
    pub open spec fn service_text() -> Seq<char> {
        "helloworld.Greeter"@
    }

    /// The name of the service that offers the four methods.
    pub fn service_name() -> (name: &'static str)
        ensures
            name@ == Self::service_text(),
    {
        "helloworld.Greeter"
    }

    /// The path that identifies a call of this pattern on the wire: a slash,
    /// the service name, a slash, the method name.
    pub open spec fn path_text(self) -> Seq<char> {
        seq!['/'] + Self::service_text() + seq!['/'] + self.method_text()
    }

    /// The path that identifies a call of this pattern on the wire.
    pub fn path(self) -> (path: &'static str)
        ensures
            path@ == self.path_text(),
    {
        proof {
            reveal_strlit("helloworld.Greeter");
            reveal_strlit("SayHello");
            reveal_strlit("ServerStreaming");
            reveal_strlit("ClientStreaming");
            reveal_strlit("BidirectionalStreaming");
            reveal_strlit("/helloworld.Greeter/SayHello");
            reveal_strlit("/helloworld.Greeter/ServerStreaming");
            reveal_strlit("/helloworld.Greeter/ClientStreaming");
            reveal_strlit("/helloworld.Greeter/BidirectionalStreaming");
            assert("/helloworld.Greeter/SayHello"@ =~= Pattern::Unary.path_text());
            assert("/helloworld.Greeter/ServerStreaming"@
                =~= Pattern::ServerStreaming.path_text());
            assert("/helloworld.Greeter/ClientStreaming"@
                =~= Pattern::ClientStreaming.path_text());
            assert("/helloworld.Greeter/BidirectionalStreaming"@
                =~= Pattern::Bidirectional.path_text());
        }
        match self {
            Pattern::Unary => "/helloworld.Greeter/SayHello",
            Pattern::ServerStreaming => "/helloworld.Greeter/ServerStreaming",
            Pattern::ClientStreaming => "/helloworld.Greeter/ClientStreaming",
            Pattern::Bidirectional => "/helloworld.Greeter/BidirectionalStreaming",
        }
    }

    /// The pattern of the call that `path` identifies, if it identifies one.
    pub open spec fn routed(path: Seq<char>) -> Option<Pattern> {
        if path == Pattern::Unary.path_text() {
            Some(Pattern::Unary)
        } else if path == Pattern::ServerStreaming.path_text() {
            Some(Pattern::ServerStreaming)
        } else if path == Pattern::ClientStreaming.path_text() {
            Some(Pattern::ClientStreaming)
        } else if path == Pattern::Bidirectional.path_text() {
            Some(Pattern::Bidirectional)
        } else {
            None
        }
    }

    /// The pattern of the call that `path` identifies, if it identifies one.
    pub fn from_path(path: &str) -> (pattern: Option<Pattern>)
        ensures
            pattern == Self::routed(path@),
    {
        if same_text(path, Pattern::Unary.path()) {
            Some(Pattern::Unary)
        } else if same_text(path, Pattern::ServerStreaming.path()) {
            Some(Pattern::ServerStreaming)
        } else if same_text(path, Pattern::ClientStreaming.path()) {
            Some(Pattern::ClientStreaming)
        } else if same_text(path, Pattern::Bidirectional.path()) {
            Some(Pattern::Bidirectional)
        } else {
            None
        }
    }

    /// A path leads to the pattern of its method name, and to no other: the
    /// path of a pattern is routed to that pattern.
    pub proof fn lemma_paths_distinct(self)
        ensures
            Self::routed(self.path_text()) == Some(self),
    {
        self.lemma_method_names_distinct();
        let prefix = seq!['/'] + Self::service_text() + seq!['/'];
        assert forall|other: Pattern| other.path_text() == self.path_text() implies other
            == self by {
            other.lemma_method_names_distinct();
            assert(other.path_text() =~= prefix + other.method_text());
            assert(self.path_text() =~= prefix + self.method_text());
            assert(other.method_text() =~= (prefix + other.method_text()).skip(
                prefix.len() as int,
            ));
            assert(self.method_text() =~= (prefix + self.method_text()).skip(prefix.len() as int));
        }
    }

    /// Each pattern is found again under its own method name: no two patterns share one.
    pub proof fn lemma_method_names_distinct(self)
        ensures
            Self::named(self.method_text()) == Some(self),
    {
        reveal_strlit("SayHello");
        reveal_strlit("ServerStreaming");
        reveal_strlit("ClientStreaming");
        reveal_strlit("BidirectionalStreaming");
        assert("SayHello"@.len() == 8);
        assert("ServerStreaming"@.len() == 15);
        assert("ClientStreaming"@.len() == 15);
        assert("BidirectionalStreaming"@.len() == 22);
        assert("ServerStreaming"@[0] == 'S');
        assert("ClientStreaming"@[0] == 'C');
    }
}

} // verus!
