//! The two message shapes that travel over a call, and the text of a greeting.

use vstd::prelude::*;
use vstd::string::*;

verus! {

/// The unit of input: a named value.
#[derive(Clone, Debug, PartialEq, Eq)]
pub struct HelloRequest {
    pub name: String,
}

/// The unit of output: a message derived from one or more requests.
#[derive(Clone, Debug, PartialEq, Eq)]
pub struct HelloReply {
    pub message: String,
}

impl View for HelloRequest {
    type V = Seq<char>;

    /// A request is its name.
    open spec fn view(&self) -> Seq<char> {
        self.name@
    }
}

impl View for HelloReply {
    type V = Seq<char>;

    /// A reply is its message.
    open spec fn view(&self) -> Seq<char> {
        self.message@
    }
}

/// The names of a sequence of requests, in order.
pub open spec fn names(requests: Seq<HelloRequest>) -> Seq<Seq<char>> {
    Seq::new(requests.len(), |i: int| requests[i]@)
}

/// The messages of a sequence of replies, in order.
pub open spec fn texts(replies: Seq<HelloReply>) -> Seq<Seq<char>> {
    Seq::new(replies.len(), |i: int| replies[i]@)
}

/// The text of the greeting for `subject`: `Hello `, the subject, `!`.
pub open spec fn greeting(subject: Seq<char>) -> Seq<char> {
    seq!['H', 'e', 'l', 'l', 'o', ' '] + subject + seq!['!']
}

/// The character of a decimal digit.
pub open spec fn digit(d: nat) -> char {
    if d == 0 {
        '0'
    } else if d == 1 {
        '1'
    } else if d == 2 {
        '2'
    } else if d == 3 {
        '3'
    } else if d == 4 {
        '4'
    } else if d == 5 {
        '5'
    } else if d == 6 {
        '6'
    } else if d == 7 {
        '7'
    } else if d == 8 {
        '8'
    } else {
        '9'
    }
}

/// The decimal numeral of `n`: no sign, no leading zero, `0` for zero.
pub open spec fn decimal(n: nat) -> Seq<char>
    decreases n,
{
    if n < 10 {
        seq![digit(n)]
    } else {
        decimal(n / 10).push(digit(n % 10))
    }
}

/// The greeting for each of `subjects`, in the same order.
pub open spec fn greetings(subjects: Seq<Seq<char>>) -> Seq<Seq<char>> {
    Seq::new(subjects.len(), |i: int| greeting(subjects[i]))
}

/// Builds the greeting for `subject`.
pub fn greet(subject: &str) -> (text: String)
    ensures
        text@ == greeting(subject@),
{
    proof {
        reveal_strlit("Hello ");
        reveal_strlit("!");
        assert("Hello "@ =~= seq!['H', 'e', 'l', 'l', 'o', ' ']);
        assert("!"@ =~= seq!['!']);
    }
    let mut text = String::from_str("Hello ");
    text.append(subject);
    text.append("!");
    text
}

/// The numeral of a single digit.
fn digit_text(d: u64) -> (text: &'static str)
    requires
        d < 10,
    ensures
        text@ == seq![digit(d as nat)],
{
    proof {
        reveal_strlit("0");
        reveal_strlit("1");
        reveal_strlit("2");
        reveal_strlit("3");
        reveal_strlit("4");
        reveal_strlit("5");
        reveal_strlit("6");
        reveal_strlit("7");
        reveal_strlit("8");
        reveal_strlit("9");
        assert("0"@ =~= seq!['0']);
        assert("1"@ =~= seq!['1']);
        assert("2"@ =~= seq!['2']);
        assert("3"@ =~= seq!['3']);
        assert("4"@ =~= seq!['4']);
        assert("5"@ =~= seq!['5']);
        assert("6"@ =~= seq!['6']);
        assert("7"@ =~= seq!['7']);
        assert("8"@ =~= seq!['8']);
        assert("9"@ =~= seq!['9']);
    }
    if d == 0 {
        "0"
    } else if d == 1 {
        "1"
    } else if d == 2 {
        "2"
    } else if d == 3 {
        "3"
    } else if d == 4 {
        "4"
    } else if d == 5 {
        "5"
    } else if d == 6 {
        "6"
    } else if d == 7 {
        "7"
    } else if d == 8 {
        "8"
    } else {
        "9"
    }
}

/// Writes `n` as a decimal numeral.
pub fn render_count(n: u64) -> (text: String)
    ensures
        text@ == decimal(n as nat),
{
    let mut text = String::from_str(digit_text(n % 10));
    let mut rest: u64 = n / 10;
    while rest > 0
        invariant
            decimal(n as nat) == if rest == 0 {
                text@
            } else {
                decimal(rest as nat) + text@
            },
        decreases rest,
    {
        let head = String::from_str(digit_text(rest % 10));
        proof {
            let lower = text@;
            let front = if rest < 10 {
                Seq::<char>::empty()
            } else {
                decimal((rest / 10) as nat)
            };
            assert(decimal(rest as nat) =~= front + head@);
            assert(decimal(rest as nat) + lower =~= front + (head@ + lower));
            assert(Seq::<char>::empty() + (head@ + lower) =~= head@ + lower);
        }
        text = head.concat(text.as_str());
        rest = rest / 10;
    }
    text
}

impl HelloRequest {
    /// The request named `name`.
    pub fn new(name: &str) -> (request: Self)
        ensures
            request@ == name@,
    {
        HelloRequest { name: String::from_str(name) }
    }

    /// A second request of the same name.
    pub fn duplicate(&self) -> (copy: Self)
        ensures
            copy == *self,
    {
        HelloRequest { name: self.name.clone() }
    }
}

impl HelloReply {
    /// The reply that greets `subject`.
    pub fn greeting_for(subject: &str) -> (reply: Self)
        ensures
            reply@ == greeting(subject@),
    {
        HelloReply { message: greet(subject) }
    }

    /// The reply that greets a count, written as a decimal numeral.
    pub fn counting(count: u64) -> (reply: Self)
        ensures
            reply@ == greeting(decimal(count as nat)),
    {
        let numeral = render_count(count);
        HelloReply { message: greet(numeral.as_str()) }
    }
}

} // verus!
