//! What a movie and its player say.
use vstd::prelude::*;
use vstd::utf8::encode_utf8;
use crate::text::same_text;

verus! {

/// A line of trace as the host reads it.
pub open spec fn trace_line(message: Seq<char>) -> Seq<u8> {
    encode_utf8(message).push(10u8)
}

/// A whole trace as the host reads it: a line for each message, in order.
pub open spec fn traced_bytes(messages: Seq<Seq<char>>) -> Seq<u8>
    decreases messages.len(),
{
    if messages.len() == 0 {
        Seq::empty()
    } else {
        traced_bytes(messages.drop_last()) + trace_line(messages.last())
    }
}

/// Captures a movie's trace into a buffer the host can read back.
pub struct CaptureLog {
    pub out: Vec<u8>,
}

impl View for CaptureLog {
    type V = Seq<u8>;

    open spec fn view(&self) -> Seq<u8> {
        self.out@
    }
}

impl CaptureLog {
    /// Nothing said yet.
    pub fn new() -> (log: CaptureLog)
        ensures
            log@ == Seq::<u8>::empty(),
    {
        CaptureLog { out: Vec::new() }
    }

    /// The movie traced a message.
    pub fn avm_trace(&mut self, message: &str)
        ensures
            final(self)@ == old(self)@ + trace_line(message@),
    {
        self.out.extend_from_slice(message.as_bytes());
        self.out.push(10);
        assert(self.out@ =~= old(self)@ + trace_line(message@));
    }
}

/// How serious a diagnostic is.
#[derive(Clone, Copy, PartialEq, Eq, Structural, Debug)]
pub enum Level {
    Error,
    Warn,
    Info,
    Debug,
    Trace,
}

/// A diagnostic is kept.
pub open spec fn kept(level: Level) -> bool {
    level == Level::Error || level == Level::Warn
}

/// Whether a diagnostic is kept: warnings, and what is worse.
pub fn enabled(level: Level) -> (r: bool)
    ensures
        r == kept(level),
{
    match level {
        Level::Error => true,
        Level::Warn => true,
        _ => false,
    }
}

/// A field of a diagnostic, after what is already said: the message replaces
/// it, any other field follows it as a name and a value.
pub open spec fn with_field(said: Seq<char>, name: Seq<char>, value: Seq<char>) -> Seq<char> {
    if name == "message"@ {
        value
    } else if said.len() == 0 {
        name.push('=') + value
    } else {
        said.push(' ') + name.push('=') + value
    }
}

/// Gathers the fields of a diagnostic into one line.
pub struct MsgVisitor {
    pub text: String,
}

impl MsgVisitor {
    /// Nothing gathered yet.
    pub fn new() -> (v: MsgVisitor)
        ensures
            v.text@ == Seq::<char>::empty(),
    {
        MsgVisitor { text: String::new() }
    }

    /// Takes a field, its value already rendered.
    pub fn record_debug(&mut self, field: &str, value: &str)
        ensures
            final(self).text@ == with_field(old(self).text@, field@, value@),
    {
        if same_text(field, "message") {
            self.text = value.to_owned();
        } else {
            if !self.text.as_str().is_empty() {
                self.text.push(' ');
            }
            self.text.append(field);
            self.text.push('=');
            self.text.append(value);
            assert(self.text@ =~= with_field(old(self).text@, field@, value@));
        }
    }
}

/// A line of trace is the message in UTF-8 and a line feed.
pub proof fn a_line_is_its_message_and_a_feed(message: Seq<char>)
    ensures
        trace_line(message) == encode_utf8(message) + seq![10u8],
        traced_bytes(seq![message]) == encode_utf8(message) + seq![10u8],
        traced_bytes(Seq::<Seq<char>>::empty()) == Seq::<u8>::empty(),
{
    assert(trace_line(message) =~= encode_utf8(message) + seq![10u8]);
    assert(seq![message].drop_last() =~= Seq::<Seq<char>>::empty());
    assert(traced_bytes(seq![message].drop_last()) =~= Seq::<u8>::empty());
    assert(traced_bytes(seq![message]) =~= encode_utf8(message) + seq![10u8]);
}

/// A trace is its parts, one behind the other.
pub proof fn a_trace_is_its_parts(a: Seq<Seq<char>>, b: Seq<Seq<char>>)
    ensures
        traced_bytes(a + b) == traced_bytes(a) + traced_bytes(b),
    decreases b.len(),
{
    if b.len() == 0 {
        assert(a + b =~= a);
        assert(traced_bytes(a) + traced_bytes(b) =~= traced_bytes(a));
    } else {
        assert((a + b).drop_last() =~= a + b.drop_last());
        a_trace_is_its_parts(a, b.drop_last());
        assert(traced_bytes(a + b) =~= traced_bytes(a) + traced_bytes(b));
    }
}

/// The message of a diagnostic is said in place of what was said before; any
/// other field is said behind it, as its name and its value, a space between
/// where there is something to be apart from.
pub proof fn a_field_is_said_behind_the_rest(said: Seq<char>, name: Seq<char>, value: Seq<char>)
    ensures
        with_field(said, "message"@, value) == value,
        name != "message"@ ==> with_field(Seq::empty(), name, value) == name + seq!['=']
            + value,
        name != "message"@ && said.len() > 0 ==> with_field(said, name, value) == said
            + seq![' '] + name + seq!['='] + value,
{
    if name != "message"@ {
        assert(with_field(Seq::empty(), name, value) =~= name + seq!['='] + value);
        if said.len() > 0 {
            assert(with_field(said, name, value) =~= said + seq![' '] + name + seq!['='] + value);
        }
    }
}

/// Warnings and errors are kept, and what is less serious is not.
pub proof fn warnings_and_worse_are_kept(level: Level)
    ensures
        level == Level::Error || level == Level::Warn ==> kept(level),
        level == Level::Info || level == Level::Debug || level == Level::Trace ==> !kept(level),
{
}

} // verus!
