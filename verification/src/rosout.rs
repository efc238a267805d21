//! The log panel's buffer: formatted log lines wait in a bounded ring until
//! the panel drains them.

use vstd::prelude::*;
use vstd::string::*;

verus! {

/// Makes the writing end of a ring, `ringbuf::Producer`, known to the
/// verifier as a type it cannot look into.
#[verifier::external_type_specification]
#[verifier::external_body]
#[verifier::reject_recursive_types(T)]
pub struct ExProducer<T>(ringbuf::Producer<T>);

/// Makes the reading end of a ring, `ringbuf::Consumer`, known to the
/// verifier as a type it cannot look into.
#[verifier::external_type_specification]
#[verifier::external_body]
#[verifier::reject_recursive_types(T)]
pub struct ExConsumer<T>(ringbuf::Consumer<T>);

/// Trusted name: the strings that wait in the ring read through `consumer`,
/// oldest first.
pub uninterp spec fn ring_items(consumer: ringbuf::Consumer<String>) -> Seq<Seq<char>>;

/// Trusted name: the number of strings that the ring read through `consumer`
/// was made to hold.
pub uninterp spec fn ring_limit(consumer: ringbuf::Consumer<String>) -> nat;

/// Trusted name: whether `producer` writes into the very ring that `consumer`
/// reads. The two ends that `split` hands out are joined, and stay so.
pub uninterp spec fn ring_joined(
    producer: ringbuf::Producer<String>,
    consumer: ringbuf::Consumer<String>,
) -> bool;

/// The sizes for which a ring of strings can be allocated: one slot more than
/// `size`, each of three machine words, must stay within `isize::MAX` bytes.
pub open spec fn ring_size_fits(size: usize) -> bool {
    (size as int + 1) * 3 * (usize::BITS as int / 8) <= isize::MAX as int
}

/// Trusted: `ringbuf::RingBuffer::new` and `split`. A fresh ring is empty and
/// holds at most `size` items; the two ends returned belong to it.
#[verifier::external_body]
fn ring_new(size: usize) -> (ends: (ringbuf::Producer<String>, ringbuf::Consumer<String>))
    requires
        ring_size_fits(size),
    ensures
        ring_joined(ends.0, ends.1),
        ring_items(ends.1) == Seq::<Seq<char>>::empty(),
        ring_limit(ends.1) == size,
{
    ringbuf::RingBuffer::<String>::new(size).split()
}

/// Trusted: `ringbuf::Producer::push`. A ring that is not full takes the item
/// as its newest; a full ring refuses it and stays as it was. The ring is
/// shared by both ends, so the change shows in what `consumer` will hand out.
/// The call never panics.
#[verifier::external_body]
fn ring_push(
    producer: &mut ringbuf::Producer<String>,
    consumer: &mut ringbuf::Consumer<String>,
    item: String,
) -> (accepted: bool)
    requires
        ring_joined(*old(producer), *old(consumer)),
    ensures
        ring_joined(*final(producer), *final(consumer)),
        ring_limit(*final(consumer)) == ring_limit(*old(consumer)),
        accepted == (ring_items(*old(consumer)).len() < ring_limit(*old(consumer))),
        ring_items(*final(consumer)) == if accepted {
            ring_items(*old(consumer)).push(item@)
        } else {
            ring_items(*old(consumer))
        },
    no_unwind
{
    producer.push(item).is_ok()
}

/// Trusted: `ringbuf::Consumer::is_empty`. It tells whether nothing waits in
/// the ring.
#[verifier::external_body]
fn ring_is_empty(consumer: &ringbuf::Consumer<String>) -> (empty: bool)
    ensures
        empty == (ring_items(*consumer).len() == 0),
{
    consumer.is_empty()
}

/// Trusted: `ringbuf::Consumer::pop`. The oldest item leaves the ring and is
/// returned; an empty ring gives `None`. The writing end stays joined. The
/// call never panics.
#[verifier::external_body]
fn ring_pop(
    producer: &ringbuf::Producer<String>,
    consumer: &mut ringbuf::Consumer<String>,
) -> (item: Option<String>)
    requires
        ring_joined(*producer, *old(consumer)),
    ensures
        ring_joined(*producer, *final(consumer)),
        ring_limit(*final(consumer)) == ring_limit(*old(consumer)),
        match item {
            Some(s) => ring_items(*old(consumer)).len() > 0 && s@ == ring_items(*old(consumer))[0]
                && ring_items(*final(consumer)) == ring_items(*old(consumer)).drop_first(),
            None => ring_items(*old(consumer)).len() == 0 && ring_items(*final(consumer))
                == ring_items(*old(consumer)),
        },
    no_unwind
{
    consumer.pop()
}

/// What a `LogBuffer` stands for.
pub struct LogBufferView {
    /// The lines not yet drained, oldest first.
    pub pending: Seq<Seq<char>>,
    /// The number of lines the buffer can hold.
    pub capacity: nat,
    /// Whether arriving messages are recorded.
    pub buffering: bool,
}

/// A bounded FIFO of log lines with a switch that turns recording on and off.
pub struct LogBuffer {
    producer: ringbuf::Producer<String>,
    consumer: ringbuf::Consumer<String>,
    is_buffering: bool,
}

impl View for LogBuffer {
    type V = LogBufferView;

    closed spec fn view(&self) -> LogBufferView {
        LogBufferView {
            pending: ring_items(self.consumer),
            capacity: ring_limit(self.consumer),
            buffering: self.is_buffering,
        }
    }
}

impl LogBuffer {
    /// Both ends belong to one ring, always.
    #[verifier::type_invariant]
    spec fn joined(&self) -> bool {
        ring_joined(self.producer, self.consumer)
    }

    /// An empty buffer for `size` lines.
    pub fn new(size: usize, start_buffering: bool) -> (buffer: LogBuffer)
        requires
            ring_size_fits(size),
        ensures
            buffer@.pending == Seq::<Seq<char>>::empty(),
            buffer@.capacity == size,
            buffer@.buffering == start_buffering,
    {
        let (producer, consumer) = ring_new(size);
        LogBuffer { producer, consumer, is_buffering: start_buffering }
    }

    /// Appends `logstring` as the newest line; a full buffer drops it.
    pub fn push_logstring(&mut self, logstring: String)
        ensures
            final(self)@.capacity == old(self)@.capacity,
            final(self)@.buffering == old(self)@.buffering,
            final(self)@.pending == if old(self)@.pending.len() < old(self)@.capacity {
                old(self)@.pending.push(logstring@)
            } else {
                old(self)@.pending
            },
    {
        proof {
            use_type_invariant(&*self);
        }
        let _accepted = ring_push(&mut self.producer, &mut self.consumer, logstring);
    }

    /// Takes every waiting line out of the buffer, oldest first.
    pub fn drain_logstrings(&mut self) -> (logstrings: Vec<String>)
        ensures
            final(self)@.capacity == old(self)@.capacity,
            final(self)@.buffering == old(self)@.buffering,
            final(self)@.pending == Seq::<Seq<char>>::empty(),
            logstrings@.len() == old(self)@.pending.len(),
            forall|i: int| 0 <= i < logstrings@.len() ==> logstrings@[i]@ == old(self)@.pending[i],
    {
        proof {
            use_type_invariant(&*self);
        }
        let mut logstrings = Vec::<String>::new();
        while !ring_is_empty(&self.consumer)
            invariant
                ring_joined(self.producer, self.consumer),
                self@.capacity == old(self)@.capacity,
                self@.buffering == old(self)@.buffering,
                logstrings@.len() + self@.pending.len() == old(self)@.pending.len(),
                forall|i: int|
                    0 <= i < logstrings@.len() ==> logstrings@[i]@ == old(self)@.pending[i],
                forall|i: int|
                    0 <= i < self@.pending.len() ==> self@.pending[i] == old(self)@.pending[
                        logstrings@.len() + i],
            decreases self@.pending.len(),
        {
            let popped = ring_pop(&self.producer, &mut self.consumer);
            match popped {
                Some(line) => {
                    logstrings.push(line);
                },
                None => {},
            }
        }
        assert(self@.pending =~= Seq::<Seq<char>>::empty());
        logstrings
    }

    /// Whether arriving messages are recorded.
    pub fn is_buffering(&self) -> (on: bool)
        ensures
            on == self@.buffering,
    {
        self.is_buffering
    }
}

/// Severity of a debug message.
pub const DEBUG: i8 = 1;

/// Severity of an informational message.
pub const INFO: i8 = 2;

/// Severity of a warning.
pub const WARN: i8 = 4;

/// Severity of an error.
pub const ERROR: i8 = 8;

/// Severity of a fatal error.
pub const FATAL: i8 = 16;

/// The colours in which log lines are shown.
#[derive(Clone, Copy, Debug, PartialEq, Eq, Structural)]
pub enum LogColor {
    White,
    Yellow,
    Red,
}

/// The five severities a log message can carry.
pub open spec fn is_log_level(level: i8) -> bool {
    level == DEBUG || level == INFO || level == WARN || level == ERROR || level == FATAL
}

/// The word that names a severity in a log line.
pub open spec fn level_label(level: i8) -> Seq<char> {
    if level == DEBUG {
        "DEBUG"@
    } else if level == INFO {
        "INFO"@
    } else if level == WARN {
        "WARN"@
    } else if level == ERROR {
        "ERROR"@
    } else {
        "FATAL"@
    }
}

/// The colour of a severity: warnings yellow, errors and fatal errors red,
/// the rest white.
pub open spec fn level_color(level: i8) -> LogColor {
    if level == WARN {
        LogColor::Yellow
    } else if level == ERROR || level == FATAL {
        LogColor::Red
    } else {
        LogColor::White
    }
}

/// The uncoloured text of a log line: `[name LEVEL stamp] msg`.
pub open spec fn log_line(level: i8, msg: Seq<char>, name: Seq<char>, stamp: Seq<char>) -> Seq<
    char,
> {
    "["@ + name + " "@ + level_label(level) + " "@ + stamp + "] "@ + msg
}

/// The escape sequence that switches the terminal to a foreground colour.
pub open spec fn color_lead(color: LogColor) -> Seq<char> {
    match color {
        LogColor::White => "\x1b[37m"@,
        LogColor::Yellow => "\x1b[33m"@,
        LogColor::Red => "\x1b[31m"@,
    }
}

/// The escape sequence that switches the terminal back to its defaults.
pub open spec fn color_reset() -> Seq<char> {
    "\x1b[0m"@
}

/// What a coloured rendering `shown` of `text` looks like: it opens with the
/// colour's escape sequence and closes with the reset sequence, and between
/// them stands `text` itself whenever `text` holds no escape character.
pub open spec fn is_colored(shown: Seq<char>, text: Seq<char>, color: LogColor) -> bool {
    &&& color_lead(color).is_prefix_of(shown)
    &&& color_reset().is_suffix_of(shown)
    &&& !text.contains('\u{1b}') ==> shown == color_lead(color) + text + color_reset()
}

/// Trusted: `colored::Colorize::color` on a string slice, shown through
/// `Display`. Whether colours are used depends on the terminal and on the
/// environment, so the result is either `text` unchanged or a coloured
/// rendering of it.
#[verifier::external_body]
fn paint(text: &str, color: LogColor) -> (shown: String)
    ensures
        shown@ == text@ || is_colored(shown@, text@, color),
{
    let tint = match color {
        LogColor::White => colored::Color::White,
        LogColor::Yellow => colored::Color::Yellow,
        LogColor::Red => colored::Color::Red,
    };
    format!("{}", colored::Colorize::color(text, tint))
}

/// The label of a severity, as a string.
fn label_of(level: i8) -> (label: &'static str)
    requires
        is_log_level(level),
    ensures
        label@ == level_label(level),
{
    if level == DEBUG {
        "DEBUG"
    } else if level == INFO {
        "INFO"
    } else if level == WARN {
        "WARN"
    } else if level == ERROR {
        "ERROR"
    } else {
        "FATAL"
    }
}

/// The colour of a severity.
fn color_of(level: i8) -> (color: LogColor)
    ensures
        color == level_color(level),
{
    if level == WARN {
        LogColor::Yellow
    } else if level == ERROR || level == FATAL {
        LogColor::Red
    } else {
        LogColor::White
    }
}

/// Whether `shown` is a log line for the given message: the plain text
/// `[name LEVEL stamp] msg`, or a rendering of it in the colour of its
/// severity.
pub open spec fn is_log_entry(
    shown: Seq<char>,
    level: i8,
    msg: Seq<char>,
    name: Seq<char>,
    stamp: Seq<char>,
) -> bool {
    shown == log_line(level, msg, name, stamp) || is_colored(
        shown,
        log_line(level, msg, name, stamp),
        level_color(level),
    )
}

/// Formats one log message as the panel shows it: `[name LEVEL stamp] msg`,
/// coloured by severity where the terminal takes colours. `stamp` is the
/// message's time in seconds, already written out as text.
pub fn format_logstring(level: i8, msg: &str, name: &str, stamp: &str) -> (shown: String)
    requires
        is_log_level(level),
    ensures
        is_log_entry(shown@, level, msg@, name@, stamp@),
{
    let mut line = String::from_str("[");
    line.append(name);
    line.append(" ");
    line.append(label_of(level));
    line.append(" ");
    line.append(stamp);
    line.append("] ");
    line.append(msg);
    paint(line.as_str(), color_of(level))
}

/// The receiving side of the log topic: it owns the buffer that the panel
/// drains and records messages while buffering is switched on.
pub struct RosoutListener {
    pub log_buffer: LogBuffer,
}

impl RosoutListener {
    /// A listener with an empty buffer for `buffer_size` lines.
    pub fn new(buffer_size: usize, start_buffering: bool) -> (listener: RosoutListener)
        requires
            ring_size_fits(buffer_size),
        ensures
            listener.log_buffer@.pending == Seq::<Seq<char>>::empty(),
            listener.log_buffer@.capacity == buffer_size,
            listener.log_buffer@.buffering == start_buffering,
    {
        RosoutListener { log_buffer: LogBuffer::new(buffer_size, start_buffering) }
    }

    /// Handles one arriving message: while buffering is on, its log line
    /// joins the buffer as the newest, unless the buffer is full; while it is
    /// off, and where the buffer is full, nothing changes.
    pub fn on_message(&mut self, level: i8, msg: &str, name: &str, stamp: &str)
        requires
            old(self).log_buffer@.buffering ==> is_log_level(level),
        ensures
            final(self).log_buffer@.capacity == old(self).log_buffer@.capacity,
            final(self).log_buffer@.buffering == old(self).log_buffer@.buffering,
            if old(self).log_buffer@.buffering && old(self).log_buffer@.pending.len() < old(
                self,
            ).log_buffer@.capacity {
                &&& final(self).log_buffer@.pending.len() == old(self).log_buffer@.pending.len() + 1
                &&& final(self).log_buffer@.pending.drop_last() == old(self).log_buffer@.pending
                &&& is_log_entry(final(self).log_buffer@.pending.last(), level, msg@, name@, stamp@)
            } else {
                final(self).log_buffer@.pending == old(self).log_buffer@.pending
            },
    {
        if self.log_buffer.is_buffering() {
            let shown = format_logstring(level, msg, name, stamp);
            self.log_buffer.push_logstring(shown);
        }
    }

    /// Switches buffering on if it was off, and off if it was on.
    pub fn toggle_buffering(&mut self)
        ensures
            final(self).log_buffer@.buffering == !old(self).log_buffer@.buffering,
            final(self).log_buffer@.pending == old(self).log_buffer@.pending,
            final(self).log_buffer@.capacity == old(self).log_buffer@.capacity,
    {
        proof {
            use_type_invariant(&self.log_buffer);
        }
        self.log_buffer.is_buffering = !self.log_buffer.is_buffering;
    }

    /// Takes every waiting line out of the buffer, oldest first.
    pub fn drain_logstring_buffer(&mut self) -> (logstrings: Vec<String>)
        ensures
            final(self).log_buffer@.capacity == old(self).log_buffer@.capacity,
            final(self).log_buffer@.buffering == old(self).log_buffer@.buffering,
            final(self).log_buffer@.pending == Seq::<Seq<char>>::empty(),
            logstrings@.len() == old(self).log_buffer@.pending.len(),
            forall|i: int|
                0 <= i < logstrings@.len() ==> logstrings@[i]@ == old(self).log_buffer@.pending[i],
    {
        self.log_buffer.drain_logstrings()
    }
}

} // verus!
