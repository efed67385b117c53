//! The decisions of the passive Game Coordinator exchange: when to greet the
//! coordinator, what to send once it has answered, what a received message
//! means, and which failure a timeout is; and the reading of the client
//! version from `tf/steam.inf`. The caller performs the Steam calls, the
//! clock and the sleeping.

use vstd::prelude::*;
use crate::protobuf::{
    PROTO_MASK, WireError, body_from_packet, client_init_bytes, decode_map_counts, map_counts_spec,
    packet_body, tf_client_init,
};
use crate::text::{
    chars_of, eq_ignore_ascii_case, parse_u64, parse_unsigned, same_ignoring_ascii_case, starts_with,
    views,
};

verus! {

/// The coordinator's welcome.
pub const GC_CLIENT_WELCOME: u32 = 4004;
/// The client's greeting.
pub const GC_CLIENT_HELLO: u32 = 4006;
/// The request for the matchmaking statistics.
pub const MATCHMAKER_STATS_REQUEST: u32 = 6524;
/// The response that carries the matchmaking statistics.
pub const MATCHMAKER_STATS_RESPONSE: u32 = 6525;
/// The TF2 client initialisation.
pub const TF_CLIENT_INIT: u32 = 6536;

/// The time between two greetings, in nanoseconds.
pub const HELLO_INTERVAL_NANOS: u64 = 2_500_000_000;

/// How far the exchange has come. Times are nanoseconds since the exchange began.
pub struct GcSession {
    pub version: u32,
    pub welcomed: bool,
    pub init_sent: bool,
    pub request_sent: bool,
    /// When the last greeting was sent; `None` stands for three seconds
    /// before the exchange began.
    pub last_hello: Option<u64>,
}

/// What one received message decides.
pub enum GcMessage {
    /// Nothing yet: keep polling.
    Continue,
    /// The statistics arrived: the decoded counts, or why they could not be decoded.
    Counts(Result<Vec<u32>, WireError>),
}

/// Why the exchange timed out.
#[derive(Debug, Clone, Copy, PartialEq, Eq, Structural)]
pub enum GcTimeout {
    /// The coordinator never welcomed the client.
    NoWelcome,
    /// The coordinator welcomed the client but never sent the statistics.
    NoStatistics,
}

/// Whether a greeting is due at `now`: the coordinator has not welcomed the
/// client and the last greeting is at least the greeting interval old.
pub open spec fn hello_due_spec(s: GcSession, now: u64) -> bool {
    !s.welcomed && match s.last_hello {
        None => true,
        Some(t) => now >= t && now - t >= HELLO_INTERVAL_NANOS,
    }
}

/// The state after a message of type `raw_type` was taken in: a welcome is
/// recorded, anything else changes nothing.
pub open spec fn after_message(s: GcSession, raw_type: u32) -> GcSession {
    if (raw_type & !PROTO_MASK) == GC_CLIENT_WELCOME { GcSession { welcomed: true, ..s } } else { s }
}

/// The messages due in state `s`, in order: the client initialisation once
/// welcomed and not yet sent, then the statistics request once the
/// initialisation is (or is being) sent and the request is not yet sent.
pub open spec fn sends_due(s: GcSession) -> Seq<(u32, Seq<u8>)> {
    let init: Seq<(u32, Seq<u8>)> = if s.welcomed && !s.init_sent {
        seq![(TF_CLIENT_INIT, client_init_bytes(s.version))]
    } else {
        Seq::empty()
    };
    let request: Seq<(u32, Seq<u8>)> = if !s.request_sent && (s.init_sent || s.welcomed) {
        seq![(MATCHMAKER_STATS_REQUEST, Seq::<u8>::empty())]
    } else {
        Seq::empty()
    };
    init + request
}

/// The state after the due messages were sent.
pub open spec fn after_sends(s: GcSession) -> GcSession {
    GcSession {
        init_sent: s.init_sent || s.welcomed,
        request_sent: s.request_sent || s.init_sent || s.welcomed,
        ..s
    }
}

/// Messages as message types and bodies.
pub open spec fn send_views(sends: Seq<(u32, Vec<u8>)>) -> Seq<(u32, Seq<u8>)> {
    sends.map_values(|m: (u32, Vec<u8>)| (m.0, m.1@))
}

/// The exchange goes in order: the statistics request only after the client
/// initialisation, and that only after the welcome.
pub open spec fn in_order(s: GcSession) -> bool {
    (s.request_sent ==> s.init_sent) && (s.init_sent ==> s.welcomed)
}

/// Every step of the exchange keeps it in order: a greeting, a received
/// message of any type, and the sending of the due messages.
pub proof fn lemma_exchange_in_order(s: GcSession, now: u64, raw_type: u32)
    requires
        in_order(s),
    ensures
        in_order(GcSession { last_hello: Some(now), ..s }),
        in_order(after_message(s, raw_type)),
        in_order(after_sends(s)),
{
}

/// Each message goes once: once the due messages are sent, none is due
/// until another message is taken in.
pub proof fn lemma_sends_once(s: GcSession)
    ensures
        sends_due(after_sends(s)) == Seq::<(u32, Seq<u8>)>::empty(),
{
    assert(sends_due(after_sends(s)) =~= Seq::<(u32, Seq<u8>)>::empty());
}

/// The request is never due before the client is welcomed, and a welcome
/// makes both messages due, the initialisation first.
pub proof fn lemma_welcome_starts_sends(s: GcSession)
    requires
        in_order(s),
    ensures
        !s.welcomed ==> sends_due(s) == Seq::<(u32, Seq<u8>)>::empty(),
        !s.welcomed ==> sends_due(after_message(s, GC_CLIENT_WELCOME)) == seq![
            (TF_CLIENT_INIT, client_init_bytes(s.version)),
            (MATCHMAKER_STATS_REQUEST, Seq::<u8>::empty()),
        ],
{
    assert(GC_CLIENT_WELCOME & !PROTO_MASK == GC_CLIENT_WELCOME) by (bit_vector);
    assert(sends_due(s) =~= Seq::<(u32, Seq<u8>)>::empty() || s.welcomed);
    if !s.welcomed {
        assert(sends_due(after_message(s, GC_CLIENT_WELCOME)) =~= seq![
            (TF_CLIENT_INIT, client_init_bytes(s.version)),
            (MATCHMAKER_STATS_REQUEST, Seq::<u8>::empty()),
        ]);
    }
}

impl GcSession {
    /// A new exchange for the given client version; `backdated` says whether
    /// the last greeting may be put three seconds before the start (so that
    /// the first greeting goes at once).
    pub fn new(version: u32, backdated: bool) -> (s: GcSession)
        ensures
            s.version == version,
            !s.welcomed && !s.init_sent && !s.request_sent,
            s.last_hello == if backdated { None::<u64> } else { Some(0u64) },
            in_order(s),
    {
        GcSession {
            version,
            welcomed: false,
            init_sent: false,
            request_sent: false,
            last_hello: if backdated { None } else { Some(0) },
        }
    }

    /// Whether a greeting is due at `now`.
    pub fn hello_due(&self, now: u64) -> (r: bool)
        ensures
            r == hello_due_spec(*self, now),
    {
        if self.welcomed {
            return false;
        }
        match self.last_hello {
            None => true,
            Some(t) => now >= t && now - t >= HELLO_INTERVAL_NANOS,
        }
    }

    /// Records a greeting sent at `now`.
    pub fn hello_sent(&mut self, now: u64)
        ensures
            *final(self) == (GcSession { last_hello: Some(now), ..*old(self) }),
    {
        self.last_hello = Some(now);
    }

    /// Takes in one received message: a welcome is recorded, the statistics
    /// response is decoded (from the body of its packet), anything else is
    /// ignored.
    pub fn on_message(&mut self, raw_type: u32, packet: &[u8]) -> (r: GcMessage)
        ensures
            *final(self) == after_message(*old(self), raw_type),
            (raw_type & !PROTO_MASK) == MATCHMAKER_STATS_RESPONSE ==> match r {
                GcMessage::Counts(c) => match map_counts_spec(packet_body(raw_type, packet@)) {
                    Ok(counts) => c matches Ok(v) && v@ == counts,
                    Err(e) => c == Err::<Vec<u32>, WireError>(e),
                },
                GcMessage::Continue => false,
            },
            (raw_type & !PROTO_MASK) != MATCHMAKER_STATS_RESPONSE ==> r is Continue,
    {
        let message_type = raw_type & !PROTO_MASK;
        if message_type == GC_CLIENT_WELCOME {
            self.welcomed = true;
            GcMessage::Continue
        } else if message_type == MATCHMAKER_STATS_RESPONSE {
            GcMessage::Counts(decode_map_counts(body_from_packet(raw_type, packet)))
        } else {
            GcMessage::Continue
        }
    }

    /// The messages to send after the received ones were taken in: the
    /// client initialisation once welcomed, then the statistics request, each
    /// once.
    pub fn pending_sends(&mut self) -> (sends: Vec<(u32, Vec<u8>)>)
        ensures
            *final(self) == after_sends(*old(self)),
            send_views(sends@) == sends_due(*old(self)),
    {
        let mut sends: Vec<(u32, Vec<u8>)> = Vec::new();
        let ghost start = *self;
        if self.welcomed && !self.init_sent {
            sends.push((TF_CLIENT_INIT, tf_client_init(self.version)));
            self.init_sent = true;
        }
        if self.init_sent && !self.request_sent {
            sends.push((MATCHMAKER_STATS_REQUEST, Vec::new()));
            self.request_sent = true;
        }
        assert(send_views(sends@) =~= sends_due(start));
        sends
    }

    /// Which failure a timeout is.
    pub fn timeout_failure(&self) -> (r: GcTimeout)
        ensures
            r == if self.welcomed { GcTimeout::NoStatistics } else { GcTimeout::NoWelcome },
    {
        if self.welcomed { GcTimeout::NoStatistics } else { GcTimeout::NoWelcome }
    }
}


/// Why the coordinator refused a message.
#[derive(Debug, Clone, Copy, PartialEq, Eq, Structural)]
pub enum SendFailure {
    /// Steam is not logged on (result 3).
    NotLoggedOn,
    /// Any other non-zero result of `SendMessage`.
    Failed(i32),
}

/// What the result code of the coordinator's `SendMessage` means: 0 is
/// success, 3 that Steam is not logged on, anything else a failure with
/// that code.
pub fn send_outcome(result: i32) -> (r: Result<(), SendFailure>)
    ensures
        result == 0 ==> r is Ok,
        result == 3 ==> r == Err::<(), SendFailure>(SendFailure::NotLoggedOn),
        result != 0 && result != 3 ==> r == Err::<(), SendFailure>(SendFailure::Failed(result)),
{
    if result == 0 {
        Ok(())
    } else if result == 3 {
        Err(SendFailure::NotLoggedOn)
    } else {
        Err(SendFailure::Failed(result))
    }
}

/// The size of the buffer for the first `RetrieveMessage` call: the size
/// that `IsMessageAvailable` reported, and at least the 8 bytes of a packet
/// header. After `RetrieveOutcome::Grow` the buffer takes the size that the
/// call reported; after `RetrieveOutcome::Received` the message is the
/// buffer's first bytes, as many as the call reported.
pub fn retrieve_buffer_size(available: u32) -> (size: u32)
    ensures
        size == if available < 8 { 8 } else { available },
{
    if available < 8 { 8 } else { available }
}

/// What to do after a call of the coordinator's `RetrieveMessage`.
#[derive(Debug, Clone, Copy, PartialEq, Eq, Structural)]
pub enum RetrieveOutcome {
    /// The message was copied.
    Received,
    /// The buffer was too small: grow it to the size that Steam reported and
    /// call once more.
    Grow,
    /// The call failed with this code.
    Failed(i32),
}

/// What the result code of `RetrieveMessage` means: 0 is a received message;
/// 2 on the first call asks for a larger buffer; anything else, or 2 on the
/// second call, is a failure.
pub fn retrieve_outcome(result: i32, first_call: bool) -> (r: RetrieveOutcome)
    ensures
        result == 0 ==> r == RetrieveOutcome::Received,
        result == 2 && first_call ==> r == RetrieveOutcome::Grow,
        result != 0 && !(result == 2 && first_call) ==> r == RetrieveOutcome::Failed(result),
{
    if result == 0 {
        RetrieveOutcome::Received
    } else if result == 2 && first_call {
        RetrieveOutcome::Grow
    } else {
        RetrieveOutcome::Failed(result)
    }
}

/// Why `tf/steam.inf` gives no client version.
#[derive(Debug, Clone, Copy, PartialEq, Eq, Structural)]
pub enum VersionError {
    /// No line starts with `ClientVersion=`.
    Missing,
    /// The value is not an unsigned 32-bit number.
    NotUnsigned,
}

/// Whether `c` is white space in the sense of `char::is_whitespace`: it has
/// the Unicode property White_Space (the tab, line feed, vertical tab, form
/// feed, carriage return, space, next line, no-break space, Ogham space mark,
/// the spaces U+2000 to U+200A, the line and paragraph separators, the narrow
/// no-break space, the medium mathematical space and the ideographic space).
pub open spec fn unicode_white_space(c: char) -> bool {
    ||| ('\u{9}' <= c <= '\u{d}')
    ||| c == ' '
    ||| c == '\u{85}'
    ||| c == '\u{a0}'
    ||| c == '\u{1680}'
    ||| ('\u{2000}' <= c <= '\u{200a}')
    ||| c == '\u{2028}'
    ||| c == '\u{2029}'
    ||| c == '\u{202f}'
    ||| c == '\u{205f}'
    ||| c == '\u{3000}'
}

/// `s` without its leading white space.
pub open spec fn trim_start(s: Seq<char>) -> Seq<char>
    decreases s.len(),
{
    if s.len() > 0 && unicode_white_space(s[0]) { trim_start(s.drop_first()) } else { s }
}

/// `s` without its trailing white space.
pub open spec fn trim_end(s: Seq<char>) -> Seq<char>
    decreases s.len(),
{
    if s.len() > 0 && unicode_white_space(s.last()) { trim_end(s.drop_last()) } else { s }
}

/// Whether `c` is white space, as `char::is_whitespace` answers.
pub fn is_white_space(c: char) -> (r: bool)
    ensures
        r == unicode_white_space(c),
{
    ('\u{9}' <= c && c <= '\u{d}') || c == ' ' || c == '\u{85}' || c == '\u{a0}' || c == '\u{1680}'
        || ('\u{2000}' <= c && c <= '\u{200a}') || c == '\u{2028}' || c == '\u{2029}' || c == '\u{202f}'
        || c == '\u{205f}' || c == '\u{3000}'
}

/// The text without leading and trailing white space, as `str::trim` gives it.
fn trim(s: &[char]) -> (r: Vec<char>)
    ensures
        r@ == trim_end(trim_start(s@)),
{
    let mut start: usize = 0;
    assert(s@.skip(0) == s@);
    while start < s.len() && is_white_space(s[start])
        invariant
            start <= s.len(),
            trim_start(s@) == trim_start(s@.skip(start as int)),
        decreases s.len() - start,
    {
        assert(s@.skip(start as int).drop_first() == s@.skip(start + 1));
        start += 1;
    }
    let mut end: usize = s.len();
    assert(s@.skip(start as int) == s@.subrange(start as int, end as int));
    while end > start && is_white_space(s[end - 1])
        invariant
            start <= end <= s.len(),
            trim_end(trim_start(s@)) == trim_end(s@.subrange(start as int, end as int)),
        decreases end,
    {
        assert(s@.subrange(start as int, end as int).drop_last() == s@.subrange(start as int, end - 1));
        end -= 1;
    }
    vstd::slice::slice_to_vec(vstd::slice::slice_subrange(s, start, end))
}

/// A line without the carriage return that ended it before its line feed.
pub open spec fn strip_cr(line: Seq<char>) -> Seq<char> {
    if line.len() > 0 && line.last() == '\r' { line.drop_last() } else { line }
}

/// The lines of `s` from `i` on, after the line `current` being read and the
/// lines `acc` already read: a line ends at a line feed (a carriage return
/// before it dropped); a last line with no line feed counts when not empty.
pub open spec fn line_scan(s: Seq<char>, i: int, current: Seq<char>, acc: Seq<Seq<char>>) -> Seq<Seq<char>>
    decreases s.len() - i,
{
    if i < 0 || i >= s.len() {
        if current.len() > 0 { acc.push(current) } else { acc }
    } else if s[i] == '\n' {
        line_scan(s, i + 1, Seq::empty(), acc.push(strip_cr(current)))
    } else {
        line_scan(s, i + 1, current.push(s[i]), acc)
    }
}

/// The lines of `s`, as `str::lines` gives them.
pub open spec fn lines_of(s: Seq<char>) -> Seq<Seq<char>> {
    line_scan(s, 0, Seq::empty(), Seq::empty())
}

/// What follows `prefix` on the first line that starts with it.
pub open spec fn first_with_prefix(lines: Seq<Seq<char>>, prefix: Seq<char>) -> Option<Seq<char>>
    decreases lines.len(),
{
    if lines.len() == 0 {
        None
    } else if prefix.len() <= lines[0].len() && lines[0].take(prefix.len() as int) == prefix {
        Some(lines[0].skip(prefix.len() as int))
    } else {
        first_with_prefix(lines.drop_first(), prefix)
    }
}

/// The client version that the text of `tf/steam.inf` gives: the value of
/// its first `ClientVersion=` line, white space trimmed.
pub open spec fn client_version_of(text: Seq<char>) -> Result<u32, VersionError> {
    match first_with_prefix(lines_of(text), "ClientVersion="@) {
        None => Err(VersionError::Missing),
        Some(rest) => match parse_unsigned(trim_end(trim_start(rest)), u32::MAX as nat) {
            Some(v) => Ok(v as u32),
            None => Err(VersionError::NotUnsigned),
        },
    }
}

/// The lines of `text`.
fn split_lines(text: &[char]) -> (lines: Vec<Vec<char>>)
    ensures
        views(lines@) == lines_of(text@),
{
    let mut lines: Vec<Vec<char>> = Vec::new();
    let mut current: Vec<char> = Vec::new();
    let mut i: usize = 0;
    assert(views(lines@) =~= Seq::<Seq<char>>::empty());
    while i < text.len()
        invariant
            i <= text.len(),
            lines_of(text@) == line_scan(text@, i as int, current@, views(lines@)),
        decreases text.len() - i,
    {
        if text[i] == '\n' {
            if current.len() > 0 && current[current.len() - 1] == '\r' {
                current.pop();
            }
            let ghost before = views(lines@);
            let ghost line = current@;
            lines.push(current);
            assert(views(lines@) =~= before.push(line));
            current = Vec::new();
        } else {
            current.push(text[i]);
        }
        i += 1;
    }
    if current.len() > 0 {
        let ghost before = views(lines@);
        let ghost line = current@;
        lines.push(current);
        assert(views(lines@) =~= before.push(line));
    }
    lines
}

/// The client version that a `ClientVersion=` value gives once its white
/// space is trimmed: an unsigned 32-bit number, as `str::parse` reads it.
pub fn version_number(trimmed: &[char]) -> (r: Result<u32, VersionError>)
    ensures
        r == match parse_unsigned(trimmed@, u32::MAX as nat) {
            Some(v) => Ok::<u32, VersionError>(v as u32),
            None => Err(VersionError::NotUnsigned),
        },
{
    match parse_u64(trimmed) {
        Some(v) => if v <= u32::MAX as u64 { Ok(v as u32) } else { Err(VersionError::NotUnsigned) },
        None => Err(VersionError::NotUnsigned),
    }
}

/// Reads the client version from the text of `tf/steam.inf`.
pub fn parse_client_version(steam_inf: &str) -> (r: Result<u32, VersionError>)
    ensures
        r == client_version_of(steam_inf@),
{
    let text = chars_of(steam_inf);
    let lines = split_lines(text.as_slice());
    let prefix = chars_of("ClientVersion=");
    let mut k: usize = 0;
    assert(views(lines@).skip(0) == views(lines@));
    while k < lines.len()
        invariant
            k <= lines.len(),
            prefix@ == "ClientVersion="@,
            lines_of(steam_inf@) == views(lines@),
            first_with_prefix(views(lines@), prefix@) == first_with_prefix(views(lines@).skip(k as int), prefix@),
        decreases lines.len() - k,
    {
        let ghost rest = views(lines@).skip(k as int);
        assert(rest[0] == lines@[k as int]@);
        assert(rest.drop_first() == views(lines@).skip(k + 1));
        if starts_with(lines[k].as_slice(), prefix.as_slice()) {
            let value = vstd::slice::slice_subrange(lines[k].as_slice(), prefix.len(), lines[k].len());
            assert(value@ == lines@[k as int]@.skip(prefix@.len() as int));
            let trimmed = trim(value);
            return version_number(trimmed.as_slice());
        }
        k += 1;
    }
    Err(VersionError::Missing)
}

/// Whether a process's executable name is TF2's (`tf_win64.exe`, in any case).
pub fn is_tf2_process_name(name: &str) -> (r: bool)
    ensures
        r == eq_ignore_ascii_case(name@, "tf_win64.exe"@),
{
    let name_chars = chars_of(name);
    let tf2 = chars_of("tf_win64.exe");
    same_ignoring_ascii_case(name_chars.as_slice(), tf2.as_slice())
}

} // verus!
