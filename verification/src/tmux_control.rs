//! The control-mode protocol: quoting of command arguments, the framing of
//! response blocks, and a client that turns the lines read from one
//! connection into the reply to the command that was sent.
//!
//! The client does no I/O. A caller writes the text that `command` returns
//! to the multiplexer and hands each line it reads to `receive`.

use crate::text::{
    copy_text, decimal, has_prefix_at, lemma_deep_push, line_end, parse_number, parse_unsigned,
    push_decimal, same_chars, split_words, text_of, to_chars, without_line_ending, words,
};
use vstd::prelude::*;

verus! {

/// `s` with a backslash before each backslash and each double quote.
pub open spec fn escaped(s: Seq<char>) -> Seq<char>
    decreases s.len(),
{
    if s.len() == 0 {
        Seq::empty()
    } else if s.last() == '\\' || s.last() == '"' {
        escaped(s.drop_last()).push('\\').push(s.last())
    } else {
        escaped(s.drop_last()).push(s.last())
    }
}

/// `s` as one argument of a command: escaped, between double quotes.
pub open spec fn quoted(s: Seq<char>) -> Seq<char> {
    seq!['"'] + escaped(s) + seq!['"']
}

/// Appends `value` as one quoted argument to `out`.
pub fn push_quoted(out: &mut String, value: &str)
    ensures
        final(out)@ == old(out)@ + quoted(value@),
{
    let v = to_chars(value);
    let ghost start = out@;
    out.push('"');
    let mut i: usize = 0;
    assert(v@.take(0) =~= Seq::<char>::empty());
    while i < v.len()
        invariant
            i <= v.len(),
            out@ == start.push('"') + escaped(v@.take(i as int)),
        decreases v.len() - i,
    {
        let c = v[i];
        assert(v@.take(i + 1).drop_last() =~= v@.take(i as int));
        if c == '\\' || c == '"' {
            out.push('\\');
        }
        out.push(c);
        i += 1;
        assert(out@ =~= start.push('"') + escaped(v@.take(i as int)));
    }
    assert(v@.take(i as int) =~= v@);
    out.push('"');
    assert(out@ =~= start + quoted(value@));
}

/// `value` as one argument of a command.
pub fn quote_tmux_arg(value: &str) -> (out: String)
    ensures
        out@ == quoted(value@),
{
    let mut out = String::new();
    push_quoted(&mut out, value);
    assert(Seq::<char>::empty() + quoted(value@) =~= quoted(value@));
    out
}

/// What a line read from the connection is.
#[derive(Clone, Copy, PartialEq, Eq, Structural, Debug)]
pub enum LineKind {
    /// The multiplexer announces that it leaves control mode.
    Exit,
    /// The end of a response block whose command failed.
    Error,
    /// The start of a response block.
    Begin,
    /// The end of a response block whose command succeeded.
    End,
    /// Any other line that starts with `%`: sent unasked, at any time.
    Notification,
    /// A line of a command's output.
    Output,
}

pub open spec fn line_kind(line: Seq<char>) -> LineKind {
    if "%exit"@.is_prefix_of(line) {
        LineKind::Exit
    } else if "%error"@.is_prefix_of(line) {
        LineKind::Error
    } else if "%begin"@.is_prefix_of(line) {
        LineKind::Begin
    } else if "%end"@.is_prefix_of(line) {
        LineKind::End
    } else if line.len() > 0 && line[0] == '%' {
        LineKind::Notification
    } else {
        LineKind::Output
    }
}

fn begins(line: &Vec<char>, prefix: &str) -> (r: bool)
    ensures
        r == prefix@.is_prefix_of(line@),
{
    let p = to_chars(prefix);
    assert(line@.skip(0) =~= line@);
    has_prefix_at(line, 0, &p)
}

pub fn classify(line: &Vec<char>) -> (kind: LineKind)
    ensures
        kind == line_kind(line@),
{
    if begins(line, "%exit") {
        LineKind::Exit
    } else if begins(line, "%error") {
        LineKind::Error
    } else if begins(line, "%begin") {
        LineKind::Begin
    } else if begins(line, "%end") {
        LineKind::End
    } else if line.len() > 0 && line[0] == '%' {
        LineKind::Notification
    } else {
        LineKind::Output
    }
}

/// Why a begin or end marker could not be read.
#[derive(Clone, Copy, PartialEq, Eq, Structural, Debug)]
pub enum MarkerFault {
    /// The line has no `%` word followed by a time and an id.
    Malformed,
    /// The id is not a number that fits 64 bits.
    InvalidId,
}

/// The command id of a marker line: its third word, after the marker's name
/// and the time.
pub open spec fn marker_id(line: Seq<char>) -> Result<u64, MarkerFault> {
    let w = words(line);
    if w.len() < 3 || w[0].len() == 0 || w[0][0] != '%' {
        Err(MarkerFault::Malformed)
    } else {
        match parse_unsigned(w[2], u64::MAX as nat) {
            Some(id) => Ok(id as u64),
            None => Err(MarkerFault::InvalidId),
        }
    }
}

pub fn read_marker_id(line: &Vec<char>) -> (r: Result<u64, MarkerFault>)
    ensures
        r == marker_id(line@),
{
    let w = split_words(line);
    assert(w.deep_view().len() == w.len());
    if w.len() < 3 {
        return Err(MarkerFault::Malformed);
    }
    assert(w.deep_view()[0] == w@[0]@);
    assert(w.deep_view()[2] == w@[2]@);
    if w[0].len() == 0 || w[0][0] != '%' {
        return Err(MarkerFault::Malformed);
    }
    let id = &w[2];
    assert(id@.subrange(0, id.len() as int) =~= id@);
    match parse_number(id, 0, id.len(), u64::MAX) {
        Some(n) => Ok(n),
        None => Err(MarkerFault::InvalidId),
    }
}

/// Why a command got no reply, or a failed one.
#[derive(Debug, Clone, PartialEq, Eq)]
pub enum ControlError {
    /// The output stream ended before the response was complete.
    ConnectionClosed,
    /// The multiplexer announced that it leaves control mode.
    Exited,
    /// The multiplexer reported that the command failed; holds the marker
    /// line as it came.
    Protocol(String),
    /// A begin or end marker without a time or an id; holds the line.
    MalformedFraming(String),
    /// A begin or end marker whose id is no number; holds the line.
    InvalidCommandId(String),
}

/// What a `ControlError` holds, with texts as sequences of characters.
pub enum Fault {
    ConnectionClosed,
    Exited,
    Protocol(Seq<char>),
    MalformedFraming(Seq<char>),
    InvalidCommandId(Seq<char>),
}

impl View for ControlError {
    type V = Fault;

    open spec fn view(&self) -> Fault {
        match self {
            ControlError::ConnectionClosed => Fault::ConnectionClosed,
            ControlError::Exited => Fault::Exited,
            ControlError::Protocol(line) => Fault::Protocol(line@),
            ControlError::MalformedFraming(line) => Fault::MalformedFraming(line@),
            ControlError::InvalidCommandId(line) => Fault::InvalidCommandId(line@),
        }
    }
}

/// The message that reports a fault.
pub open spec fn fault_message(fault: Fault) -> Seq<char> {
    match fault {
        Fault::ConnectionClosed => "tmux control mode closed unexpectedly"@,
        Fault::Exited => "tmux control mode exited unexpectedly"@,
        Fault::Protocol(line) => "tmux control error: "@ + line,
        Fault::MalformedFraming(line) => "Malformed tmux control line: "@ + line,
        Fault::InvalidCommandId(line) => "Invalid tmux command id: "@ + line,
    }
}

/// The fault that a marker line which cannot be read gives.
pub open spec fn marker_fault(fault: MarkerFault, line: Seq<char>) -> Fault {
    match fault {
        MarkerFault::Malformed => Fault::MalformedFraming(line),
        MarkerFault::InvalidId => Fault::InvalidCommandId(line),
    }
}

fn marker_error(fault: MarkerFault, line: &Vec<char>) -> (e: ControlError)
    ensures
        e@ == marker_fault(fault, line@),
{
    match fault {
        MarkerFault::Malformed => ControlError::MalformedFraming(text_of(line)),
        MarkerFault::InvalidId => ControlError::InvalidCommandId(text_of(line)),
    }
}

impl ControlError {
    /// The message that reports this error.
    pub fn message(&self) -> (out: String)
        ensures
            out@ == fault_message(self@),
    {
        match self {
            ControlError::ConnectionClosed => copy_text("tmux control mode closed unexpectedly"),
            ControlError::Exited => copy_text("tmux control mode exited unexpectedly"),
            ControlError::Protocol(line) => {
                let mut out = copy_text("tmux control error: ");
                out.append(line.as_str());
                out
            },
            ControlError::MalformedFraming(line) => {
                let mut out = copy_text("Malformed tmux control line: ");
                out.append(line.as_str());
                out
            },
            ControlError::InvalidCommandId(line) => {
                let mut out = copy_text("Invalid tmux command id: ");
                out.append(line.as_str());
                out
            },
        }
    }

    /// Whether the connection is lost: the client must be discarded.
    pub fn is_connection_error(&self) -> (r: bool)
        ensures
            r == (self@ is ConnectionClosed || self@ is Exited),
    {
        match self {
            ControlError::ConnectionClosed => true,
            ControlError::Exited => true,
            _ => false,
        }
    }

    /// A copy of this error.
    pub fn duplicate(&self) -> (e: ControlError)
        ensures
            e@ == self@,
    {
        match self {
            ControlError::ConnectionClosed => ControlError::ConnectionClosed,
            ControlError::Exited => ControlError::Exited,
            ControlError::Protocol(line) => ControlError::Protocol(copy_text(line.as_str())),
            ControlError::MalformedFraming(line) => ControlError::MalformedFraming(
                copy_text(line.as_str()),
            ),
            ControlError::InvalidCommandId(line) => ControlError::InvalidCommandId(
                copy_text(line.as_str()),
            ),
        }
    }
}

/// The command id of a begin or end marker.
pub fn parse_command_id(line: &str) -> (r: Result<u64, ControlError>)
    ensures
        match marker_id(line@) {
            Ok(id) => r == Ok::<u64, ControlError>(id),
            Err(fault) => r is Err && r->Err_0@ == marker_fault(fault, line@),
        },
{
    let chars = to_chars(line);
    match read_marker_id(&chars) {
        Ok(id) => Ok(id),
        Err(fault) => Err(marker_error(fault, &chars)),
    }
}

/// The reply to one command: the lines of its output, or why there are none.
pub type Reply = Result<Vec<String>, ControlError>;

/// A reply, with texts as sequences of characters.
pub type ReplyModel = Result<Seq<Seq<char>>, Fault>;

pub open spec fn reply_model(reply: Reply) -> ReplyModel {
    match reply {
        Ok(lines) => Ok(lines.deep_view()),
        Err(e) => Err(e@),
    }
}

pub open spec fn progress_model(progress: Option<Reply>) -> Option<ReplyModel> {
    match progress {
        Some(reply) => Some(reply_model(reply)),
        None => None,
    }
}

/// What the client has sent and not yet got the reply to.
#[derive(Clone, Copy, PartialEq, Eq, Structural, Debug)]
pub enum Exchange {
    /// Nothing: no command is outstanding.
    Idle,
    /// One command, whose reply is its response block.
    Command,
    /// One command followed by the sentinel command, whose reply is every
    /// line of output before the sentinel.
    Query,
}

/// Where the client stands in the exchange that is under way.
#[derive(Clone, Copy, PartialEq, Eq, Structural, Debug)]
pub enum Phase {
    Idle,
    AwaitingBegin,
    AwaitingEnd,
}

/// The state of a client.
pub struct ClientState {
    pub exchange: Exchange,
    /// The id of the first begin marker seen since the command was sent.
    pub command_id: Option<u64>,
    /// In a query, the line that the sentinel command prints.
    pub sentinel: Seq<char>,
    /// In a query, the id of the second begin marker seen.
    pub sentinel_id: Option<u64>,
    pub sentinel_seen: bool,
    pub sentinel_end_seen: bool,
    /// In a query, the first failure seen.
    pub failure: Option<Fault>,
    /// The lines of output gathered so far.
    pub output: Seq<Seq<char>>,
}

pub open spec fn idle_state() -> ClientState {
    ClientState {
        exchange: Exchange::Idle,
        command_id: None,
        sentinel: Seq::empty(),
        sentinel_id: None,
        sentinel_seen: false,
        sentinel_end_seen: false,
        failure: None,
        output: Seq::empty(),
    }
}

/// The state after a command was sent.
pub open spec fn command_state() -> ClientState {
    ClientState { exchange: Exchange::Command, ..idle_state() }
}

/// The state after a command and the sentinel command were sent.
pub open spec fn query_state(sentinel: Seq<char>) -> ClientState {
    ClientState { exchange: Exchange::Query, sentinel: sentinel, ..idle_state() }
}

pub open spec fn phase_of(st: ClientState) -> Phase {
    if st.exchange == Exchange::Idle {
        Phase::Idle
    } else if st.command_id is None {
        Phase::AwaitingBegin
    } else {
        Phase::AwaitingEnd
    }
}

/// One line in an exchange of one command. Before the begin marker every
/// line but a failure is passed over. After it, output is gathered until
/// the end marker with the same id. A failure ends the exchange at once.
pub open spec fn command_step(st: ClientState, line: Seq<char>) -> (
    ClientState,
    Option<ReplyModel>,
) {
    match line_kind(line) {
        LineKind::Exit => (idle_state(), Some(Err(Fault::Exited))),
        LineKind::Error => (idle_state(), Some(Err(Fault::Protocol(line)))),
        LineKind::Begin => if st.command_id is None {
            match marker_id(line) {
                Ok(id) => (ClientState { command_id: Some(id), ..st }, None),
                Err(fault) => (idle_state(), Some(Err(marker_fault(fault, line)))),
            }
        } else {
            (st, None)
        },
        LineKind::End => match st.command_id {
            Some(expected) => match marker_id(line) {
                Ok(id) => if id == expected {
                    (idle_state(), Some(Ok(st.output)))
                } else {
                    (st, None)
                },
                Err(fault) => (idle_state(), Some(Err(marker_fault(fault, line)))),
            },
            None => (st, None),
        },
        LineKind::Notification => (st, None),
        LineKind::Output => if st.command_id is None {
            (st, None)
        } else {
            (ClientState { output: st.output.push(line), ..st }, None)
        },
    }
}

/// The reply of a query once the sentinel line and the end of the sentinel's
/// block were both seen; before that, none.
pub open spec fn query_settled(st: ClientState) -> (ClientState, Option<ReplyModel>) {
    if st.sentinel_seen && st.sentinel_end_seen {
        (
            idle_state(),
            Some(
                match st.failure {
                    Some(fault) => Err(fault),
                    None => Ok(st.output),
                },
            ),
        )
    } else {
        (st, None)
    }
}

pub open spec fn first_failure(seen: Option<Fault>, fault: Fault) -> Option<Fault> {
    match seen {
        Some(first) => Some(first),
        None => Some(fault),
    }
}

/// One line in an exchange of a command and the sentinel command. The lines
/// of output are gathered up to the sentinel: the sentinel itself and what
/// follows it belong to the sentinel command and are left out. A reported
/// failure is kept, the first one seen, and reading goes on to the end of
/// the sentinel's block. A marker that cannot be read ends the exchange at
/// once.
pub open spec fn query_step(st: ClientState, line: Seq<char>) -> (ClientState, Option<ReplyModel>) {
    match line_kind(line) {
        LineKind::Exit => (
            ClientState { failure: first_failure(st.failure, Fault::Exited), ..st },
            None,
        ),
        LineKind::Error => (
            ClientState { failure: first_failure(st.failure, Fault::Protocol(line)), ..st },
            None,
        ),
        LineKind::Begin => if st.command_id is None {
            match marker_id(line) {
                Ok(id) => (ClientState { command_id: Some(id), ..st }, None),
                Err(fault) => (idle_state(), Some(Err(marker_fault(fault, line)))),
            }
        } else if st.sentinel_id is None {
            match marker_id(line) {
                Ok(id) => (ClientState { sentinel_id: Some(id), ..st }, None),
                Err(fault) => (idle_state(), Some(Err(marker_fault(fault, line)))),
            }
        } else {
            (st, None)
        },
        LineKind::End => match st.sentinel_id {
            Some(expected) => match marker_id(line) {
                Ok(id) => if id == expected {
                    query_settled(ClientState { sentinel_end_seen: true, ..st })
                } else {
                    (st, None)
                },
                Err(fault) => (idle_state(), Some(Err(marker_fault(fault, line)))),
            },
            None => (st, None),
        },
        LineKind::Notification => (st, None),
        LineKind::Output => if line == st.sentinel {
            query_settled(ClientState { sentinel_seen: true, ..st })
        } else if st.sentinel_seen {
            (st, None)
        } else {
            (ClientState { output: st.output.push(line), ..st }, None)
        },
    }
}

/// What one line, without its line ending, does to a client: the state after
/// it, and the reply if the line completes the exchange.
pub open spec fn step(st: ClientState, line: Seq<char>) -> (ClientState, Option<ReplyModel>) {
    match st.exchange {
        Exchange::Idle => (st, None),
        Exchange::Command => command_step(st, line),
        Exchange::Query => query_step(st, line),
    }
}

/// The line that the sentinel command of a query prints.
pub open spec fn sentinel_text(nonce: u128) -> Seq<char> {
    "__TWIG_DONE__"@ + decimal(nonce as nat) + "__"@
}

/// What is written to the multiplexer for one command.
pub open spec fn command_wire(cmd: Seq<char>) -> Seq<char> {
    cmd.push('\n')
}

/// What is written to the multiplexer for a query: the command, then the
/// command that prints the sentinel.
pub open spec fn query_wire(cmd: Seq<char>, sentinel: Seq<char>) -> Seq<char> {
    cmd.push('\n') + "display-message -p "@ + quoted(sentinel) + seq!['\n']
}

/// The protocol side of one control-mode connection.
pub struct ControlClient {
    exchange: Exchange,
    command_id: Option<u64>,
    sentinel: Vec<char>,
    sentinel_id: Option<u64>,
    sentinel_seen: bool,
    sentinel_end_seen: bool,
    failure: Option<ControlError>,
    output: Vec<String>,
}

impl View for ControlClient {
    type V = ClientState;

    closed spec fn view(&self) -> ClientState {
        ClientState {
            exchange: self.exchange,
            command_id: self.command_id,
            sentinel: self.sentinel@,
            sentinel_id: self.sentinel_id,
            sentinel_seen: self.sentinel_seen,
            sentinel_end_seen: self.sentinel_end_seen,
            failure: match self.failure {
                Some(e) => Some(e@),
                None => None,
            },
            output: self.output.deep_view(),
        }
    }
}

impl ControlClient {
    /// A client with no command outstanding.
    pub fn new() -> (client: ControlClient)
        ensures
            client@ == idle_state(),
    {
        let client = ControlClient {
            exchange: Exchange::Idle,
            command_id: None,
            sentinel: Vec::new(),
            sentinel_id: None,
            sentinel_seen: false,
            sentinel_end_seen: false,
            failure: None,
            output: Vec::new(),
        };
        assert(client.output.deep_view() =~= Seq::<Seq<char>>::empty());
        client
    }

    pub fn phase(&self) -> (phase: Phase)
        ensures
            phase == phase_of(self@),
    {
        match self.exchange {
            Exchange::Idle => Phase::Idle,
            _ => if self.command_id.is_none() {
                Phase::AwaitingBegin
            } else {
                Phase::AwaitingEnd
            },
        }
    }

    pub fn is_idle(&self) -> (r: bool)
        ensures
            r == (self@.exchange == Exchange::Idle),
    {
        match self.exchange {
            Exchange::Idle => true,
            _ => false,
        }
    }

    fn reset(&mut self)
        ensures
            final(self)@ == idle_state(),
    {
        self.exchange = Exchange::Idle;
        self.command_id = None;
        self.sentinel = Vec::new();
        self.sentinel_id = None;
        self.sentinel_seen = false;
        self.sentinel_end_seen = false;
        self.failure = None;
        self.output = Vec::new();
        assert(self.output.deep_view() =~= Seq::<Seq<char>>::empty());
    }

    /// Starts the exchange of one command and gives the text to write. An
    /// exchange that was under way is given up.
    pub fn command(&mut self, cmd: &str) -> (wire: String)
        ensures
            final(self)@ == command_state(),
            wire@ == command_wire(cmd@),
    {
        self.reset();
        self.exchange = Exchange::Command;
        let mut wire = copy_text(cmd);
        wire.push('\n');
        wire
    }

    /// Starts the exchange of a query whose sentinel is made from `nonce`,
    /// and gives the text to write.
    pub fn command_with_nonce(&mut self, cmd: &str, nonce: u128) -> (wire: String)
        ensures
            final(self)@ == query_state(sentinel_text(nonce)),
            wire@ == query_wire(cmd@, sentinel_text(nonce)),
    {
        let mut sentinel = copy_text("__TWIG_DONE__");
        push_decimal(&mut sentinel, nonce);
        sentinel.append("__");
        self.reset();
        self.exchange = Exchange::Query;
        self.sentinel = to_chars(sentinel.as_str());
        let mut wire = copy_text(cmd);
        wire.push('\n');
        wire.append("display-message -p ");
        push_quoted(&mut wire, sentinel.as_str());
        wire.push('\n');
        assert(wire@ =~= query_wire(cmd@, sentinel_text(nonce)));
        wire
    }

    /// Starts the exchange of a query, with a sentinel made from the clock,
    /// and gives the text to write.
    pub fn command_with_output(&mut self, cmd: &str) -> (wire: String)
        ensures
            exists|nonce: u128|
                {
                    &&& final(self)@ == query_state(#[trigger] sentinel_text(nonce))
                    &&& wire@ == query_wire(cmd@, sentinel_text(nonce))
                },
    {
        let nonce = unique_nonce();
        self.command_with_nonce(cmd, nonce)
    }

    /// The output stream ended: the exchange under way, if any, is over.
    pub fn closed(&mut self) -> (e: ControlError)
        ensures
            final(self)@ == idle_state(),
            e@ == Fault::ConnectionClosed,
    {
        self.reset();
        ControlError::ConnectionClosed
    }

    fn take_output(&mut self) -> (lines: Vec<String>)
        ensures
            lines.deep_view() == old(self)@.output,
            final(self)@ == idle_state(),
    {
        let mut lines: Vec<String> = Vec::new();
        core::mem::swap(&mut lines, &mut self.output);
        self.reset();
        lines
    }

    fn fail_marker(&mut self, fault: MarkerFault, line: &Vec<char>) -> (r: Option<Reply>)
        ensures
            final(self)@ == idle_state(),
            progress_model(r) == Some::<ReplyModel>(Err(marker_fault(fault, line@))),
    {
        self.reset();
        Some(Err(marker_error(fault, line)))
    }

    fn gather(&mut self, line: &Vec<char>)
        ensures
            final(self)@ == (ClientState { output: old(self)@.output.push(line@), ..old(self)@ }),
    {
        let ghost before = self.output;
        let text = text_of(line);
        self.output.push(text);
        proof {
            lemma_deep_push(before, self.output, text);
        }
    }

    fn receive_command(&mut self, line: &Vec<char>) -> (r: Option<Reply>)
        requires
            old(self)@.exchange == Exchange::Command,
        ensures
            final(self)@ == command_step(old(self)@, line@).0,
            progress_model(r) == command_step(old(self)@, line@).1,
    {
        match classify(line) {
            LineKind::Exit => {
                self.reset();
                Some(Err(ControlError::Exited))
            },
            LineKind::Error => {
                self.reset();
                Some(Err(ControlError::Protocol(text_of(line))))
            },
            LineKind::Begin => {
                if self.command_id.is_none() {
                    match read_marker_id(line) {
                        Ok(id) => {
                            self.command_id = Some(id);
                            None
                        },
                        Err(fault) => self.fail_marker(fault, line),
                    }
                } else {
                    None
                }
            },
            LineKind::End => {
                match self.command_id {
                    Some(expected) => match read_marker_id(line) {
                        Ok(id) => {
                            if id == expected {
                                Some(Ok(self.take_output()))
                            } else {
                                None
                            }
                        },
                        Err(fault) => self.fail_marker(fault, line),
                    },
                    None => None,
                }
            },
            LineKind::Notification => None,
            LineKind::Output => {
                if self.command_id.is_some() {
                    self.gather(line);
                }
                None
            },
        }
    }

    fn settle(&mut self) -> (r: Option<Reply>)
        ensures
            final(self)@ == query_settled(old(self)@).0,
            progress_model(r) == query_settled(old(self)@).1,
    {
        if self.sentinel_seen && self.sentinel_end_seen {
            let failure = self.failure.take();
            let lines = self.take_output();
            match failure {
                Some(e) => Some(Err(e)),
                None => Some(Ok(lines)),
            }
        } else {
            None
        }
    }

    fn note_failure(&mut self, e: ControlError)
        ensures
            final(self)@ == (ClientState {
                failure: first_failure(old(self)@.failure, e@),
                ..old(self)@
            }),
    {
        if self.failure.is_none() {
            self.failure = Some(e);
        }
    }

    fn receive_query(&mut self, line: &Vec<char>) -> (r: Option<Reply>)
        requires
            old(self)@.exchange == Exchange::Query,
        ensures
            final(self)@ == query_step(old(self)@, line@).0,
            progress_model(r) == query_step(old(self)@, line@).1,
    {
        match classify(line) {
            LineKind::Exit => {
                self.note_failure(ControlError::Exited);
                None
            },
            LineKind::Error => {
                self.note_failure(ControlError::Protocol(text_of(line)));
                None
            },
            LineKind::Begin => {
                if self.command_id.is_none() {
                    match read_marker_id(line) {
                        Ok(id) => {
                            self.command_id = Some(id);
                            None
                        },
                        Err(fault) => self.fail_marker(fault, line),
                    }
                } else if self.sentinel_id.is_none() {
                    match read_marker_id(line) {
                        Ok(id) => {
                            self.sentinel_id = Some(id);
                            None
                        },
                        Err(fault) => self.fail_marker(fault, line),
                    }
                } else {
                    None
                }
            },
            LineKind::End => {
                match self.sentinel_id {
                    Some(expected) => match read_marker_id(line) {
                        Ok(id) => {
                            if id == expected {
                                self.sentinel_end_seen = true;
                                self.settle()
                            } else {
                                None
                            }
                        },
                        Err(fault) => self.fail_marker(fault, line),
                    },
                    None => None,
                }
            },
            LineKind::Notification => None,
            LineKind::Output => {
                if same_chars(line, &self.sentinel) {
                    self.sentinel_seen = true;
                    self.settle()
                } else {
                    if !self.sentinel_seen {
                        self.gather(line);
                    }
                    None
                }
            },
        }
    }

    /// Takes one line read from the connection, with or without its line
    /// ending, and gives the reply if the line completes the exchange.
    pub fn receive(&mut self, raw: &str) -> (r: Option<Reply>)
        ensures
            final(self)@ == step(old(self)@, without_line_ending(raw@)).0,
            progress_model(r) == step(old(self)@, without_line_ending(raw@)).1,
    {
        let mut line = to_chars(raw);
        let end = line_end(&line);
        line.truncate(end);
        assert(line@ =~= without_line_ending(raw@));
        match self.exchange {
            Exchange::Idle => None,
            Exchange::Command => self.receive_command(&line),
            Exchange::Query => self.receive_query(&line),
        }
    }
}

/// The nanoseconds since the Unix epoch by the system clock, read with
/// `std::time::SystemTime::now`; zero where the clock stands before the
/// epoch. Nothing is known of the value.
#[verifier::external_body]
pub(crate) fn unique_nonce() -> (nonce: u128) {
    std::time::SystemTime::now().duration_since(std::time::UNIX_EPOCH).unwrap_or_default().as_nanos()
}

/// What a client in state `st` makes of `lines`: the reply that the first
/// of them to complete the exchange gives, and the lines after that one.
pub open spec fn run(st: ClientState, lines: Seq<Seq<char>>) -> (
    Option<ReplyModel>,
    Seq<Seq<char>>,
)
    decreases lines.len(),
{
    if lines.len() == 0 {
        (None, lines)
    } else {
        let (next, reply) = step(st, lines[0]);
        if reply is Some {
            (reply, lines.skip(1))
        } else {
            run(next, lines.skip(1))
        }
    }
}

/// The replies to `n` commands sent one after the other, each when the
/// reply to the one before it is complete, on a connection that delivers
/// `lines`. Where the lines end before a reply is complete, that command
/// fails with `ConnectionClosed` and no further one is sent.
pub open spec fn replies(lines: Seq<Seq<char>>, n: nat) -> Seq<ReplyModel>
    decreases n,
{
    if n == 0 {
        Seq::empty()
    } else {
        match run(command_state(), lines) {
            (Some(reply), rest) => seq![reply] + replies(rest, (n - 1) as nat),
            (None, _) => seq![Err(Fault::ConnectionClosed)],
        }
    }
}

/// `lines` without the notifications among them.
pub open spec fn without_notifications(lines: Seq<Seq<char>>) -> Seq<Seq<char>>
    decreases lines.len(),
{
    if lines.len() == 0 {
        Seq::empty()
    } else if line_kind(lines[0]) == LineKind::Notification {
        without_notifications(lines.skip(1))
    } else {
        seq![lines[0]] + without_notifications(lines.skip(1))
    }
}

/// One response block as it arrives: the begin marker, the lines of output,
/// and the end marker, which reports success or failure.
pub struct Block {
    pub begin: Seq<char>,
    pub body: Seq<Seq<char>>,
    pub end: Seq<char>,
    pub failed: bool,
}

/// The block's markers can be read, the end marker of a success carries the
/// id of the begin marker, and the body holds output only.
pub open spec fn well_framed(block: Block) -> bool {
    &&& line_kind(block.begin) == LineKind::Begin
    &&& marker_id(block.begin) is Ok
    &&& forall|i: int|
        0 <= i < block.body.len() ==> line_kind(#[trigger] block.body[i]) == LineKind::Output
    &&& if block.failed {
        line_kind(block.end) == LineKind::Error
    } else {
        line_kind(block.end) == LineKind::End && marker_id(block.end) == marker_id(block.begin)
    }
}

pub open spec fn block_lines(block: Block) -> Seq<Seq<char>> {
    seq![block.begin] + block.body + seq![block.end]
}

/// The reply that a block carries.
pub open spec fn block_reply(block: Block) -> ReplyModel {
    if block.failed {
        Err(Fault::Protocol(block.end))
    } else {
        Ok(block.body)
    }
}

/// The lines of the blocks, one block after the other.
pub open spec fn stream(blocks: Seq<Block>) -> Seq<Seq<char>>
    decreases blocks.len(),
{
    if blocks.len() == 0 {
        Seq::empty()
    } else {
        block_lines(blocks[0]) + stream(blocks.skip(1))
    }
}

/// Notifications change neither the reply nor what is left of the other
/// lines after it.
pub proof fn lemma_run_ignores_notifications(st: ClientState, lines: Seq<Seq<char>>)
    ensures
        run(st, without_notifications(lines)).0 == run(st, lines).0,
        run(st, without_notifications(lines)).1 == without_notifications(run(st, lines).1),
    decreases lines.len(),
{
    if lines.len() > 0 {
        let tail = lines.skip(1);
        if line_kind(lines[0]) == LineKind::Notification {
            lemma_run_ignores_notifications(st, tail);
        } else {
            let kept = without_notifications(lines);
            assert(kept[0] == lines[0]);
            assert(kept.skip(1) =~= without_notifications(tail));
            let (next, reply) = step(st, lines[0]);
            if reply is None {
                lemma_run_ignores_notifications(next, tail);
            }
        }
    }
}

/// The replies to any number of commands are the same with and without the
/// notifications that come between the other lines.
pub proof fn lemma_replies_ignore_notifications(lines: Seq<Seq<char>>, n: nat)
    ensures
        replies(lines, n) == replies(without_notifications(lines), n),
    decreases n,
{
    if n > 0 {
        lemma_run_ignores_notifications(command_state(), lines);
        let (reply, rest) = run(command_state(), lines);
        if reply is Some {
            lemma_replies_ignore_notifications(rest, (n - 1) as nat);
        }
    }
}

proof fn lemma_run_body(st: ClientState, block: Block, from: int, rest: Seq<Seq<char>>)
    requires
        well_framed(block),
        0 <= from <= block.body.len(),
        st.exchange == Exchange::Command,
        st.command_id == Some(marker_id(block.begin)->Ok_0),
        st.output == block.body.take(from),
    ensures
        run(st, block.body.skip(from) + seq![block.end] + rest) == (
            Some(block_reply(block)),
            rest,
        ),
    decreases block.body.len() - from,
{
    let lines = block.body.skip(from) + seq![block.end] + rest;
    if from == block.body.len() {
        assert(lines[0] == block.end);
        assert(lines.skip(1) =~= rest);
        assert(block.body.take(from) =~= block.body);
    } else {
        assert(lines[0] == block.body[from]);
        let next = ClientState { output: st.output.push(block.body[from]), ..st };
        assert(next.output =~= block.body.take(from + 1));
        assert(lines.skip(1) =~= block.body.skip(from + 1) + seq![block.end] + rest);
        lemma_run_body(next, block, from + 1, rest);
    }
}

/// A command whose response block arrives next gets the reply that the
/// block carries, and the lines after the block are left.
pub proof fn lemma_run_block(block: Block, rest: Seq<Seq<char>>)
    requires
        well_framed(block),
    ensures
        run(command_state(), block_lines(block) + rest) == (Some(block_reply(block)), rest),
{
    let lines = block_lines(block) + rest;
    assert(lines[0] == block.begin);
    let next = ClientState { command_id: Some(marker_id(block.begin)->Ok_0), ..command_state() };
    assert(next.output =~= block.body.take(0));
    assert(lines.skip(1) =~= block.body.skip(0) + seq![block.end] + rest);
    lemma_run_body(next, block, 0, rest);
}

/// The reply to the i-th command is the one that the i-th block carries.
pub proof fn lemma_replies_in_order(blocks: Seq<Block>, rest: Seq<Seq<char>>)
    requires
        forall|i: int| 0 <= i < blocks.len() ==> well_framed(#[trigger] blocks[i]),
    ensures
        replies(stream(blocks) + rest, blocks.len()) == blocks.map_values(
            |block: Block| block_reply(block),
        ),
    decreases blocks.len(),
{
    let expected = blocks.map_values(|block: Block| block_reply(block));
    if blocks.len() == 0 {
        assert(replies(stream(blocks) + rest, 0) =~= expected);
    } else {
        let tail = blocks.skip(1);
        let after = stream(tail) + rest;
        assert(stream(blocks) + rest =~= block_lines(blocks[0]) + after);
        lemma_run_block(blocks[0], after);
        lemma_replies_in_order(tail, rest);
        assert(seq![block_reply(blocks[0])] + tail.map_values(|block: Block| block_reply(block))
            =~= expected);
    }
}

/// Commands sent one after the other on one connection get the replies of
/// the response blocks in the order in which the blocks arrive, however many
/// notifications stand between the lines of the blocks.
pub proof fn lemma_replies_match_send_order(lines: Seq<Seq<char>>, blocks: Seq<Block>)
    requires
        forall|i: int| 0 <= i < blocks.len() ==> well_framed(#[trigger] blocks[i]),
        without_notifications(lines) == stream(blocks),
    ensures
        replies(lines, blocks.len()) == blocks.map_values(|block: Block| block_reply(block)),
{
    lemma_replies_ignore_notifications(lines, blocks.len());
    lemma_replies_in_order(blocks, Seq::empty());
    assert(stream(blocks) + Seq::<Seq<char>>::empty() =~= stream(blocks));
}

/// No line gathered so far is the sentinel.
pub open spec fn sentinel_free(st: ClientState) -> bool {
    forall|i: int| 0 <= i < st.output.len() ==> #[trigger] st.output[i] != st.sentinel
}

proof fn lemma_run_query_sentinel_free(st: ClientState, lines: Seq<Seq<char>>)
    requires
        st.exchange == Exchange::Query,
        sentinel_free(st),
    ensures
        match run(st, lines).0 {
            Some(Ok(output)) => forall|i: int|
                0 <= i < output.len() ==> #[trigger] output[i] != st.sentinel,
            _ => true,
        },
    decreases lines.len(),
{
    if lines.len() > 0 {
        let (next, reply) = step(st, lines[0]);
        if reply is None {
            assert(next.sentinel == st.sentinel);
            assert(next.exchange == Exchange::Query);
            assert(sentinel_free(next)) by {
                assert forall|i: int| 0 <= i < next.output.len() implies #[trigger] next.output[i]
                    != next.sentinel by {
                    if i < st.output.len() {
                        assert(next.output[i] == st.output[i]);
                    }
                }
            }
            lemma_run_query_sentinel_free(next, lines.skip(1));
        }
    }
}

/// The reply to a query never holds the sentinel line, whatever lines
/// arrive.
pub proof fn lemma_query_reply_without_sentinel(sentinel: Seq<char>, lines: Seq<Seq<char>>)
    ensures
        match run(query_state(sentinel), lines).0 {
            Some(Ok(output)) => forall|i: int|
                0 <= i < output.len() ==> #[trigger] output[i] != sentinel,
            _ => true,
        },
{
    lemma_run_query_sentinel_free(query_state(sentinel), lines);
}

proof fn lemma_run_query_body(
    st: ClientState,
    primary: Block,
    from: int,
    closing: Block,
    rest: Seq<Seq<char>>,
)
    requires
        well_framed(primary),
        !primary.failed,
        well_framed(closing),
        !closing.failed,
        closing.body == seq![st.sentinel],
        forall|i: int| 0 <= i < primary.body.len() ==> #[trigger] primary.body[i] != st.sentinel,
        0 <= from <= primary.body.len(),
        st == (ClientState {
            command_id: Some(marker_id(primary.begin)->Ok_0),
            output: primary.body.take(from),
            ..query_state(st.sentinel)
        }),
    ensures
        run(st, primary.body.skip(from) + seq![primary.end] + block_lines(closing) + rest) == (
            Some(Ok::<Seq<Seq<char>>, Fault>(primary.body)),
            rest,
        ),
    decreases primary.body.len() - from,
{
    let lines = primary.body.skip(from) + seq![primary.end] + block_lines(closing) + rest;
    if from == primary.body.len() {
        assert(primary.body.take(from) =~= primary.body);
        assert(lines[0] == primary.end);
        let l1 = lines.skip(1);
        assert(l1 =~= block_lines(closing) + rest);
        assert(l1[0] == closing.begin);
        let s2 = ClientState { sentinel_id: Some(marker_id(closing.begin)->Ok_0), ..st };
        let l2 = l1.skip(1);
        assert(l2 =~= closing.body + seq![closing.end] + rest);
        assert(l2[0] == st.sentinel);
        assert(closing.body[0] == st.sentinel);
        let s3 = ClientState { sentinel_seen: true, ..s2 };
        let l3 = l2.skip(1);
        assert(l3 =~= seq![closing.end] + rest);
        assert(l3[0] == closing.end);
        assert(l3.skip(1) =~= rest);
        assert(step(st, lines[0]) == (st, None::<ReplyModel>));
        assert(step(st, l1[0]) == (s2, None::<ReplyModel>));
        assert(step(s2, l2[0]) == (s3, None::<ReplyModel>));
        assert(step(s3, l3[0]).1 == Some(Ok::<Seq<Seq<char>>, Fault>(primary.body)));
        assert(run(s3, l3) == (Some(Ok::<Seq<Seq<char>>, Fault>(primary.body)), rest));
        assert(run(s2, l2) == run(s3, l3));
        assert(run(st, l1) == run(s2, l2));
    } else {
        assert(lines[0] == primary.body[from]);
        let next = ClientState { output: st.output.push(primary.body[from]), ..st };
        assert(next.output =~= primary.body.take(from + 1));
        assert(lines.skip(1) =~= primary.body.skip(from + 1) + seq![primary.end] + block_lines(
            closing,
        ) + rest);
        lemma_run_query_body(next, primary, from + 1, closing, rest);
    }
}

/// A query whose command succeeds gets the command's output, all of it and
/// nothing else: the block of the sentinel command, which follows, ends the
/// reply and adds nothing to it. Where the command prints nothing, the reply
/// is the empty list.
pub proof fn lemma_query_reply(
    sentinel: Seq<char>,
    primary: Block,
    closing: Block,
    rest: Seq<Seq<char>>,
)
    requires
        well_framed(primary),
        !primary.failed,
        well_framed(closing),
        !closing.failed,
        closing.body == seq![sentinel],
        forall|i: int| 0 <= i < primary.body.len() ==> #[trigger] primary.body[i] != sentinel,
    ensures
        run(query_state(sentinel), block_lines(primary) + block_lines(closing) + rest) == (
            Some(Ok::<Seq<Seq<char>>, Fault>(primary.body)),
            rest,
        ),
{
    let lines = block_lines(primary) + block_lines(closing) + rest;
    assert(lines[0] == primary.begin);
    let next = ClientState {
        command_id: Some(marker_id(primary.begin)->Ok_0),
        ..query_state(sentinel)
    };
    assert(next.output =~= primary.body.take(0));
    assert(lines.skip(1) =~= primary.body.skip(0) + seq![primary.end] + block_lines(closing)
        + rest);
    lemma_run_query_body(next, primary, 0, closing, rest);
}

/// Once the sentinel was seen, the reply of a query is settled: whatever
/// lines follow, none of them is added to it.
pub proof fn lemma_nothing_gathered_after_sentinel(st: ClientState, lines: Seq<Seq<char>>)
    requires
        st.exchange == Exchange::Query,
        st.sentinel_seen,
    ensures
        match run(st, lines).0 {
            Some(Ok(output)) => output == st.output,
            _ => true,
        },
    decreases lines.len(),
{
    if lines.len() > 0 {
        let (next, reply) = step(st, lines[0]);
        if reply is None {
            assert(next.output == st.output);
            lemma_nothing_gathered_after_sentinel(next, lines.skip(1));
        }
    }
}

/// A query whose command prints nothing gets the empty list, and no failure.
pub proof fn lemma_query_reply_empty(
    sentinel: Seq<char>,
    primary: Block,
    closing: Block,
    rest: Seq<Seq<char>>,
)
    requires
        well_framed(primary),
        !primary.failed,
        primary.body.len() == 0,
        well_framed(closing),
        !closing.failed,
        closing.body == seq![sentinel],
    ensures
        run(query_state(sentinel), block_lines(primary) + block_lines(closing) + rest) == (
            Some(Ok::<Seq<Seq<char>>, Fault>(Seq::empty())),
            rest,
        ),
{
    lemma_query_reply(sentinel, primary, closing, rest);
    assert(primary.body =~= Seq::<Seq<char>>::empty());
}

/// The sentinel of a query is a line of output: it starts with no `%`.
pub proof fn lemma_sentinel_is_output(nonce: u128)
    ensures
        line_kind(sentinel_text(nonce)) == LineKind::Output,
{
    reveal_strlit("__TWIG_DONE__");
    reveal_strlit("%exit");
    reveal_strlit("%error");
    reveal_strlit("%begin");
    reveal_strlit("%end");
    let line = sentinel_text(nonce);
    assert(line[0] == '_');
    assert("%exit"@[0] == '%');
    assert("%error"@[0] == '%');
    assert("%begin"@[0] == '%');
    assert("%end"@[0] == '%');
}

/// What an escaped text stands for: each backslash is dropped and the
/// character after it is kept as it is.
pub open spec fn unescaped(t: Seq<char>) -> Seq<char>
    decreases t.len(),
{
    if t.len() == 0 {
        Seq::empty()
    } else if t[0] == '\\' && t.len() >= 2 {
        seq![t[1]] + unescaped(t.skip(2))
    } else {
        seq![t[0]] + unescaped(t.skip(1))
    }
}

proof fn lemma_escaped_add(a: Seq<char>, b: Seq<char>)
    ensures
        escaped(a + b) == escaped(a) + escaped(b),
    decreases b.len(),
{
    if b.len() == 0 {
        assert(a + b =~= a);
        assert(escaped(a) + escaped(b) =~= escaped(a));
    } else {
        assert((a + b).drop_last() =~= a + b.drop_last());
        lemma_escaped_add(a, b.drop_last());
        assert(escaped(a + b) =~= escaped(a) + escaped(b));
    }
}

/// Escaping loses nothing: what the escaped text stands for is the text.
pub proof fn lemma_unescaped_escaped(s: Seq<char>)
    ensures
        unescaped(escaped(s)) == s,
    decreases s.len(),
{
    if s.len() > 0 {
        let head = seq![s[0]];
        let tail = s.skip(1);
        assert(s =~= head + tail);
        lemma_escaped_add(head, tail);
        lemma_unescaped_escaped(tail);
        assert(head.drop_last() =~= Seq::<char>::empty());
        assert(escaped(head.drop_last()) =~= Seq::<char>::empty());
        let whole = escaped(head) + escaped(tail);
        if s[0] == '\\' || s[0] == '"' {
            assert(escaped(head) =~= seq!['\\', s[0]]);
            assert(whole.skip(2) =~= escaped(tail));
            assert(whole[0] == '\\' && whole[1] == s[0]);
        } else {
            assert(escaped(head) =~= seq![s[0]]);
            assert(whole.skip(1) =~= escaped(tail));
            assert(whole[0] == s[0]);
        }
        assert(unescaped(whole) =~= s);
    } else {
        assert(escaped(s) =~= Seq::<char>::empty());
    }
}

/// Two arguments that are quoted alike are the same argument: whatever an
/// argument holds, spaces and quotes and backslashes too, its quoted form
/// stands for it and for nothing else.
pub proof fn lemma_quoted_injective(a: Seq<char>, b: Seq<char>)
    requires
        quoted(a) == quoted(b),
    ensures
        a == b,
{
    assert(escaped(a) =~= quoted(a).subrange(1, quoted(a).len() - 1));
    assert(escaped(b) =~= quoted(b).subrange(1, quoted(b).len() - 1));
    lemma_unescaped_escaped(a);
    lemma_unescaped_escaped(b);
}

} // verus!
