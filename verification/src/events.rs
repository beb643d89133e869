//! Per-line metadata, the domain events extracted from a log stream, and
//! the adapter that wires the dispatch engine to the poe log's own filter
//! and rules.

use crate::error::EventError;
use crate::filter::LineFilter;
use crate::manager::{EventAction, EventManager};
use crate::pattern::pattern_ok;
use crate::poll::{assemble, lines_view, StringLinePoll};
use vstd::prelude::*;

verus! {

/// Generic info about a log line, filled in by the filter chain and attached
/// by value to every event emitted from that line.
#[derive(Clone, Copy, Debug)]
pub struct PoeLogLineInfo {
    /// The tick counter parsed from the line's timestamp prefix; zero when the
    /// line carried no such prefix.
    pub time: u64,
}

impl Default for PoeLogLineInfo {
    /// The metadata a line starts with before any filter has run.
    fn default() -> (r: Self)
        ensures
            r.time == 0,
    {
        PoeLogLineInfo { time: 0 }
    }
}

/// A poe event, extracted from one matched log line.
#[derive(Debug)]
pub enum PoeEvent {
    /// The client started connecting to the instance server at this address.
    ConnectingToInstance(String),
    /// The player entered this area.
    JoinedArea(String),
}

/// The mathematical shape of a `PoeEvent`: the same tag over the text's view.
pub enum PoeEventView {
    ConnectingToInstance(Seq<char>),
    JoinedArea(Seq<char>),
}

impl View for PoeEvent {
    type V = PoeEventView;

    open spec fn view(&self) -> PoeEventView {
        match self {
            PoeEvent::ConnectingToInstance(s) => PoeEventView::ConnectingToInstance(s@),
            PoeEvent::JoinedArea(s) => PoeEventView::JoinedArea(s@),
        }
    }
}

/// The pattern of the joined-area rule.
pub open spec fn joined_area_pattern() -> Seq<char> {
    "^: You have entered (?P<location>.*)\\.$"@
}

/// The pattern of the connecting-to-instance rule.
pub open spec fn connecting_pattern() -> Seq<char> {
    "^Connecting to instance server at (?P<ip>.*)$"@
}

/// Declares `std::sync::mpsc::Sender`, the producing end of the unbounded
/// event channel, as an opaque value.
#[verifier::external_type_specification]
#[verifier::external_body]
#[verifier::reject_recursive_types(T)]
pub struct ExSender<T>(std::sync::mpsc::Sender<T>);

/// Relies on `std::sync::mpsc::Sender::send`: it delivers to the unbounded
/// channel without blocking, and fails only when the receiving end has
/// disconnected.
#[verifier::external_body]
fn send_pair(
    sender: &std::sync::mpsc::Sender<(PoeEvent, PoeLogLineInfo)>,
    event: PoeEvent,
    info: PoeLogLineInfo,
) -> (r: Result<(), EventError>)
    ensures
        r is Err ==> r->Err_0 is Sink,
{
    match sender.send((event, info)) {
        Ok(()) => Ok(()),
        Err(_) => Err(EventError::Sink),
    }
}

/// Wrapper around `EventManager` that gives back poe specific events on a
/// channel: one metadata filter, and one rule per domain event.
pub struct PoeEvents<T> {
    event_manager: EventManager,
    line_poll: StringLinePoll<T>,
    sender: std::sync::mpsc::Sender<(PoeEvent, PoeLogLineInfo)>,
}

impl<T> PoeEvents<T> {
    /// The registered filter chain, in order.
    pub closed spec fn filters_view(self) -> Seq<LineFilter> {
        self.event_manager.filters_view()
    }

    /// The registered rules, in order.
    pub closed spec fn rules_view(self) -> Seq<(Seq<char>, EventAction)> {
        self.event_manager.rules_view()
    }

    /// The configured delay between empty polls, in milliseconds.
    pub closed spec fn delay(self) -> u64 {
        self.line_poll.delay()
    }

    /// The unterminated line fragment held back by the line poller.
    pub closed spec fn buffered(self) -> Seq<char> {
        self.line_poll.buffered()
    }

    /// Create a new `PoeEvents` struct.
    /// This should be created in the same thread that it will run on.
    ///
    /// `string_poll` A line poller over the appended log stream
    /// `sender` A send channel. The receiver end will get back the events
    pub fn new(
        string_poll: StringLinePoll<T>,
        sender: std::sync::mpsc::Sender<(PoeEvent, PoeLogLineInfo)>,
    ) -> (r: Self)
        ensures
            r.filters_view() == Seq::<LineFilter>::empty(),
            r.rules_view() == Seq::<(Seq<char>, EventAction)>::empty(),
            r.delay() == string_poll.delay(),
            r.buffered() == string_poll.buffered(),
    {
        PoeEvents { event_manager: EventManager::new(), line_poll: string_poll, sender }
    }

    /// The configured delay between empty polls, for the driving loop.
    pub fn wait_delay(&self) -> (r: u64)
        ensures
            r == self.delay(),
    {
        self.line_poll.wait_delay()
    }

    /// Register all poe specific events: the timestamp metadata filter, then
    /// the joined-area rule and the connecting-to-instance rule. A pattern
    /// that does not compile fails here, before any line is processed, and
    /// leaves every earlier registration in place.
    pub fn register_poe_events(&mut self) -> (r: Result<(), EventError>)
        ensures
            final(self).filters_view() == old(self).filters_view().push(
                LineFilter::TimestampPrefix,
            ),
            final(self).delay() == old(self).delay(),
            final(self).buffered() == old(self).buffered(),
            r is Ok <==> pattern_ok(joined_area_pattern()) && pattern_ok(connecting_pattern()),
            r is Err ==> r->Err_0 is Pattern,
            r is Ok ==> final(self).rules_view() == old(self).rules_view().push(
                (joined_area_pattern(), EventAction::JoinedArea),
            ).push((connecting_pattern(), EventAction::ConnectingToInstance)),
            !pattern_ok(joined_area_pattern())
                ==> final(self).rules_view() == old(self).rules_view(),
            pattern_ok(joined_area_pattern()) && !pattern_ok(connecting_pattern())
                ==> final(self).rules_view() == old(self).rules_view().push(
                (joined_area_pattern(), EventAction::JoinedArea),
            ),
    {
        self.event_manager.register_filter(LineFilter::TimestampPrefix);
        match self.event_manager.register_event(
            "^: You have entered (?P<location>.*)\\.$",
            EventAction::JoinedArea,
        ) {
            Ok(()) => {
            },
            Err(e) => {
                return Err(e);
            },
        }
        match self.event_manager.register_event(
            "^Connecting to instance server at (?P<ip>.*)$",
            EventAction::ConnectingToInstance,
        ) {
            Ok(()) => {
            },
            Err(e) => {
                return Err(e);
            },
        }
        Ok(())
    }
}

impl<T: std::io::Read> PoeEvents<T> {
    /// One engine step: poll for newly completed lines and, for each one in
    /// arrival order, run the filter chain and fire every matching rule,
    /// sending each emitted event with its own metadata copy. Returns how
    /// many lines were processed; zero means nothing new arrived and the
    /// caller should wait `wait_delay()` milliseconds before stepping again.
    pub fn poll_step(&mut self) -> (r: Result<usize, EventError>)
        ensures
            final(self).filters_view() == old(self).filters_view(),
            final(self).rules_view() == old(self).rules_view(),
            final(self).delay() == old(self).delay(),
            r is Ok ==> exists|cs: Seq<char>|
                {
                    &&& r->Ok_0 == assemble(Seq::empty(), old(self).buffered(), cs).0.len()
                    &&& final(self).buffered() == assemble(Seq::empty(), old(self).buffered(), cs).1
                },
            r is Err ==> r->Err_0 is Io || r->Err_0 is Decode || r->Err_0 is Sink,
    {
        let lines = match self.line_poll.poll_once() {
            Ok(lines) => lines,
            Err(e) => {
                return Err(e);
            },
        };
        proof {
            assert(old(self).buffered() == old(self).line_poll.buffered());
            let cs = choose|cs: Seq<char>|
                {
                    &&& lines_view(lines@) == assemble(
                        Seq::empty(),
                        old(self).line_poll.buffered(),
                        cs,
                    ).0
                    &&& self.line_poll.buffered() == assemble(
                        Seq::empty(),
                        old(self).line_poll.buffered(),
                        cs,
                    ).1
                };
            assert(lines_view(lines@) == assemble(Seq::empty(), old(self).buffered(), cs).0);
            assert(self.line_poll.buffered() == assemble(Seq::empty(), old(self).buffered(), cs).1);
        }
        let n = lines.len();
        let mut i: usize = 0;
        while i < n
            invariant
                0 <= i <= n == lines@.len(),
                self.event_manager == old(self).event_manager,
                self.line_poll.delay() == old(self).delay(),
                exists|cs: Seq<char>|
                    {
                        &&& lines_view(lines@) == assemble(
                            Seq::empty(),
                            old(self).buffered(),
                            cs,
                        ).0
                        &&& self.line_poll.buffered() == assemble(
                            Seq::empty(),
                            old(self).buffered(),
                            cs,
                        ).1
                    },
            decreases n - i,
        {
            let mut ems = self.event_manager.process_line(lines[i].as_str());
            while ems.len() > 0
                invariant
                    self.event_manager == old(self).event_manager,
                    self.line_poll.delay() == old(self).delay(),
                decreases ems@.len(),
            {
                let (event, info) = ems.remove(0);
                match send_pair(&self.sender, event, info) {
                    Ok(()) => {
                    },
                    Err(e) => {
                        return Err(e);
                    },
                }
            }
            i = i + 1;
        }
        proof {
            let cs = choose|cs: Seq<char>|
                {
                    &&& lines_view(lines@) == assemble(
                        Seq::empty(),
                        old(self).buffered(),
                        cs,
                    ).0
                    &&& self.line_poll.buffered() == assemble(
                        Seq::empty(),
                        old(self).buffered(),
                        cs,
                    ).1
                };
            assert(lines_view(lines@).len() == lines@.len());
            assert(n == assemble(Seq::empty(), old(self).buffered(), cs).0.len());
        }
        Ok(n)
    }
}

} // verus!
