//! Telemetry gathered while commands are built and run: how each command was
//! understood, what was not understood, and how many `explain` requests are pending.
use vstd::prelude::*;

verus! {

/// A command that needed a grammar for a file extension that has none.
#[derive(Debug, Clone, PartialEq, Eq)]
pub struct NoGrammarNotification {
    /// File extension that had no grammar support.
    pub extension: String,
    /// Command source that triggered the lookup.
    pub source: String,
    /// Original command payload.
    pub payload: String,
    /// Flags from the command.
    pub flags: String,
}

/// Telemetry event variants captured during command handling.
#[derive(Debug, Clone, PartialEq, Eq)]
pub enum TelemetryEvent {
    /// A command that could not be understood.
    NoopNotification {
        /// Original payload text.
        payload: String,
        /// Exact received command text.
        received: String,
        /// Reason the command was treated as no-op.
        cause: String,
    },
    /// An explain command request.
    ExplainNotification {
        /// Command source.
        source: String,
        /// Original command payload.
        payload: String,
    },
    /// A recognized generic command.
    GenericCommandNotification {
        /// Command name.
        name: String,
        /// Original command payload.
        arg: String,
        /// Description of the qualifier.
        qualifier: String,
        /// Description of the searcher.
        searcher: String,
        /// Unrecognized part of the flags.
        unrecognized: String,
    },
    /// A no-grammar notification.
    NoGrammarNotification(NoGrammarNotification),
    /// How a declarations command was understood.
    DeclarationsNotification {
        /// Original command payload.
        arg: String,
        /// Extracted declarations pattern.
        pattern: String,
        /// Flags from the command.
        flags: String,
        /// File extension used for grammar lookup.
        extension: String,
        /// Description of the qualifier.
        qualifier: String,
        /// Description of the searcher.
        searcher: String,
        /// Unrecognized part of the flags.
        unrecognized: String,
    },
}

/// The value of a `NoGrammarNotification`: its four texts.
pub open spec fn no_grammar_view(n: NoGrammarNotification) -> (Seq<char>, Seq<char>, Seq<char>, Seq<char>) {
    (n.extension@, n.source@, n.payload@, n.flags@)
}

/// The value of a telemetry event: its variant and its texts, in field order.
pub open spec fn event_view(e: TelemetryEvent) -> (int, Seq<Seq<char>>) {
    match e {
        TelemetryEvent::NoopNotification { payload, received, cause } => (0, seq![payload@, received@, cause@]),
        TelemetryEvent::ExplainNotification { source, payload } => (1, seq![source@, payload@]),
        TelemetryEvent::GenericCommandNotification { name, arg, qualifier, searcher, unrecognized } => (
            2,
            seq![name@, arg@, qualifier@, searcher@, unrecognized@],
        ),
        TelemetryEvent::NoGrammarNotification(n) => (
            3,
            seq![n.extension@, n.source@, n.payload@, n.flags@],
        ),
        TelemetryEvent::DeclarationsNotification {
            arg,
            pattern,
            flags,
            extension,
            qualifier,
            searcher,
            unrecognized,
        } => (4, seq![arg@, pattern@, flags@, extension@, qualifier@, searcher@, unrecognized@]),
    }
}

impl NoGrammarNotification {
    /// A copy of this notification.
    pub fn duplicate(&self) -> (r: Self)
        ensures
            no_grammar_view(r) == no_grammar_view(*self),
    {
        NoGrammarNotification {
            extension: self.extension.clone(),
            source: self.source.clone(),
            payload: self.payload.clone(),
            flags: self.flags.clone(),
        }
    }
}

impl TelemetryEvent {
    /// A copy of this event.
    pub fn duplicate(&self) -> (r: Self)
        ensures
            event_view(r) == event_view(*self),
    {
        match self {
            TelemetryEvent::NoopNotification { payload, received, cause } => {
                TelemetryEvent::NoopNotification {
                    payload: payload.clone(),
                    received: received.clone(),
                    cause: cause.clone(),
                }
            },
            TelemetryEvent::ExplainNotification { source, payload } => {
                TelemetryEvent::ExplainNotification { source: source.clone(), payload: payload.clone() }
            },
            TelemetryEvent::GenericCommandNotification { name, arg, qualifier, searcher, unrecognized } => {
                TelemetryEvent::GenericCommandNotification {
                    name: name.clone(),
                    arg: arg.clone(),
                    qualifier: qualifier.clone(),
                    searcher: searcher.clone(),
                    unrecognized: unrecognized.clone(),
                }
            },
            TelemetryEvent::NoGrammarNotification(n) => {
                let d = n.duplicate();
                TelemetryEvent::NoGrammarNotification(d)
            },
            TelemetryEvent::DeclarationsNotification {
                arg,
                pattern,
                flags,
                extension,
                qualifier,
                searcher,
                unrecognized,
            } => TelemetryEvent::DeclarationsNotification {
                arg: arg.clone(),
                pattern: pattern.clone(),
                flags: flags.clone(),
                extension: extension.clone(),
                qualifier: qualifier.clone(),
                searcher: searcher.clone(),
                unrecognized: unrecognized.clone(),
            },
        }
    }
}

/// Telemetry state of a run.
#[derive(Debug, Clone)]
pub struct AppTelemetryState {
    /// Collected telemetry events, oldest first.
    pub events: Vec<TelemetryEvent>,
    /// Count of explain requests since the last drain.
    pub explain_requests: usize,
}

impl Default for AppTelemetryState {
    fn default() -> (r: Self)
        ensures
            r.events@.len() == 0,
            r.explain_requests == 0,
    {
        AppTelemetryState { events: Vec::new(), explain_requests: 0 }
    }
}

/// Records how a command was built.
pub fn append_telemetry(state: &mut AppTelemetryState, event: TelemetryEvent)
    ensures
        final(state).events@ == old(state).events@.push(event),
        final(state).explain_requests == old(state).explain_requests,
{
    state.events.push(event);
}

/// The events collected so far, oldest first.
pub fn telemetry_events(state: &AppTelemetryState) -> (r: Vec<TelemetryEvent>)
    ensures
        r@.len() == state.events@.len(),
        forall|i: int| 0 <= i < r@.len() ==> event_view(#[trigger] r@[i]) == event_view(state.events@[i]),
{
    let mut out: Vec<TelemetryEvent> = Vec::new();
    let mut i: usize = 0;
    while i < state.events.len()
        invariant
            i <= state.events@.len(),
            out@.len() == i,
            forall|j: int| 0 <= j < i ==> event_view(#[trigger] out@[j]) == event_view(state.events@[j]),
        decreases state.events.len() - i,
    {
        out.push(state.events[i].duplicate());
        i = i + 1;
    }
    out
}

/// Clears the collected events and the explain request count.
pub fn clear_telemetry(state: &mut AppTelemetryState)
    ensures
        final(state).events@.len() == 0,
        final(state).explain_requests == 0,
{
    state.events.clear();
    state.explain_requests = 0;
}

/// Counts one more pending explain request (saturating at `usize::MAX`).
pub fn request_explain(state: &mut AppTelemetryState)
    ensures
        final(state).explain_requests == if old(state).explain_requests < usize::MAX {
            old(state).explain_requests + 1
        } else {
            usize::MAX as int
        },
        final(state).events@ == old(state).events@,
{
    if state.explain_requests < usize::MAX {
        state.explain_requests = state.explain_requests + 1;
    }
}

/// Returns the pending explain request count and resets it.
pub fn take_explain_requests(state: &mut AppTelemetryState) -> (count: usize)
    ensures
        count == old(state).explain_requests,
        final(state).explain_requests == 0,
        final(state).events@ == old(state).events@,
{
    let count = state.explain_requests;
    state.explain_requests = 0;
    count
}

} // verus!
