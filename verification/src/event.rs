//! The events that the bridge delivers to its collaborator.

use vstd::prelude::*;

verus! {

/// Which of the worker's two output streams a line was read from.
#[derive(Clone, Copy, Debug, PartialEq, Eq, Structural)]
pub enum Origin {
    /// The worker's error stream: status and log text.
    Diagnostic,
    /// The worker's standard output: result lines.
    Payload,
}

/// One line of worker output, tagged by the stream it came from.
#[derive(Debug, PartialEq, Eq)]
pub struct OutputEvent {
    pub origin: Origin,
    pub line: String,
}

/// The mathematical value of an [`OutputEvent`].
pub ghost struct OutputEventView {
    pub origin: Origin,
    pub line: Seq<char>,
}

impl View for OutputEvent {
    type V = OutputEventView;

    open spec fn view(&self) -> OutputEventView {
        OutputEventView { origin: self.origin, line: self.line@ }
    }
}

/// The values of a list of events, in order.
pub open spec fn event_views(events: Seq<OutputEvent>) -> Seq<OutputEventView> {
    events.map_values(|e: OutputEvent| e@)
}

impl Origin {
    /// The name of the channel on which events of this origin are published.
    pub open spec fn channel_spec(self) -> Seq<char> {
        match self {
            Origin::Diagnostic => "sidecar-log"@,
            Origin::Payload => "sidecar-message"@,
        }
    }

    /// The name of the channel on which events of this origin are published.
    pub fn channel(self) -> (name: &'static str)
        ensures
            name@ == self.channel_spec(),
    {
        match self {
            Origin::Diagnostic => "sidecar-log",
            Origin::Payload => "sidecar-message",
        }
    }
}

} // verus!
