//! A summary as it arrives from a model, one event at a time.

use vstd::prelude::*;
use vstd::string::*;

verus! {

/// What a model sends while it answers.
#[derive(Debug, PartialEq)]
pub enum LanguageModelCompletionEvent {
    Text(String),
    Stop,
    UsageUpdate { input_tokens: u64, output_tokens: u64 },
    Other,
}

/// What an event, or the failure to receive one, stands for.
pub enum EventView {
    Text(Seq<char>),
    Stop,
    Ignored,
    Failed(Seq<char>),
}

/// The meaning of what was received.
pub open spec fn event_view(event: Result<LanguageModelCompletionEvent, String>) -> EventView {
    match event {
        Ok(LanguageModelCompletionEvent::Text(text)) => EventView::Text(text@),
        Ok(LanguageModelCompletionEvent::Stop) => EventView::Stop,
        Ok(_) => EventView::Ignored,
        Err(error) => EventView::Failed(error@),
    }
}

/// What follows from an event.
#[derive(Debug, PartialEq)]
pub enum SummaryStep {
    /// Wait for the next event.
    Continue,
    /// The summary is the text collected so far.
    Finished,
    /// No summary comes of it, for the given reason.
    Failed(String),
}

/// What a [`SummaryStep`] stands for.
pub enum StepView {
    Continue,
    Finished,
    Failed(Seq<char>),
}

impl View for SummaryStep {
    type V = StepView;

    open spec fn view(&self) -> StepView {
        match self {
            SummaryStep::Continue => StepView::Continue,
            SummaryStep::Finished => StepView::Finished,
            SummaryStep::Failed(error) => StepView::Failed(error@),
        }
    }
}

/// The text collected after an event, and what follows. A cancellation is noticed before the
/// event is looked at.
pub open spec fn summary_step(collected: Seq<char>, cancelled: bool, event: EventView) -> (
    Seq<char>,
    StepView,
) {
    if cancelled {
        (collected, StepView::Finished)
    } else {
        match event {
            EventView::Text(text) => (collected + text, StepView::Continue),
            EventView::Stop => (collected, StepView::Finished),
            EventView::Ignored => (collected, StepView::Continue),
            EventView::Failed(error) => (collected, StepView::Failed(error)),
        }
    }
}

/// The outcome of a whole stream of events: a summary, or the reason why there is none.
pub open spec fn summary_outcome(collected: Seq<char>, events: Seq<(bool, EventView)>) -> Result<
    Seq<char>,
    Seq<char>,
>
    decreases events.len(),
{
    if events.len() == 0 {
        Ok(collected)
    } else {
        let (text, step) = summary_step(collected, events[0].0, events[0].1);
        match step {
            StepView::Continue => summary_outcome(text, events.drop_first()),
            StepView::Finished => Ok(text),
            StepView::Failed(error) => Err(error),
        }
    }
}

/// A summary that is being received.
#[derive(Debug, PartialEq)]
pub struct SummaryStream {
    pub text: String,
}

impl SummaryStream {
    /// A summary of which nothing has arrived.
    pub fn new() -> (stream: Self)
        ensures
            stream.text@ == Seq::<char>::empty(),
    {
        SummaryStream { text: String::new() }
    }

    /// Takes an event into account, where `cancelled` tells whether the user has cancelled.
    pub fn on_event(
        &mut self,
        cancelled: bool,
        event: Result<LanguageModelCompletionEvent, String>,
    ) -> (step: SummaryStep)
        ensures
            (final(self).text@, step@) == summary_step(
                old(self).text@,
                cancelled,
                event_view(event),
            ),
    {
        if cancelled {
            return SummaryStep::Finished;
        }
        match event {
            Ok(LanguageModelCompletionEvent::Text(text)) => {
                self.text.append(text.as_str());
                SummaryStep::Continue
            },
            Ok(LanguageModelCompletionEvent::Stop) => SummaryStep::Finished,
            Ok(LanguageModelCompletionEvent::UsageUpdate { .. }) => SummaryStep::Continue,
            Ok(LanguageModelCompletionEvent::Other) => SummaryStep::Continue,
            Err(error) => SummaryStep::Failed(error),
        }
    }
}

/// Whether an event ends the stream.
pub open spec fn ends_stream(cancelled: bool, event: EventView) -> bool {
    cancelled || event is Stop || event is Failed
}

/// The texts of the events, one after the other.
pub open spec fn event_texts(events: Seq<(bool, EventView)>) -> Seq<char>
    decreases events.len(),
{
    if events.len() == 0 {
        Seq::empty()
    } else {
        (match events[0].1 {
            EventView::Text(text) => text,
            _ => Seq::empty(),
        }) + event_texts(events.drop_first())
    }
}

/// As long as no event ends the stream, the summary is the texts of all events in order.
pub proof fn law_summary_collects_texts(collected: Seq<char>, events: Seq<(bool, EventView)>)
    requires
        forall|i: int|
            0 <= i < events.len() ==> !ends_stream(
                (#[trigger] events[i]).0,
                events[i].1,
            ),
    ensures
        summary_outcome(collected, events) == Ok::<Seq<char>, Seq<char>>(
            collected + event_texts(events),
        ),
    decreases events.len(),
{
    if events.len() == 0 {
        assert(collected + event_texts(events) =~= collected);
    } else {
        assert(!ends_stream(events[0].0, events[0].1));
        let rest = events.drop_first();
        assert forall|i: int| 0 <= i < rest.len() implies !ends_stream(
            (#[trigger] rest[i]).0,
            rest[i].1,
        ) by {
            assert(rest[i] == events[i + 1]);
        }
        let (text, _) = summary_step(collected, events[0].0, events[0].1);
        law_summary_collects_texts(text, rest);
        assert(text + event_texts(rest) =~= collected + event_texts(events));
    }
}

/// What comes behind an event that ends the stream has no effect.
pub proof fn law_summary_ends(
    collected: Seq<char>,
    events: Seq<(bool, EventView)>,
    rest: Seq<(bool, EventView)>,
)
    requires
        exists|i: int|
            0 <= i < events.len() && ends_stream((#[trigger] events[i]).0, events[i].1),
    ensures
        summary_outcome(collected, events + rest) == summary_outcome(collected, events),
    decreases events.len(),
{
    let i = choose|i: int|
        0 <= i < events.len() && ends_stream((#[trigger] events[i]).0, events[i].1);
    assert((events + rest)[0] == events[0]);
    if !ends_stream(events[0].0, events[0].1) {
        let later = events.drop_first();
        assert(later[i - 1] == events[i]);
        assert((events + rest).drop_first() =~= later + rest);
        let (text, _) = summary_step(collected, events[0].0, events[0].1);
        law_summary_ends(text, later, rest);
    }
}

} // verus!
