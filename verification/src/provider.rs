//! Provider descriptions and the deterministic offline provider.

use std::time::Duration;

use vstd::prelude::*;

use crate::agent::copy_string;
use crate::event::{events_view, ProviderEvent, ProviderEventView};
use crate::text::{chars_of, push_str, split_ws, strs_view, words, IntoText};

verus! {

/// What a provider supports.
#[derive(Debug, Clone, Copy, PartialEq, Eq, Structural)]
pub struct ProviderCapabilities {
    pub streaming: bool,
    pub cancellation: bool,
}

impl ProviderCapabilities {
    /// Streaming and cancellation both supported.
    pub fn fake() -> (c: Self)
        ensures
            c.streaming && c.cancellation,
    {
        ProviderCapabilities { streaming: true, cancellation: true }
    }
}

/// The model a provider talks to.
#[derive(Debug, Clone, PartialEq, Eq)]
pub struct ModelInfo {
    pub id: String,
    pub name: String,
    pub context_window: usize,
}

impl ModelInfo {
    /// The offline provider's model.
    pub fn fake() -> (m: Self)
        ensures
            m.id@ == "fake-model"@,
            m.name@ == "Fake Model"@,
            m.context_window == 4096,
    {
        ModelInfo { id: "fake-model".to_owned(), name: "Fake Model".to_owned(), context_window: 4096 }
    }
}

/// Why a provider request did not produce an answer.
#[derive(Debug, Clone, PartialEq, Eq)]
pub enum ProviderError {
    Cancelled,
    Message(String),
}

impl ProviderError {
    /// The one-line description of the error.
    pub open spec fn spec_message(&self) -> Seq<char> {
        match self {
            ProviderError::Cancelled => "provider request cancelled"@,
            ProviderError::Message(m) => "provider error: "@ + m@,
        }
    }

    /// The one-line description of the error.
    pub fn to_string(&self) -> (s: String)
        ensures
            s@ == self.spec_message(),
    {
        match self {
            ProviderError::Cancelled => "provider request cancelled".to_owned(),
            ProviderError::Message(m) => {
                let mut s = "provider error: ".to_owned();
                push_str(&mut s, m.as_str());
                s
            },
        }
    }
}

/// The offline provider: it echoes the prompt back word by word after a
/// delay.
#[derive(Debug, Clone, Copy)]
pub struct FakeProvider {
    pub delay: Duration,
}

/// The events of an uncancelled offline answer: start, one delta per word
/// of the prompt, completion.
pub open spec fn spec_fake_events(request_id: Seq<char>, prompt: Seq<char>) -> Seq<
    ProviderEventView,
> {
    seq![ProviderEventView::Started { request_id }] + words(prompt).map_values(
        |w: Seq<char>| ProviderEventView::Delta { request_id, text: w },
    ) + seq![ProviderEventView::Completed { request_id }]
}

impl FakeProvider {
    /// An offline provider with the given answer delay.
    pub fn new(delay: Duration) -> (p: Self)
        ensures
            p.delay == delay,
    {
        FakeProvider { delay }
    }

    /// The offline provider's model.
    pub fn model(&self) -> (m: ModelInfo)
        ensures
            m.id@ == "fake-model"@,
            m.name@ == "Fake Model"@,
            m.context_window == 4096,
    {
        ModelInfo::fake()
    }

    /// Streaming and cancellation both supported.
    pub fn capabilities(&self) -> (c: ProviderCapabilities)
        ensures
            c.streaming && c.cancellation,
    {
        ProviderCapabilities::fake()
    }

    /// The events of the answer when nothing cancels it.
    pub fn answer_events(&self, request_id: &str, prompt: &str) -> (r: Vec<ProviderEvent>)
        ensures
            events_view(r@) == spec_fake_events(request_id@, prompt@),
    {
        let mut events: Vec<ProviderEvent> = Vec::new();
        events.push(ProviderEvent::Started { request_id: request_id.to_owned() });
        let pv = chars_of(prompt);
        let ws = split_ws(&pv);
        let mut i: usize = 0;
        while i < ws.len()
            invariant
                i <= ws@.len(),
                strs_view(ws@) == words(prompt@),
                events_view(events@) == seq![ProviderEventView::Started { request_id: request_id@ }]
                    + words(prompt@).take(i as int).map_values(
                    |w: Seq<char>| ProviderEventView::Delta { request_id: request_id@, text: w },
                ),
            decreases ws@.len() - i,
        {
            let ghost before = events@;
            events.push(
                ProviderEvent::Delta { request_id: request_id.to_owned(), text: copy_string(&ws[i]) },
            );
            proof {
                assert(events_view(events@) =~= events_view(before).push(
                    ProviderEventView::Delta { request_id: request_id@, text: ws@[i as int]@ },
                ));
                assert(strs_view(ws@)[i as int] == ws@[i as int]@);
                let f = |w: Seq<char>| ProviderEventView::Delta { request_id: request_id@, text: w };
                assert(words(prompt@).take(i + 1).map_values(f) =~= words(prompt@).take(
                    i as int,
                ).map_values(f).push(f(words(prompt@)[i as int])));
                assert(events_view(events@) =~= seq![ProviderEventView::Started { request_id: request_id@ }]
                    + words(prompt@).take(i + 1).map_values(f));
            }
            i = i + 1;
        }
        let ghost before = events@;
        events.push(ProviderEvent::Completed { request_id: request_id.to_owned() });
        proof {
            assert(events_view(events@) =~= events_view(before).push(
                ProviderEventView::Completed { request_id: request_id@ },
            ));
            assert(words(prompt@).take(ws@.len() as int) =~= words(prompt@));
            assert(events_view(events@) =~= spec_fake_events(request_id@, prompt@));
        }
        events
    }

    /// The events of the answer when cancellation is seen after `delivered`
    /// of its deltas: the start, those deltas, then the cancellation.
    pub fn cancelled_answer(&self, request_id: &str, prompt: &str, delivered: usize) -> (r: Vec<
        ProviderEvent,
    >)
        requires
            delivered <= words(prompt@).len(),
        ensures
            events_view(r@) == spec_fake_events(request_id@, prompt@).take(delivered + 1).push(
                ProviderEventView::Cancelled { request_id: request_id@ },
            ),
    {
        let mut events = self.answer_events(request_id, prompt);
        let ghost all = events@;
        assert(events_view(events@).len() == events@.len());
        let n = events.len();
        assert(delivered + 1 < n);
        events.truncate(delivered + 1);
        proof {
            assert(events_view(events@) =~= events_view(all).take(delivered + 1));
        }
        let ghost before = events@;
        events.push(ProviderEvent::Cancelled { request_id: request_id.to_owned() });
        proof {
            assert(events_view(events@) =~= events_view(before).push(
                ProviderEventView::Cancelled { request_id: request_id@ },
            ));
        }
        events
    }
}

} // verus!
