//! How an OpenAI-compatible chat reply becomes application provider events.
//! Sending the request and watching for cancellation is left to the caller.

use vstd::prelude::*;

use crate::event::{events_view, ProviderEvent, ProviderEventView};
use crate::provider::{ModelInfo, ProviderCapabilities};
use crate::config::ProviderConfig;
use crate::providers::openai_compatible::{
    trim_end_slashes, ChatResult, ChatResultView, OpenAiCompatibleConfig,
    OpenAiCompatibleEndpoint, OpenAiError, OpenAiErrorView, SseEvent, SseEventView,
};
use crate::text::starts_with;

verus! {

/// Model used when the configuration names none.
pub const DEFAULT_MODEL: &'static str = "gpt-4o-mini";

/// Context window assumed for OpenAI-compatible models.
pub const OPENAI_CONTEXT_WINDOW: usize = 128000;

/// The model description of an OpenAI-compatible provider.
pub fn openai_model_info(model_id: &str) -> (m: ModelInfo)
    ensures
        m.id@ == model_id@,
        m.name@ == model_id@,
        m.context_window == OPENAI_CONTEXT_WINDOW,
{
    ModelInfo { id: model_id.to_owned(), name: model_id.to_owned(), context_window: OPENAI_CONTEXT_WINDOW }
}

/// An OpenAI-compatible provider streams and can be cancelled.
pub fn openai_capabilities() -> (c: ProviderCapabilities)
    ensures
        c.streaming && c.cancellation,
{
    ProviderCapabilities { streaming: true, cancellation: true }
}

/// The events of a stream's chunks: deltas pass through, `[DONE]` completes,
/// an error fails, other lines are skipped; a stream that just ends
/// completes.
pub open spec fn stream_events(id: Seq<char>, chunks: Seq<SseEventView>) -> Seq<ProviderEventView>
    decreases chunks.len(),
{
    if chunks.len() == 0 {
        seq![ProviderEventView::Completed { request_id: id }]
    } else {
        match chunks[0] {
            SseEventView::Delta(t) => seq![ProviderEventView::Delta { request_id: id, text: t }]
                + stream_events(id, chunks.drop_first()),
            SseEventView::Done => seq![ProviderEventView::Completed { request_id: id }],
            SseEventView::Error(e) => seq![
                ProviderEventView::Failed { request_id: id, error: e.message() },
            ],
            SseEventView::Ignore => stream_events(id, chunks.drop_first()),
        }
    }
}

/// The events of a stream when cancellation is noticed just before chunk
/// `seen` is read: the events of the chunks before it, then the
/// cancellation; a stream that ends within those chunks ends as it would.
pub open spec fn cancelled_stream_events(id: Seq<char>, chunks: Seq<SseEventView>, seen: nat) -> Seq<
    ProviderEventView,
>
    decreases chunks.len(),
{
    if seen == 0 || chunks.len() == 0 {
        seq![ProviderEventView::Cancelled { request_id: id }]
    } else {
        match chunks[0] {
            SseEventView::Delta(t) => seq![ProviderEventView::Delta { request_id: id, text: t }]
                + cancelled_stream_events(id, chunks.drop_first(), (seen - 1) as nat),
            SseEventView::Done => seq![ProviderEventView::Completed { request_id: id }],
            SseEventView::Error(e) => seq![
                ProviderEventView::Failed { request_id: id, error: e.message() },
            ],
            SseEventView::Ignore => cancelled_stream_events(id, chunks.drop_first(), (seen - 1) as nat),
        }
    }
}

/// The events that follow `Started` for a chat outcome when nothing cancels
/// the request.
pub open spec fn spec_chat_events(
    id: Seq<char>,
    result: Result<ChatResultView, OpenAiErrorView>,
) -> Seq<ProviderEventView> {
    match result {
        Ok(ChatResultView::Complete(text)) => seq![
            ProviderEventView::Delta { request_id: id, text },
            ProviderEventView::Completed { request_id: id },
        ],
        Ok(ChatResultView::Stream(chunks)) => stream_events(id, chunks),
        Err(e) => seq![ProviderEventView::Failed { request_id: id, error: e.message() }],
    }
}

/// The view of a chat outcome.
pub open spec fn result_view(r: Result<ChatResult, OpenAiError>) -> Result<
    ChatResultView,
    OpenAiErrorView,
> {
    match r {
        Ok(c) => Ok(c@),
        Err(e) => Err(e@),
    }
}

/// What one stream chunk does: the event it adds, if any, and whether the
/// stream ends with it.
pub fn stream_step(request_id: &str, chunk: &SseEvent) -> (r: (Option<ProviderEvent>, bool))
    ensures
        match chunk@ {
            SseEventView::Delta(t) => !r.1 && (r.0 matches Some(e) && e@
                == ProviderEventView::Delta { request_id: request_id@, text: t }),
            SseEventView::Done => r.1 && (r.0 matches Some(e) && e@
                == ProviderEventView::Completed { request_id: request_id@ }),
            SseEventView::Error(err) => r.1 && (r.0 matches Some(e) && e@
                == ProviderEventView::Failed { request_id: request_id@, error: err.message() }),
            SseEventView::Ignore => !r.1 && r.0 is None,
        },
{
    match chunk {
        SseEvent::Delta(text) => (
            Some(
                ProviderEvent::Delta {
                    request_id: request_id.to_owned(),
                    text: crate::agent::copy_string(text),
                },
            ),
            false,
        ),
        SseEvent::Done => (Some(ProviderEvent::Completed { request_id: request_id.to_owned() }), true),
        SseEvent::Error(error) => (
            Some(ProviderEvent::Failed { request_id: request_id.to_owned(), error: error.to_string() }),
            true,
        ),
        SseEvent::Ignore => (None, false),
    }
}

/// The events that follow `Started` for a stream whose cancellation was
/// noticed just before chunk `seen` was read.
pub fn cancelled_stream(request_id: &str, chunks: &Vec<SseEvent>, seen: usize) -> (r: Vec<
    ProviderEvent,
>)
    requires
        seen <= chunks@.len(),
    ensures
        events_view(r@) == cancelled_stream_events(
            request_id@,
            chunks@.map_values(|e: SseEvent| e@),
            seen as nat,
        ),
{
    let ghost cs = chunks@.map_values(|e: SseEvent| e@);
    let mut events: Vec<ProviderEvent> = Vec::new();
    let mut i: usize = 0;
    let mut ended = false;
    assert(cs.skip(0) =~= cs);
    assert(events_view(events@) + cancelled_stream_events(request_id@, cs, seen as nat)
        =~= cancelled_stream_events(request_id@, cs, seen as nat));
    while i < seen && !ended
        invariant
            i <= seen <= chunks@.len(),
            cs == chunks@.map_values(|e: SseEvent| e@),
            ended ==> events_view(events@) == cancelled_stream_events(request_id@, cs, seen as nat),
            !ended ==> cancelled_stream_events(request_id@, cs, seen as nat) == events_view(events@)
                + cancelled_stream_events(request_id@, cs.skip(i as int), (seen - i) as nat),
        decreases seen - i,
    {
        let (event, stop) = stream_step(request_id, &chunks[i]);
        let ghost before = events@;
        proof {
            assert(cs.skip(i as int)[0] == chunks@[i as int]@);
            assert(cs.skip(i as int).drop_first() =~= cs.skip(i + 1));
        }
        match event {
            Some(e) => {
                events.push(e);
                assert(events_view(events@) =~= events_view(before).push(e@));
            },
            None => {},
        }
        proof {
            if stop {
                assert(events_view(events@) =~= events_view(before) + cancelled_stream_events(
                    request_id@,
                    cs.skip(i as int),
                    (seen - i) as nat,
                ));
            } else {
                assert(events_view(events@) + cancelled_stream_events(
                    request_id@,
                    cs.skip(i + 1),
                    (seen - (i + 1)) as nat,
                ) =~= events_view(before) + cancelled_stream_events(
                    request_id@,
                    cs.skip(i as int),
                    (seen - i) as nat,
                ));
            }
        }
        ended = stop;
        i = i + 1;
    }
    if !ended {
        let ghost before = events@;
        events.push(ProviderEvent::Cancelled { request_id: request_id.to_owned() });
        proof {
            assert(events_view(events@) =~= events_view(before).push(
                ProviderEventView::Cancelled { request_id: request_id@ },
            ));
        }
    }
    events
}

/// The events that follow `Started` for a chat outcome when nothing cancels
/// the request.
pub fn chat_events(request_id: &str, result: &Result<ChatResult, OpenAiError>) -> (r: Vec<
    ProviderEvent,
>)
    ensures
        events_view(r@) == spec_chat_events(request_id@, result_view(*result)),
{
    let mut events: Vec<ProviderEvent> = Vec::new();
    match result {
        Ok(ChatResult::Complete(text)) => {
            events.push(
                ProviderEvent::Delta {
                    request_id: request_id.to_owned(),
                    text: crate::agent::copy_string(text),
                },
            );
            events.push(ProviderEvent::Completed { request_id: request_id.to_owned() });
            assert(events_view(events@) =~= spec_chat_events(request_id@, result_view(*result)));
        },
        Ok(ChatResult::Stream(chunks)) => {
            let ghost cs = chunks@.map_values(|e: SseEvent| e@);
            let mut i: usize = 0;
            let mut ended = false;
            assert(cs.skip(0) =~= cs);
            assert(events_view(events@) + stream_events(request_id@, cs) =~= stream_events(
                request_id@,
                cs,
            ));
            while i < chunks.len() && !ended
                invariant
                    i <= chunks@.len(),
                    cs == chunks@.map_values(|e: SseEvent| e@),
                    ended ==> events_view(events@) == stream_events(request_id@, cs),
                    !ended ==> stream_events(request_id@, cs) == events_view(events@) + stream_events(
                        request_id@,
                        cs.skip(i as int),
                    ),
                decreases chunks@.len() - i,
            {
                let (event, stop) = stream_step(request_id, &chunks[i]);
                let ghost before = events@;
                proof {
                    assert(cs.skip(i as int)[0] == chunks@[i as int]@);
                    assert(cs.skip(i as int).drop_first() =~= cs.skip(i + 1));
                }
                match event {
                    Some(e) => {
                        events.push(e);
                        assert(events_view(events@) =~= events_view(before).push(e@));
                    },
                    None => {},
                }
                proof {
                    if stop {
                        assert(events_view(events@) =~= events_view(before) + stream_events(
                            request_id@,
                            cs.skip(i as int),
                        ));
                    } else {
                        assert(events_view(events@) + stream_events(request_id@, cs.skip(i + 1))
                            =~= events_view(before) + stream_events(request_id@, cs.skip(i as int)));
                    }
                }
                ended = stop;
                i = i + 1;
            }
            if !ended {
                let ghost before = events@;
                events.push(ProviderEvent::Completed { request_id: request_id.to_owned() });
                proof {
                    assert(cs.skip(i as int).len() == 0);
                    assert(events_view(events@) =~= events_view(before).push(
                        ProviderEventView::Completed { request_id: request_id@ },
                    ));
                }
            }
        },
        Err(error) => {
            events.push(
                ProviderEvent::Failed { request_id: request_id.to_owned(), error: error.to_string() },
            );
            assert(events_view(events@) =~= spec_chat_events(request_id@, result_view(*result)));
        },
    }
    events
}

/// The connection settings a provider configuration describes: its base URL
/// as the endpoint, its key (empty when none is set) and its model. A base
/// URL that is not `http://` or `https://` is refused, with no fallback.
pub fn connection_settings(config: &ProviderConfig) -> (r: Result<
    OpenAiCompatibleConfig,
    OpenAiError,
>)
    ensures
        (starts_with(config.base_url@, "http://"@) || starts_with(
            config.base_url@,
            "https://"@,
        )) ==> (r matches Ok(c) && c.endpoint.url() == trim_end_slashes(config.base_url@)
            && c.api_key@ == (match config.api_key {
            Some(k) => k@,
            None => Seq::<char>::empty(),
        }) && c.model@ == config.model@),
        !(starts_with(config.base_url@, "http://"@) || starts_with(
            config.base_url@,
            "https://"@,
        )) ==> r == Err::<OpenAiCompatibleConfig, OpenAiError>(OpenAiError::InvalidEndpoint),
{
    let endpoint = match OpenAiCompatibleEndpoint::new(crate::agent::copy_string(&config.base_url)) {
        Ok(e) => e,
        Err(e) => return Err(e),
    };
    let api_key = match &config.api_key {
        Some(k) => crate::agent::copy_string(k),
        None => String::new(),
    };
    Ok(OpenAiCompatibleConfig { endpoint, api_key, model: crate::agent::copy_string(&config.model) })
}

} // verus!
