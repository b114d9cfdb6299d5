//! The bus of the session: what arrives on it from the terminal, from the
//! session itself, from the store and from the clock, and what each
//! arrival becomes.

use vstd::prelude::*;
use crate::commands::keymap::{handle_key_events, key_event, KeyEvent, KeyEventKind};
use crate::commands::page::{PageType};
use crate::commands::prompt::{PromptStyle, text_add_failed, text_delete_failed, text_fetch_failed};
use crate::commands::session::{
    AppState, AppView, DataPayload, DataPayloadView, Event, EventView, PromptEvent,
    PromptEventView, Request, RequestView,
};
use crate::database::{Database, DatabaseView};
use crate::models::dip::{
    dip_refused, draft, filtered_rows, noted, scope_missing, with_dip, without_dip, DipRowFull,
    DipRowView, DipView,
};
use crate::models::dir_context::{filtered_scopes, DirContext, DirContextView, ScopesFilter};

verus! {

/// The time without any arrival after which the clock ticks, in
/// milliseconds.
pub const TICK_MILLIS: u64 = 200;

/// What the terminal reports.
#[derive(Debug, Clone, Copy, PartialEq, Eq, Structural)]
pub enum TerminalEvent {
    Key(KeyEvent),
    /// A resize, the mouse, a paste, a change of focus.
    Other,
}

/// One arrival on the bus.
#[derive(Debug, PartialEq, Eq)]
pub enum BusInput {
    /// From the queue that the session and the store write to: an event,
    /// or nothing where the queue was closed.
    Queued(Option<Event>),
    /// From the terminal: a report, or nothing where the terminal failed or
    /// ended.
    Terminal(Option<TerminalEvent>),
    /// The clock ticked.
    Idle,
}

/// One arrival on the bus, as contracts speak of it.
pub ghost enum BusInputView {
    Queued(Option<EventView>),
    Terminal(Option<TerminalEvent>),
    Idle,
}

impl View for BusInput {
    type V = BusInputView;

    open spec fn view(&self) -> BusInputView {
        match self {
            BusInput::Queued(event) => BusInputView::Queued(event.deep_view()),
            BusInput::Terminal(report) => BusInputView::Terminal(*report),
            BusInput::Idle => BusInputView::Idle,
        }
    }
}

/// The event that an arrival on the bus is taken for, if it is taken for
/// any. Of the terminal only pressed keys count; a key that is held or let
/// go means nothing.
pub open spec fn arrival(input: BusInputView, s: AppView) -> Option<EventView> {
    match input {
        BusInputView::Queued(event) => event,
        BusInputView::Terminal(Some(TerminalEvent::Key(key))) => if key.kind
            == KeyEventKind::Press {
            key_event(key, s.ui)
        } else {
            None
        },
        BusInputView::Terminal(_) => None,
        BusInputView::Idle => Some(EventView::UiTick),
    }
}

/// Turns one arrival on the bus into the event the session handles next,
/// or into nothing where the wait goes on.
pub fn next(input: BusInput, ctx: &AppState) -> (event: Option<Event>)
    ensures
        event.deep_view() == arrival(input@, ctx@),
{
    match input {
        BusInput::Queued(event) => event,
        BusInput::Terminal(report) => match report {
            Some(TerminalEvent::Key(key)) => match key.kind {
                KeyEventKind::Press => handle_key_events(key, ctx),
                _ => None,
            },
            _ => None,
        },
        BusInput::Idle => Some(Event::UiTick),
    }
}

/// The events a session starts with, given the scope that was found for
/// the place: the page of the notes of that scope is entered, and the scope
/// itself is handed over so that the page can name it.
pub open spec fn first_events(scope: Option<DirContextView>) -> Seq<EventView> {
    match scope {
        Some(scope) => seq![
            EventView::Nav(PageType::Dips { scope_id: Some(scope.id) }),
            EventView::LoadData(DataPayloadView::Scopes(seq![scope])),
        ],
        None => seq![EventView::Nav(PageType::Dips { scope_id: None })],
    }
}

/// The events a session starts with.
pub fn startup_events(scope: Option<DirContext>) -> (events: Vec<Event>)
    ensures
        events.deep_view() == first_events(scope.deep_view()),
{
    let mut events: Vec<Event> = Vec::new();
    match scope {
        Some(scope) => {
            let ghost view = scope@;
            events.push(Event::Nav(PageType::Dips { scope_id: Some(scope.id) }));
            let mut scopes: Vec<DirContext> = Vec::new();
            scopes.push(scope);
            assert(scopes.deep_view() =~= seq![view]);
            events.push(Event::LoadData(DataPayload::Scopes(scopes)));
            assert(events.deep_view() =~= first_events(Some(view)));
        },
        None => {
            events.push(Event::Nav(PageType::Dips { scope_id: None }));
            assert(events.deep_view() =~= first_events(None));
        },
    }
    events
}

/// What the store answers to a request.
#[derive(Debug, PartialEq, Eq)]
pub enum Reply {
    Dips(Vec<DipRowFull>),
    Scopes(Vec<DirContext>),
    /// A change was made.
    Done,
    /// The store failed.
    Failed,
}

/// An answer of the store as contracts speak of it.
pub ghost enum ReplyView {
    Dips(Seq<DipRowView>),
    Scopes(Seq<DirContextView>),
    Done,
    Failed,
}

impl View for Reply {
    type V = ReplyView;

    open spec fn view(&self) -> ReplyView {
        match self {
            Reply::Dips(items) => ReplyView::Dips(items.deep_view()),
            Reply::Scopes(items) => ReplyView::Scopes(items.deep_view()),
            Reply::Done => ReplyView::Done,
            Reply::Failed => ReplyView::Failed,
        }
    }
}

/// What the prompt is told when a request failed.
pub open spec fn failure_text(request: RequestView) -> Seq<char> {
    match request {
        RequestView::CreateDip { .. } => text_add_failed(),
        RequestView::DeleteDip { .. } => text_delete_failed(),
        _ => text_fetch_failed(),
    }
}

/// The one event that reports how a request ended. A fetch hands over what
/// it brought; a change asks for the page of notes to be fetched anew; every
/// other ending, a failure or an answer that does not fit the request, is a
/// complaint for the prompt.
pub open spec fn completion_of(request: RequestView, reply: ReplyView) -> EventView {
    match (request, reply) {
        (RequestView::FetchDips(filter), ReplyView::Dips(items)) => EventView::LoadData(
            DataPayloadView::Dips { scope_id: filter.scope_id, items },
        ),
        (RequestView::FetchScopes(_), ReplyView::Scopes(items)) => EventView::LoadData(
            DataPayloadView::Scopes(items),
        ),
        (RequestView::CreateDip { scope_id, .. }, ReplyView::Done) => EventView::RefetchData(
            PageType::Dips { scope_id },
        ),
        (RequestView::DeleteDip { scope_id, .. }, ReplyView::Done) => EventView::RefetchData(
            PageType::Dips { scope_id },
        ),
        _ => EventView::Prompt(
            PromptEventView::Message { msg: failure_text(request), style: PromptStyle::Danger },
        ),
    }
}

/// The complaint for a request that failed.
fn failure(request: &Request) -> (event: Event)
    ensures
        event@ == EventView::Prompt(
            PromptEventView::Message { msg: failure_text(request@), style: PromptStyle::Danger },
        ),
{
    let msg = match request {
        Request::CreateDip { .. } => "Failed to add the dip",
        Request::DeleteDip { .. } => "Failed to delete the dip",
        _ => "Failed to load the list",
    };
    Event::Prompt(PromptEvent::Message { msg, style: PromptStyle::Danger })
}

/// The one event that is sent when a request to the store has ended.
pub fn completion(request: &Request, reply: Reply) -> (event: Event)
    ensures
        event@ == completion_of(request@, reply@),
{
    match request {
        Request::FetchDips(filter) => match reply {
            Reply::Dips(items) => Event::LoadData(
                DataPayload::Dips { scope_id: filter.scope_id(), items },
            ),
            _ => failure(request),
        },
        Request::FetchScopes(_) => match reply {
            Reply::Scopes(items) => Event::LoadData(DataPayload::Scopes(items)),
            _ => failure(request),
        },
        Request::CreateDip { scope_id, .. } => match reply {
            Reply::Done => Event::RefetchData(PageType::Dips { scope_id: *scope_id }),
            _ => failure(request),
        },
        Request::DeleteDip { scope_id, .. } => match reply {
            Reply::Done => Event::RefetchData(PageType::Dips { scope_id: *scope_id }),
            _ => failure(request),
        },
    }
}

/// What the store in memory answers to a request, and what it is
/// afterwards. A fetch leaves it as it is and brings the rows that pass; a
/// deletion always goes through; a creation goes through unless the store
/// refuses the note, and then leaves the store as it is. The store refuses
/// a note whose scope it does not hold, a value that is noted in the scope
/// already, and a note whose identity, which chance gives, is taken.
pub open spec fn answered(
    before: DatabaseView,
    request: RequestView,
    reply: ReplyView,
    after: DatabaseView,
) -> bool {
    match request {
        RequestView::FetchDips(filter) => after == before && reply == ReplyView::Dips(
            filtered_rows(before, filter),
        ),
        RequestView::FetchScopes(search) => after == before && reply == ReplyView::Scopes(
            filtered_scopes(before, search),
        ),
        RequestView::DeleteDip { id, .. } => after == without_dip(before, id) && reply
            == ReplyView::Done,
        RequestView::CreateDip { scope_id, value } => match reply {
            ReplyView::Done => exists|dip: DipView|
                #![trigger with_dip(before, dip)]
                dip.value == value && dip.dir_context_id == scope_id && dip.note is None
                    && dip.context_group_id is None && dip_refused(before, dip) is None && after
                    == with_dip(before, dip),
            ReplyView::Failed => {
                &&& after == before
                &&& {
                    ||| scope_missing(before, scope_id)
                    ||| noted(before, draft(scope_id, value, None))
                    ||| before.random_dip_stored()
                }
            },
            _ => false,
        },
    }
}

/// Carries out a request on the store in memory.
pub fn serve(db: &mut Database, request: &Request) -> (reply: Reply)
    ensures
        answered(old(db)@, request@, reply@, final(db)@),
        old(db)@.wf() ==> final(db)@.wf(),
{
    match request {
        Request::FetchDips(filter) => Reply::Dips(crate::models::dip::get_filtered(db, filter.clone())),
        Request::FetchScopes(filter) => {
            let filter = match filter.search() {
                Some(text) => ScopesFilter::new().with_search(text),
                None => ScopesFilter::new(),
            };
            Reply::Scopes(crate::models::dir_context::get_filtered(db, filter))
        },
        Request::DeleteDip { id, .. } => {
            crate::models::dip::delete(db, id);
            Reply::Done
        },
        Request::CreateDip { scope_id, value } => match crate::models::dip::create(
            db,
            *scope_id,
            value.as_str(),
            None,
        ) {
            Ok(dip) => {
                assert(final(db)@ == with_dip(old(db)@, dip@)) by {
                    assert(db@ == with_dip(old(db)@, dip@));
                }
                Reply::Done
            },
            Err(_) => Reply::Failed,
        },
    }
}

} // verus!
