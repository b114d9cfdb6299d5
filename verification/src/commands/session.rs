//! The interactive session: its state, the events that move it, and what it
//! asks of the store in return.

use std::collections::HashMap;
use vstd::prelude::*;
use crate::commands::page::{
    DipsFocus, PageState, PageType, PageView, ScopesFocus, cursor_in_range, initial_page,
    moved_down, moved_up, page_type_of, switched,
};
use crate::commands::prompt::{
    Command, CommandView, PromptState, PromptStyle, PromptView, SearchState, committed, erased,
    takes_input, text_add_unsupported, text_cannot_type, text_only_y, typed, without_last,
};
use crate::identity::Uid;
use crate::models::dip::{DipRowFull, DipRowView, DipsFilter, DipsFilterView};
use crate::models::dir_context::{DirContext, DirContextView, ScopesFilter};

verus! {

/// Whether the session goes on.
#[derive(Debug, Clone, Copy, PartialEq, Eq, Structural)]
pub enum Mode {
    Running,
    Quit,
}

/// Who gets the keys: the page, or the prompt.
#[derive(Debug, Clone, Copy, PartialEq, Eq, Structural)]
pub enum EventFocusMode {
    Page,
    Prompt,
}

/// What is on screen: the page, the prompt, who gets the keys, and the one
/// page that can be gone back to.
#[derive(Debug, PartialEq, Eq)]
pub struct UiState {
    pub page: PageState,
    pub prompt: PromptState,
    pub event_focus: EventFocusMode,
    pub back_page: Option<PageType>,
}

/// What is on screen, as contracts speak of it.
pub ghost struct UiView {
    pub page: PageView,
    pub prompt: PromptView,
    pub event_focus: EventFocusMode,
    pub back_page: Option<PageType>,
}

impl View for UiState {
    type V = UiView;

    open spec fn view(&self) -> UiView {
        UiView {
            page: self.page@,
            prompt: self.prompt@,
            event_focus: self.event_focus,
            back_page: self.back_page,
        }
    }
}

/// What is on screen after going to a page of the kind `target`: the page
/// left behind is remembered, the new page is empty and has the keys, and
/// the prompt rests, or shows the footer of the help page.
pub open spec fn navigated(ui: UiView, target: PageType) -> UiView {
    UiView {
        page: initial_page(target),
        prompt: if target == PageType::Help {
            PromptView::Nav
        } else {
            PromptView::Default
        },
        event_focus: EventFocusMode::Page,
        back_page: Some(page_type_of(ui.page)),
    }
}

/// What is on screen after going back to the remembered page, which is of
/// the kind `target`: nothing is remembered any more.
pub open spec fn navigated_back(ui: UiView, target: PageType) -> UiView {
    UiView {
        page: initial_page(target),
        prompt: PromptView::Default,
        event_focus: ui.event_focus,
        back_page: None,
    }
}

impl Default for UiState {
    fn default() -> (ui: Self)
        ensures
            ui@ == (UiView {
                page: PageView::Splash,
                prompt: PromptView::Default,
                event_focus: EventFocusMode::Page,
                back_page: None,
            }),
    {
        Self {
            page: PageState::Splash,
            prompt: PromptState::Default,
            event_focus: EventFocusMode::Page,
            back_page: None,
        }
    }
}

impl UiState {
    /// The page of a kind as it is when it is entered.
    pub fn from_type(page: &PageType) -> (r: PageState)
        ensures
            r@ == initial_page(*page),
    {
        match page {
            PageType::Dips { scope_id } => PageState::Dips {
                scope_id: *scope_id,
                index: 0,
                items: Vec::new(),
                focus: DipsFocus::List,
            },
            PageType::Help => PageState::Help,
            PageType::Scopes => PageState::Scopes {
                index: 0,
                items: Vec::new(),
                focus: ScopesFocus::Global,
            },
            PageType::Splash => PageState::Splash,
        }
    }

    /// Goes to a page of the kind `page` and remembers the page left.
    pub fn navigate(&mut self, page: &PageType)
        ensures
            final(self)@ == navigated(old(self)@, *page),
    {
        self.back_page = Some(self.page.page_type());
        self.event_focus = EventFocusMode::Page;
        self.page = UiState::from_type(page);
        if *page == PageType::Help {
            self.prompt.activate_nav_state();
        } else {
            self.prompt.activate_default_state();
        }
    }

    /// Goes back to the remembered page, which is of the kind `page`.
    pub fn navigate_back(&mut self, page: &PageType)
        ensures
            final(self)@ == navigated_back(old(self)@, *page),
    {
        self.page = UiState::from_type(page);
        self.back_page = None;
        self.prompt.activate_default_state();
    }
}

/// What was fetched last: the notes and the scopes, each under its
/// identity.
#[derive(Debug, PartialEq, Eq)]
pub struct DataState {
    pub dips: HashMap<Uid, DipRowFull>,
    pub scopes: HashMap<Uid, DirContext>,
}

/// What was fetched last, as contracts speak of it.
pub ghost struct DataView {
    pub dips: Map<Uid, DipRowView>,
    pub scopes: Map<Uid, DirContextView>,
}

impl View for DataState {
    type V = DataView;

    open spec fn view(&self) -> DataView {
        DataView {
            dips: self.dips@.map_values(|row: DipRowFull| row@),
            scopes: self.scopes@.map_values(|scope: DirContext| scope@),
        }
    }
}

impl Default for DataState {
    fn default() -> (data: Self)
        ensures
            data@ == (DataView { dips: Map::empty(), scopes: Map::empty() }),
    {
        let data = Self { dips: HashMap::new(), scopes: HashMap::new() };
        assert(data@.dips =~= Map::empty());
        assert(data@.scopes =~= Map::empty());
        data
    }
}

/// The whole state of a session.
#[derive(Debug, PartialEq, Eq)]
pub struct AppState {
    pub mode: Mode,
    pub ui: UiState,
    pub data: DataState,
}

/// The state of a session as contracts speak of it.
pub ghost struct AppView {
    pub mode: Mode,
    pub ui: UiView,
    pub data: DataView,
}

impl View for AppState {
    type V = AppView;

    open spec fn view(&self) -> AppView {
        AppView { mode: self.mode, ui: self.ui@, data: self.data@ }
    }
}

/// The state a session starts in.
pub open spec fn initial_state() -> AppView {
    AppView {
        mode: Mode::Running,
        ui: UiView {
            page: PageView::Splash,
            prompt: PromptView::Default,
            event_focus: EventFocusMode::Page,
            back_page: None,
        },
        data: DataView { dips: Map::empty(), scopes: Map::empty() },
    }
}

/// A list of identities fits what was fetched: the cursor is in range,
/// nothing is listed twice, and every listed identity was fetched.
pub open spec fn list_fits<R>(index: usize, items: Seq<Uid>, fetched: Map<Uid, R>) -> bool {
    &&& cursor_in_range(index, items.len())
    &&& items.no_duplicates()
    &&& forall|i: int| 0 <= i < items.len() ==> fetched.contains_key(#[trigger] items[i])
}

impl AppView {
    /// The state is sound: the list of the page that is shown fits what
    /// was fetched for it.
    pub open spec fn wf(self) -> bool {
        match self.ui.page {
            PageView::Dips { index, items, .. } => list_fits(index, items, self.data.dips),
            PageView::Scopes { index, items, .. } => list_fits(index, items, self.data.scopes),
            _ => true,
        }
    }
}

/// What a fetch brought back.
#[derive(Debug, PartialEq, Eq)]
pub enum DataPayload {
    /// The notes of the scope `scope_id`.
    Dips { scope_id: Option<Uid>, items: Vec<DipRowFull> },
    /// Scopes.
    Scopes(Vec<DirContext>),
}

/// What a fetch brought back, as contracts speak of it.
pub ghost enum DataPayloadView {
    Dips { scope_id: Option<Uid>, items: Seq<DipRowView> },
    Scopes(Seq<DirContextView>),
}

impl View for DataPayload {
    type V = DataPayloadView;

    open spec fn view(&self) -> DataPayloadView {
        match self {
            DataPayload::Dips { scope_id, items } => DataPayloadView::Dips {
                scope_id: *scope_id,
                items: items.deep_view(),
            },
            DataPayload::Scopes(items) => DataPayloadView::Scopes(items.deep_view()),
        }
    }
}

/// How a search is opened.
#[derive(Debug, Clone, Copy, PartialEq, Eq, Structural)]
pub enum SearchMode {
    Init,
}

/// What can happen to the prompt.
#[derive(Debug, PartialEq, Eq)]
pub enum PromptEvent {
    Focus,
    Defocus,
    Search(SearchMode),
    Confirm(Command),
    Input(char),
    InputBackspace,
    Commit,
    Message { msg: &'static str, style: PromptStyle },
}

/// What can happen to the prompt, as contracts speak of it.
pub ghost enum PromptEventView {
    Focus,
    Defocus,
    Search(SearchMode),
    Confirm(CommandView),
    Input(char),
    InputBackspace,
    Commit,
    Message { msg: Seq<char>, style: PromptStyle },
}

impl View for PromptEvent {
    type V = PromptEventView;

    open spec fn view(&self) -> PromptEventView {
        match self {
            PromptEvent::Focus => PromptEventView::Focus,
            PromptEvent::Defocus => PromptEventView::Defocus,
            PromptEvent::Search(mode) => PromptEventView::Search(*mode),
            PromptEvent::Confirm(command) => PromptEventView::Confirm(command@),
            PromptEvent::Input(c) => PromptEventView::Input(*c),
            PromptEvent::InputBackspace => PromptEventView::InputBackspace,
            PromptEvent::Commit => PromptEventView::Commit,
            PromptEvent::Message { msg, style } => PromptEventView::Message {
                msg: msg@,
                style: *style,
            },
        }
    }
}

/// Where the cursor is asked to go.
#[derive(Debug, Clone, Copy, PartialEq, Eq, Structural)]
pub enum Action {
    MoveUp,
    MoveDown,
    /// Between the list and the line above it.
    SwitchFocus,
}

/// What the session is told, one at a time.
#[derive(Debug, PartialEq, Eq)]
pub enum Event {
    Action(Action),
    Command(Command),
    Prompt(PromptEvent),
    Nav(PageType),
    NavBack,
    LoadData(DataPayload),
    RefetchData(PageType),
    UiTick,
    QuitSignal,
}

/// What the session is told, as contracts speak of it.
pub ghost enum EventView {
    Action(Action),
    Command(CommandView),
    Prompt(PromptEventView),
    Nav(PageType),
    NavBack,
    LoadData(DataPayloadView),
    RefetchData(PageType),
    UiTick,
    QuitSignal,
}

impl View for Event {
    type V = EventView;

    open spec fn view(&self) -> EventView {
        match self {
            Event::Action(action) => EventView::Action(*action),
            Event::Command(command) => EventView::Command(command@),
            Event::Prompt(event) => EventView::Prompt(event@),
            Event::Nav(page) => EventView::Nav(*page),
            Event::NavBack => EventView::NavBack,
            Event::LoadData(payload) => EventView::LoadData(payload@),
            Event::RefetchData(page) => EventView::RefetchData(*page),
            Event::UiTick => EventView::UiTick,
            Event::QuitSignal => EventView::QuitSignal,
        }
    }
}

impl DeepView for Event {
    type V = EventView;

    open spec fn deep_view(&self) -> EventView {
        self@
    }
}

/// What the session asks of the store.
#[derive(Debug, PartialEq, Eq)]
pub enum Request {
    FetchDips(DipsFilter),
    FetchScopes(ScopesFilter),
    CreateDip { scope_id: Option<Uid>, value: String },
    DeleteDip { id: Uid, scope_id: Option<Uid> },
}

/// A request to the store as contracts speak of it.
pub ghost enum RequestView {
    FetchDips(DipsFilterView),
    FetchScopes(Option<Seq<char>>),
    CreateDip { scope_id: Option<Uid>, value: Seq<char> },
    DeleteDip { id: Uid, scope_id: Option<Uid> },
}

impl View for Request {
    type V = RequestView;

    open spec fn view(&self) -> RequestView {
        match self {
            Request::FetchDips(filter) => RequestView::FetchDips(filter@),
            Request::FetchScopes(filter) => RequestView::FetchScopes(filter@),
            Request::CreateDip { scope_id, value } => RequestView::CreateDip {
                scope_id: *scope_id,
                value: value@,
            },
            Request::DeleteDip { id, scope_id } => RequestView::DeleteDip {
                id: *id,
                scope_id: *scope_id,
            },
        }
    }
}

impl DeepView for Request {
    type V = RequestView;

    open spec fn deep_view(&self) -> RequestView {
        self@
    }
}

/// What handling one event leaves to be done outside the state.
#[derive(Debug, PartialEq, Eq)]
pub enum Effect {
    /// An event that the session sends to itself.
    Emit(Event),
    /// A request that goes to the store.
    Dispatch(Request),
}

/// An effect as contracts speak of it.
pub ghost enum EffectView {
    Emit(EventView),
    Dispatch(RequestView),
}

impl View for Effect {
    type V = EffectView;

    open spec fn view(&self) -> EffectView {
        match self {
            Effect::Emit(event) => EffectView::Emit(event@),
            Effect::Dispatch(request) => EffectView::Dispatch(request@),
        }
    }
}

impl DeepView for Effect {
    type V = EffectView;

    open spec fn deep_view(&self) -> EffectView {
        self@
    }
}

/// The fetch that fills a page: the notes of its scope for a page of
/// notes, all scopes for the page of scopes, none for the others.
pub open spec fn fetch_request(page: PageView) -> Option<RequestView> {
    match page {
        PageView::Dips { scope_id, .. } => Some(
            RequestView::FetchDips(DipsFilterView { scope_id, search: None }),
        ),
        PageView::Scopes { .. } => Some(RequestView::FetchScopes(None)),
        _ => None,
    }
}

/// The fetch that a search for `text` makes on a page.
pub open spec fn search_request(page: PageView, text: Seq<char>) -> Option<RequestView> {
    match page {
        PageView::Dips { scope_id, .. } => Some(
            RequestView::FetchDips(DipsFilterView { scope_id, search: Some(text) }),
        ),
        PageView::Scopes { .. } => Some(RequestView::FetchScopes(Some(text))),
        _ => None,
    }
}

/// A request, if there is one, as the only effect.
pub open spec fn dispatching(request: Option<RequestView>) -> Seq<EffectView> {
    match request {
        Some(request) => seq![EffectView::Dispatch(request)],
        None => Seq::empty(),
    }
}

/// The fetch that typing makes: while the prompt holds a search that
/// follows the typing, the page is fetched anew with the text searched for.
pub open spec fn live_search(page: PageView, prompt: PromptView) -> Option<RequestView> {
    match prompt {
        PromptView::Search { input, state: SearchState::Active } => search_request(page, input),
        _ => None,
    }
}

/// Rows under their identity; of two rows with the same identity the later
/// one stays.
pub open spec fn by_id<R>(rows: Seq<R>, id: spec_fn(R) -> Uid) -> Map<Uid, R>
    decreases rows.len(),
{
    if rows.len() == 0 {
        Map::empty()
    } else {
        by_id(rows.drop_last(), id).insert(id(rows.last()), rows.last())
    }
}

/// The identities of rows in the order of the rows, each where it comes
/// first.
pub open spec fn ids_in_order<R>(rows: Seq<R>, id: spec_fn(R) -> Uid) -> Seq<Uid>
    decreases rows.len(),
{
    if rows.len() == 0 {
        Seq::empty()
    } else {
        let before = ids_in_order(rows.drop_last(), id);
        if before.contains(id(rows.last())) {
            before
        } else {
            before.push(id(rows.last()))
        }
    }
}

/// The listed identities are those of the rows, each once.
pub proof fn lemma_ids_in_order<R>(rows: Seq<R>, id: spec_fn(R) -> Uid)
    ensures
        ids_in_order(rows, id).no_duplicates(),
        forall|k: Uid| #[trigger]
            ids_in_order(rows, id).contains(k) <==> by_id(rows, id).contains_key(k),
        forall|i: int| 0 <= i < rows.len() ==> by_id(rows, id).contains_key(id(#[trigger] rows[i])),
    decreases rows.len(),
{
    if rows.len() > 0 {
        let head = rows.drop_last();
        lemma_ids_in_order(head, id);
        let before = ids_in_order(head, id);
        let last = id(rows.last());
        let now = ids_in_order(rows, id);
        assert forall|k: Uid| #[trigger] now.contains(k) <==> by_id(rows, id).contains_key(k) by {
            assert(before.contains(k) <==> by_id(head, id).contains_key(k));
            assert(before.contains(last) <==> by_id(head, id).contains_key(last));
            if !before.contains(last) {
                assert(now == before.push(last));
                if before.contains(k) {
                    let i = choose|i: int| 0 <= i < before.len() && before[i] == k;
                    assert(now[i] == k);
                }
                if k == last {
                    assert(now[before.len() as int] == k);
                }
                if now.contains(k) {
                    let i = choose|i: int| 0 <= i < now.len() && now[i] == k;
                    if i < before.len() {
                        assert(before[i] == k);
                    }
                }
            }
        }
        assert(now.no_duplicates()) by {
            if !before.contains(last) {
                assert forall|i: int, j: int| 0 <= i < now.len() && 0 <= j < now.len() && i != j implies now[i]
                    != now[j] by {
                    if i < before.len() {
                        assert(before[i] == now[i]);
                    }
                    if j < before.len() {
                        assert(before[j] == now[j]);
                    }
                }
            }
        }
        assert forall|i: int| 0 <= i < rows.len() implies by_id(rows, id).contains_key(
            id(#[trigger] rows[i]),
        ) by {
            if i < rows.len() - 1 {
                assert(head[i] == rows[i]);
            }
        }
    }
}

/// The identity of a listed note.
pub open spec fn dip_id() -> spec_fn(DipRowView) -> Uid {
    |row: DipRowView| row.id
}

/// The identity of a scope.
pub open spec fn scope_id() -> spec_fn(DirContextView) -> Uid {
    |scope: DirContextView| scope.id
}

/// The state after a fetch came back. Scopes are always kept, and listed
/// where the page of scopes is shown. Notes are kept and listed where the
/// page of notes of their scope is shown; elsewhere they come too late and
/// are dropped. A list that is filled anew has its cursor on top.
pub open spec fn loaded(s: AppView, payload: DataPayloadView) -> AppView {
    match payload {
        DataPayloadView::Dips { scope_id, items } => match s.ui.page {
            PageView::Dips { scope_id: shown, focus, .. } => if shown == scope_id {
                AppView {
                    data: DataView { dips: by_id(items, dip_id()), ..s.data },
                    ui: UiView {
                        page: PageView::Dips {
                            scope_id,
                            index: 0,
                            items: ids_in_order(items, dip_id()),
                            focus,
                        },
                        ..s.ui
                    },
                    ..s
                }
            } else {
                s
            },
            _ => s,
        },
        DataPayloadView::Scopes(items) => AppView {
            data: DataView { scopes: by_id(items, scope_id()), ..s.data },
            ui: UiView {
                page: match s.ui.page {
                    PageView::Scopes { focus, .. } => PageView::Scopes {
                        index: 0,
                        items: ids_in_order(items, scope_id()),
                        focus,
                    },
                    page => page,
                },
                ..s.ui
            },
            ..s
        },
    }
}

/// The state with the keys given back to the page and the prompt at rest.
pub open spec fn defocused(s: AppView) -> AppView {
    AppView {
        ui: UiView { event_focus: EventFocusMode::Page, prompt: PromptView::Default, ..s.ui },
        ..s
    }
}

/// The state with the keys given to a prompt.
pub open spec fn focused(s: AppView, prompt: PromptView) -> AppView {
    AppView { ui: UiView { event_focus: EventFocusMode::Prompt, prompt, ..s.ui }, ..s }
}

/// The state with another prompt.
pub open spec fn prompting(s: AppView, prompt: PromptView) -> AppView {
    AppView { ui: UiView { prompt, ..s.ui }, ..s }
}

/// The state and the effects after something happened to the prompt.
pub open spec fn prompt_step(s: AppView, e: PromptEventView) -> (AppView, Seq<EffectView>) {
    match e {
        PromptEventView::Focus => (focused(s, PromptView::Input { input: Seq::empty() }), Seq::empty()),
        PromptEventView::Defocus => (defocused(s), Seq::empty()),
        PromptEventView::Search(_) => (
            focused(s, PromptView::Search { input: Seq::empty(), state: SearchState::Active }),
            Seq::empty(),
        ),
        PromptEventView::Confirm(command) => (
            focused(s, PromptView::Confirm { input: Seq::empty(), command }),
            Seq::empty(),
        ),
        PromptEventView::Input(c) => if takes_input(s.ui.prompt) {
            let prompt = typed(s.ui.prompt, c);
            (prompting(s, prompt), dispatching(live_search(s.ui.page, prompt)))
        } else {
            (
                prompting(
                    s,
                    PromptView::Message { value: text_cannot_type(), style: PromptStyle::Danger },
                ),
                Seq::empty(),
            )
        },
        PromptEventView::InputBackspace => {
            let prompt = erased(s.ui.prompt);
            (prompting(s, prompt), dispatching(live_search(s.ui.page, prompt)))
        },
        PromptEventView::Commit => match committed(s.ui.prompt).1 {
            Some(command) => (
                defocused(s),
                seq![EffectView::Emit(EventView::Command(command))],
            ),
            None => (prompting(s, committed(s.ui.prompt).0), Seq::empty()),
        },
        PromptEventView::Message { msg, style } => (
            prompting(s, PromptView::Message { value: msg, style }),
            Seq::empty(),
        ),
    }
}

/// The state and the effects after a command was carried out. A note is
/// added on a page of notes only, to the scope of the page; elsewhere the
/// prompt complains. A note is deleted wherever the command comes. Either
/// way one request goes to the store and the prompt gives the keys back.
pub open spec fn command_step(s: AppView, command: CommandView) -> (AppView, Seq<EffectView>) {
    match command {
        CommandView::Add(value) => match s.ui.page {
            PageView::Dips { scope_id, .. } => (
                defocused(s),
                seq![EffectView::Dispatch(RequestView::CreateDip { scope_id, value })],
            ),
            _ => (
                prompting(
                    s,
                    PromptView::Message {
                        value: text_add_unsupported(),
                        style: PromptStyle::Danger,
                    },
                ),
                Seq::empty(),
            ),
        },
        CommandView::DeleteDip(id) => (
            defocused(s),
            seq![
                EffectView::Dispatch(
                    RequestView::DeleteDip {
                        id,
                        scope_id: match s.ui.page {
                            PageView::Dips { scope_id, .. } => scope_id,
                            _ => None,
                        },
                    },
                ),
            ],
        ),
    }
}

/// The state after one event, and what is left to be done outside it.
pub open spec fn step(s: AppView, e: EventView) -> (AppView, Seq<EffectView>) {
    match e {
        EventView::QuitSignal => (AppView { mode: Mode::Quit, ..s }, Seq::empty()),
        EventView::UiTick => (s, Seq::empty()),
        EventView::Action(Action::MoveUp) => (
            AppView { ui: UiView { page: moved_up(s.ui.page), ..s.ui }, ..s },
            Seq::empty(),
        ),
        EventView::Action(Action::MoveDown) => (
            AppView { ui: UiView { page: moved_down(s.ui.page), ..s.ui }, ..s },
            Seq::empty(),
        ),
        EventView::Action(Action::SwitchFocus) => (
            AppView { ui: UiView { page: switched(s.ui.page), ..s.ui }, ..s },
            Seq::empty(),
        ),
        EventView::Prompt(e) => prompt_step(s, e),
        EventView::Command(command) => command_step(s, command),
        EventView::Nav(target) => (
            AppView { ui: navigated(s.ui, target), ..s },
            dispatching(fetch_request(initial_page(target))),
        ),
        EventView::NavBack => match s.ui.back_page {
            Some(target) => (
                AppView { ui: navigated_back(s.ui, target), ..s },
                dispatching(fetch_request(initial_page(target))),
            ),
            None => (s, Seq::empty()),
        },
        EventView::LoadData(payload) => (loaded(s, payload), Seq::empty()),
        EventView::RefetchData(_) => (s, dispatching(fetch_request(s.ui.page))),
    }
}

/// Puts fetched notes under their identity and lists the identities in
/// the order of the rows.
fn index_dips(items: Vec<DipRowFull>) -> (r: (HashMap<Uid, DipRowFull>, Vec<Uid>))
    ensures
        r.0@.map_values(|row: DipRowFull| row@) == by_id(items.deep_view(), dip_id()),
        r.1@ == ids_in_order(items.deep_view(), dip_id()),
{
    broadcast use vstd::std_specs::hash::group_hash_axioms;

    let ghost rows = items.deep_view();
    let ghost view_of = |row: DipRowFull| row@;
    let mut map: HashMap<Uid, DipRowFull> = HashMap::new();
    let mut ids: Vec<Uid> = Vec::new();
    assert(map@.map_values(view_of) =~= by_id(rows.take(0), dip_id()));
    for row in it: items
        invariant
            rows == items.deep_view(),
            it.seq() == items@,
            view_of == (|row: DipRowFull| row@),
            map@.map_values(view_of) == by_id(rows.take(it.index() as int), dip_id()),
            ids@ == ids_in_order(rows.take(it.index() as int), dip_id()),
    {
        let ghost n = it.index() as int;
        proof {
            lemma_ids_in_order(rows.take(n), dip_id());
            assert(rows.take(n + 1).drop_last() =~= rows.take(n));
            assert(rows.take(n + 1).last() == row@);
        }
        let id = row.id;
        let ghost before = map@;
        assert(before.contains_key(id) <==> before.map_values(view_of).contains_key(id));
        if !map.contains_key(&id) {
            ids.push(id);
        }
        map.insert(id, row);
        assert(map@.map_values(view_of) =~= before.map_values(view_of).insert(id, row@));
    }
    assert(rows.take(items@.len() as int) =~= rows);
    (map, ids)
}

/// Puts fetched scopes under their identity and lists the identities in
/// the order of the rows.
fn index_scopes(items: Vec<DirContext>) -> (r: (HashMap<Uid, DirContext>, Vec<Uid>))
    ensures
        r.0@.map_values(|scope: DirContext| scope@) == by_id(items.deep_view(), scope_id()),
        r.1@ == ids_in_order(items.deep_view(), scope_id()),
{
    broadcast use vstd::std_specs::hash::group_hash_axioms;

    let ghost rows = items.deep_view();
    let ghost view_of = |scope: DirContext| scope@;
    let mut map: HashMap<Uid, DirContext> = HashMap::new();
    let mut ids: Vec<Uid> = Vec::new();
    assert(map@.map_values(view_of) =~= by_id(rows.take(0), scope_id()));
    for row in it: items
        invariant
            rows == items.deep_view(),
            it.seq() == items@,
            view_of == (|scope: DirContext| scope@),
            map@.map_values(view_of) == by_id(rows.take(it.index() as int), scope_id()),
            ids@ == ids_in_order(rows.take(it.index() as int), scope_id()),
    {
        let ghost n = it.index() as int;
        proof {
            lemma_ids_in_order(rows.take(n), scope_id());
            assert(rows.take(n + 1).drop_last() =~= rows.take(n));
            assert(rows.take(n + 1).last() == row@);
        }
        let id = row.id;
        let ghost before = map@;
        assert(before.contains_key(id) <==> before.map_values(view_of).contains_key(id));
        if !map.contains_key(&id) {
            ids.push(id);
        }
        map.insert(id, row);
        assert(map@.map_values(view_of) =~= before.map_values(view_of).insert(id, row@));
    }
    assert(rows.take(items@.len() as int) =~= rows);
    (map, ids)
}

impl PageState {
    /// The fetch that fills this page, if it is a page that lists anything.
    pub fn fetch_data(&self) -> (request: Option<Request>)
        ensures
            request.deep_view() == fetch_request(self@),
    {
        match self {
            PageState::Dips { scope_id, .. } => Some(
                Request::FetchDips(DipsFilter::new().with_scope_id(*scope_id)),
            ),
            PageState::Scopes { .. } => Some(Request::FetchScopes(ScopesFilter::new())),
            PageState::Splash => None,
            PageState::Help => None,
        }
    }

    /// The fetch that a search for `text` makes on this page.
    pub fn search_data(&self, text: &str) -> (request: Option<Request>)
        ensures
            request.deep_view() == search_request(self@, text@),
    {
        match self {
            PageState::Dips { scope_id, .. } => Some(
                Request::FetchDips(DipsFilter::new().with_scope_id(*scope_id).with_search(text)),
            ),
            PageState::Scopes { .. } => Some(
                Request::FetchScopes(ScopesFilter::new().with_search(text)),
            ),
            PageState::Splash => None,
            PageState::Help => None,
        }
    }
}

/// A request, if there is one, as the only effect.
fn dispatch(request: Option<Request>) -> (effects: Vec<Effect>)
    ensures
        effects.deep_view() == dispatching(request.deep_view()),
{
    let mut effects: Vec<Effect> = Vec::new();
    match request {
        Some(request) => {
            effects.push(Effect::Dispatch(request));
            assert(effects.deep_view() =~= seq![EffectView::Dispatch(request@)]);
        },
        None => {
            assert(effects.deep_view() =~= Seq::empty());
        },
    }
    effects
}

/// No effect at all.
fn nothing() -> (effects: Vec<Effect>)
    ensures
        effects.deep_view() == Seq::<EffectView>::empty(),
{
    let effects: Vec<Effect> = Vec::new();
    assert(effects.deep_view() =~= Seq::empty());
    effects
}

/// Carries out the command to add a note with the given value. On a page
/// of notes the prompt gives the keys back and the request to create the
/// note in the scope of the page is returned; on another page the prompt
/// complains.
pub fn handle_add_command(state: &mut UiState, value: String) -> (request: Option<Request>)
    ensures
        match old(state)@.page {
            PageView::Dips { scope_id, .. } => {
                &&& request.deep_view() == Some(RequestView::CreateDip { scope_id, value: value@ })
                &&& final(state)@ == (UiView {
                    event_focus: EventFocusMode::Page,
                    prompt: PromptView::Default,
                    ..old(state)@
                })
            },
            _ => {
                &&& request is None
                &&& final(state)@ == (UiView {
                    prompt: PromptView::Message {
                        value: text_add_unsupported(),
                        style: PromptStyle::Danger,
                    },
                    ..old(state)@
                })
            },
        },
{
    match &state.page {
        PageState::Dips { scope_id, .. } => {
            let scope_id = *scope_id;
            state.event_focus = EventFocusMode::Page;
            state.prompt.activate_default_state();
            Some(Request::CreateDip { scope_id, value })
        },
        _ => {
            state.prompt.set_error("\"add\" command not supported for this view");
            None
        },
    }
}

/// Carries out the command to delete the note `id`: the prompt gives the
/// keys back, and the request to delete the note is returned, together
/// with the scope of the page if it is a page of notes.
pub fn handle_delete_dip_command(state: &mut UiState, id: Uid) -> (request: Request)
    ensures
        request@ == (RequestView::DeleteDip {
            id,
            scope_id: match old(state)@.page {
                PageView::Dips { scope_id, .. } => scope_id,
                _ => None,
            },
        }),
        final(state)@ == (UiView {
            event_focus: EventFocusMode::Page,
            prompt: PromptView::Default,
            ..old(state)@
        }),
{
    let scope_id = match &state.page {
        PageState::Dips { scope_id, .. } => *scope_id,
        _ => None,
    };
    state.event_focus = EventFocusMode::Page;
    state.prompt.activate_default_state();
    Request::DeleteDip { id, scope_id }
}

impl AppState {
    /// The state a session starts in.
    pub fn new() -> (state: Self)
        ensures
            state@ == initial_state(),
            state@.wf(),
    {
        Self { mode: Mode::Running, ui: UiState::default(), data: DataState::default() }
    }

    /// Whether the session goes on.
    pub fn is_running(&self) -> (r: bool)
        ensures
            r == (self@.mode == Mode::Running),
    {
        self.mode == Mode::Running
    }

    /// Takes in the notes fetched for the scope `scope_id`.
    pub fn load_dips_page(&mut self, scope_id: Option<Uid>, items: Vec<DipRowFull>)
        ensures
            final(self)@ == loaded(
                old(self)@,
                DataPayloadView::Dips { scope_id, items: items.deep_view() },
            ),
    {
        match &mut self.ui.page {
            PageState::Dips { scope_id: shown, index, items: listed, .. } => {
                if *shown == scope_id {
                    let (map, ids) = index_dips(items);
                    self.data.dips = map;
                    *listed = ids;
                    *index = 0;
                }
            },
            _ => {},
        }
    }

    /// Takes in fetched scopes.
    pub fn load_scopes_page(&mut self, items: Vec<DirContext>)
        ensures
            final(self)@ == loaded(old(self)@, DataPayloadView::Scopes(items.deep_view())),
    {
        let (map, ids) = index_scopes(items);
        self.data.scopes = map;
        match &mut self.ui.page {
            PageState::Scopes { index, items: listed, .. } => {
                *listed = ids;
                *index = 0;
            },
            _ => {},
        }
    }

    /// Handles what happened to the prompt.
    fn apply_prompt(&mut self, event: PromptEvent) -> (effects: Vec<Effect>)
        ensures
            final(self)@ == prompt_step(old(self)@, event@).0,
            effects.deep_view() == prompt_step(old(self)@, event@).1,
    {
        match event {
            PromptEvent::Focus => {
                self.ui.event_focus = EventFocusMode::Prompt;
                self.ui.prompt.activate_input_state();
                nothing()
            },
            PromptEvent::Defocus => {
                self.ui.event_focus = EventFocusMode::Page;
                self.ui.prompt.activate_default_state();
                nothing()
            },
            PromptEvent::Search(_) => {
                self.ui.event_focus = EventFocusMode::Prompt;
                self.ui.prompt.activate_search_state();
                nothing()
            },
            PromptEvent::Input(c) => {
                if self.ui.prompt.set_input(c) {
                    self.live_search()
                } else {
                    self.ui.prompt.set_error("Can not type in this mode");
                    nothing()
                }
            },
            PromptEvent::Confirm(command) => {
                self.ui.event_focus = EventFocusMode::Prompt;
                self.ui.prompt.activate_confirm_state(command);
                nothing()
            },
            PromptEvent::InputBackspace => {
                self.ui.prompt.set_input_backspace();
                self.live_search()
            },
            PromptEvent::Commit => {
                match self.ui.prompt.handle_commit() {
                    Some(command) => {
                        self.ui.event_focus = EventFocusMode::Page;
                        self.ui.prompt.activate_default_state();
                        let mut effects: Vec<Effect> = Vec::new();
                        effects.push(Effect::Emit(Event::Command(command)));
                        assert(effects.deep_view() =~= seq![
                            EffectView::Emit(EventView::Command(command@)),
                        ]);
                        effects
                    },
                    None => nothing(),
                }
            },
            PromptEvent::Message { msg, style } => {
                self.ui.prompt.handle_message(msg, style);
                nothing()
            },
        }
    }

    /// The fetch that typing into a search makes.
    fn live_search(&self) -> (effects: Vec<Effect>)
        ensures
            effects.deep_view() == dispatching(live_search(self@.ui.page, self@.ui.prompt)),
    {
        match &self.ui.prompt {
            PromptState::Search { input, state: SearchState::Active } => dispatch(
                self.ui.page.search_data(input.as_str()),
            ),
            _ => nothing(),
        }
    }

    /// Handles a command.
    fn apply_command(&mut self, command: Command) -> (effects: Vec<Effect>)
        ensures
            final(self)@ == command_step(old(self)@, command@).0,
            effects.deep_view() == command_step(old(self)@, command@).1,
    {
        match command {
            Command::Add(value) => {
                let request = handle_add_command(&mut self.ui, value);
                let effects = dispatch(request);
                effects
            },
            Command::DeleteDip(id) => {
                let request = handle_delete_dip_command(&mut self.ui, id);
                dispatch(Some(request))
            },
        }
    }

    /// Handles one event: changes the state, and returns what is left to
    /// be done outside it, in the order in which it is to be done.
    pub fn apply(&mut self, event: Event) -> (effects: Vec<Effect>)
        ensures
            final(self)@ == step(old(self)@, event@).0,
            effects.deep_view() == step(old(self)@, event@).1,
            old(self)@.wf() ==> final(self)@.wf(),
    {
        proof {
            if self@.wf() {
                lemma_step_keeps_wf(self@, event@);
            }
        }
        match event {
            Event::QuitSignal => {
                self.mode = Mode::Quit;
                nothing()
            },
            Event::LoadData(payload) => {
                match payload {
                    DataPayload::Dips { scope_id, items } => self.load_dips_page(scope_id, items),
                    DataPayload::Scopes(items) => self.load_scopes_page(items),
                }
                nothing()
            },
            Event::RefetchData(_) => dispatch(self.ui.page.fetch_data()),
            Event::UiTick => nothing(),
            Event::Action(action) => {
                match action {
                    Action::MoveUp => self.ui.page.action_move_up(),
                    Action::MoveDown => self.ui.page.action_move_down(),
                    Action::SwitchFocus => self.ui.page.action_switch_focus(),
                }
                nothing()
            },
            Event::Prompt(event) => self.apply_prompt(event),
            Event::Command(command) => self.apply_command(command),
            Event::Nav(page) => {
                self.ui.navigate(&page);
                dispatch(self.ui.page.fetch_data())
            },
            Event::NavBack => match self.ui.back_page {
                Some(page) => {
                    self.ui.navigate_back(&page);
                    dispatch(self.ui.page.fetch_data())
                },
                None => nothing(),
            },
        }
    }
}

/// Every event leaves a sound state sound. In particular the cursor of a
/// list never leaves the list: it stands on one of its items, or on zero
/// where the list is empty.
pub proof fn lemma_step_keeps_wf(s: AppView, e: EventView)
    requires
        s.wf(),
    ensures
        step(s, e).0.wf(),
{
    match e {
        EventView::LoadData(DataPayloadView::Dips { scope_id, items }) => {
            lemma_ids_in_order(items, dip_id());
            let ids = ids_in_order(items, dip_id());
            assert forall|i: int| 0 <= i < ids.len() implies by_id(items, dip_id()).contains_key(
                #[trigger] ids[i],
            ) by {
                assert(ids.contains(ids[i]));
            }
        },
        EventView::LoadData(DataPayloadView::Scopes(items)) => {
            lemma_ids_in_order(items, scope_id());
            let ids = ids_in_order(items, scope_id());
            assert forall|i: int| 0 <= i < ids.len() implies by_id(items, scope_id()).contains_key(
                #[trigger] ids[i],
            ) by {
                assert(ids.contains(ids[i]));
            }
        },
        _ => {},
    }
}

/// The state after a run of events.
pub open spec fn run(s: AppView, events: Seq<EventView>) -> AppView
    decreases events.len(),
{
    if events.len() == 0 {
        s
    } else {
        step(run(s, events.drop_last()), events.last()).0
    }
}

/// What a run of events leaves to be done outside the state, in the order
/// in which it is to be done.
pub open spec fn run_effects(s: AppView, events: Seq<EventView>) -> Seq<EffectView>
    decreases events.len(),
{
    if events.len() == 0 {
        Seq::empty()
    } else {
        run_effects(s, events.drop_last()) + step(run(s, events.drop_last()), events.last()).1
    }
}

/// Handles a run of events, one at a time and in the order given, and
/// returns what is left to be done outside the state, in the order in which
/// it is to be done.
pub fn exec(state: &mut AppState, events: Vec<Event>) -> (effects: Vec<Effect>)
    ensures
        final(state)@ == run(old(state)@, events.deep_view()),
        effects.deep_view() == run_effects(old(state)@, events.deep_view()),
        old(state)@.wf() ==> final(state)@.wf(),
{
    let ghost start = state@;
    let ghost all = events.deep_view();
    let mut effects: Vec<Effect> = Vec::new();
    assert(effects.deep_view() =~= run_effects(start, all.take(0)));
    for event in it: events
        invariant
            all == events.deep_view(),
            it.seq() == events@,
            state@ == run(start, all.take(it.index() as int)),
            effects.deep_view() == run_effects(start, all.take(it.index() as int)),
            start.wf() ==> state@.wf(),
    {
        let ghost n = it.index() as int;
        proof {
            assert(all.take(n + 1).drop_last() =~= all.take(n));
            assert(all.take(n + 1).last() == event@);
        }
        let ghost so_far = effects.deep_view();
        let mut more = state.apply(event);
        let ghost added = more.deep_view();
        effects.append(&mut more);
        assert(effects.deep_view() =~= so_far + added);
    }
    assert(all.take(events@.len() as int) =~= all);
    effects
}

/// Whatever happens in a session, its state is sound: the cursor of the
/// list that is shown stands on an item of the list, or on zero where the
/// list is empty.
pub proof fn lemma_every_state_is_sound(events: Seq<EventView>)
    ensures
        run(initial_state(), events).wf(),
    decreases events.len(),
{
    if events.len() > 0 {
        lemma_every_state_is_sound(events.drop_last());
        lemma_step_keeps_wf(run(initial_state(), events.drop_last()), events.last());
    }
}

/// The cursor does not move past the ends of a list. Asked to move up
/// from the first line, or down from the last, it leaves the page exactly as
/// it is; so it does in an empty list, whichever way it is asked to move.
/// Wherever it is asked to move, it stays in range and the list stays the
/// same.
pub proof fn lemma_cursor_stops_at_ends(page: PageView)
    requires
        match page {
            PageView::Dips { index, items, focus, .. } => focus == DipsFocus::List
                && cursor_in_range(index, items.len()),
            PageView::Scopes { index, items, focus } => focus == ScopesFocus::List
                && cursor_in_range(index, items.len()),
            _ => false,
        },
    ensures
        ({
            let (index, items) = match page {
                PageView::Dips { index, items, .. } => (index, items),
                PageView::Scopes { index, items, .. } => (index, items),
                _ => (0usize, Seq::<Uid>::empty()),
            };
            &&& index == 0 ==> moved_up(page) == page
            &&& index + 1 >= items.len() ==> moved_down(page) == page
            &&& items.len() == 0 ==> moved_up(page) == page && moved_down(page) == page
            &&& page_type_of(moved_up(page)) == page_type_of(page)
            &&& page_type_of(moved_down(page)) == page_type_of(page)
        }),
{
}

/// The keys that move the cursor change nothing but the place of the
/// cursor: the list, the scope and the rest of the state stay as they are,
/// and nothing is asked of the store.
pub proof fn lemma_cursor_moves_only_the_cursor(s: AppView, action: Action)
    ensures
        ({
            let after = step(s, EventView::Action(action));
            &&& after.1.len() == 0
            &&& after.0.data == s.data
            &&& after.0.mode == s.mode
            &&& after.0.ui.prompt == s.ui.prompt
            &&& after.0.ui.event_focus == s.ui.event_focus
            &&& after.0.ui.back_page == s.ui.back_page
            &&& page_type_of(after.0.ui.page) == page_type_of(s.ui.page)
            &&& match (s.ui.page, after.0.ui.page) {
                (PageView::Dips { items, .. }, PageView::Dips { items: same, .. }) => same == items,
                (PageView::Scopes { items, .. }, PageView::Scopes { items: same, .. }) => same
                    == items,
                (before, after) => after == before,
            }
        }),
{
}

/// A question is answered with yes by the line `y` and by no other. Any
/// other line leaves the command undone and makes the prompt complain; the
/// line `y` has the command carried out once: the command is sent, and the
/// prompt rests, so that submitting again sends nothing.
pub proof fn lemma_confirm_needs_y(s: AppView, input: Seq<char>, command: CommandView)
    requires
        s.ui.prompt == (PromptView::Confirm { input, command }),
    ensures
        ({
            let after = step(s, EventView::Prompt(PromptEventView::Commit));
            let again = step(after.0, EventView::Prompt(PromptEventView::Commit));
            &&& input != "y"@ ==> after.1.len() == 0 && after.0.ui.prompt == (PromptView::Message {
                value: text_only_y(),
                style: PromptStyle::Danger,
            })
            &&& input == "y"@ ==> after.1 == seq![EffectView::Emit(EventView::Command(command))]
                && after.0.ui.prompt == PromptView::Default
            &&& again.1.len() == 0
        }),
{
}

/// A command to delete a note sends exactly one request to the store, the
/// request to delete that note.
pub proof fn lemma_delete_is_requested_once(s: AppView, id: Uid)
    ensures
        ({
            let after = step(s, EventView::Command(CommandView::DeleteDip(id)));
            &&& after.1.len() == 1
            &&& after.1[0] matches EffectView::Dispatch(RequestView::DeleteDip { id: asked, .. })
                && asked == id
            &&& after.0.ui.prompt == PromptView::Default
            &&& after.0.ui.event_focus == EventFocusMode::Page
        }),
{
}

/// While a search follows the typing on a page of notes, every character
/// that is typed and every character that is rubbed out has the notes of
/// the scope of the page fetched anew, once, with the text as it is then;
/// the search goes on following, and nothing else changes.
pub proof fn lemma_typing_searches(s: AppView, c: char)
    requires
        s.ui.prompt is Search,
        s.ui.prompt->Search_state == SearchState::Active,
        s.ui.page is Dips,
    ensures
        ({
            let scope_id = s.ui.page->Dips_scope_id;
            let text = s.ui.prompt->Search_input;
            let typed = step(s, EventView::Prompt(PromptEventView::Input(c)));
            let erased = step(s, EventView::Prompt(PromptEventView::InputBackspace));
            &&& typed.1 == seq![
                EffectView::Dispatch(
                    RequestView::FetchDips(DipsFilterView { scope_id, search: Some(text.push(c)) }),
                ),
            ]
            &&& typed.0 == prompting(
                s,
                PromptView::Search { input: text.push(c), state: SearchState::Active },
            )
            &&& erased.1 == seq![
                EffectView::Dispatch(
                    RequestView::FetchDips(
                        DipsFilterView { scope_id, search: Some(without_last(text)) },
                    ),
                ),
            ]
            &&& erased.0 == prompting(
                s,
                PromptView::Search { input: without_last(text), state: SearchState::Active },
            )
        }),
{
}

/// Two characters typed into a search that follows the typing give two
/// fetches, the first with the text and the first character, the second
/// with both.
pub proof fn lemma_typing_twice_searches_twice(s: AppView, first: char, second: char)
    requires
        s.ui.prompt is Search,
        s.ui.prompt->Search_state == SearchState::Active,
        s.ui.page is Dips,
    ensures
        ({
            let scope_id = s.ui.page->Dips_scope_id;
            let text = s.ui.prompt->Search_input;
            let one = step(s, EventView::Prompt(PromptEventView::Input(first)));
            let two = step(one.0, EventView::Prompt(PromptEventView::Input(second)));
            &&& one.1 == seq![
                EffectView::Dispatch(
                    RequestView::FetchDips(
                        DipsFilterView { scope_id, search: Some(text.push(first)) },
                    ),
                ),
            ]
            &&& two.1 == seq![
                EffectView::Dispatch(
                    RequestView::FetchDips(
                        DipsFilterView { scope_id, search: Some(text.push(first).push(second)) },
                    ),
                ),
            ]
            &&& two.0.ui.prompt == (PromptView::Search {
                input: text.push(first).push(second),
                state: SearchState::Active,
            })
            &&& two.0 == run(
                s,
                seq![
                    EventView::Prompt(PromptEventView::Input(first)),
                    EventView::Prompt(PromptEventView::Input(second)),
                ],
            )
            &&& one.1 + two.1 == run_effects(
                s,
                seq![
                    EventView::Prompt(PromptEventView::Input(first)),
                    EventView::Prompt(PromptEventView::Input(second)),
                ],
            )
        }),
{
    lemma_typing_searches(s, first);
    let one = step(s, EventView::Prompt(PromptEventView::Input(first)));
    lemma_typing_searches(one.0, second);
    let events = seq![
        EventView::Prompt(PromptEventView::Input(first)),
        EventView::Prompt(PromptEventView::Input(second)),
    ];
    assert(events.drop_last() =~= seq![EventView::Prompt(PromptEventView::Input(first))]);
    assert(events.drop_last().drop_last() =~= Seq::<EventView>::empty());
    reveal_with_fuel(run, 3);
    reveal_with_fuel(run_effects, 3);
    assert(run_effects(s, events) =~= step(s, events[0]).1 + step(one.0, events[1]).1);
}

/// Taking in the same answer twice is the same as taking it in once, and
/// notes that come back for a page that is not shown any more change
/// nothing.
pub proof fn lemma_late_answers_are_harmless(s: AppView, payload: DataPayloadView)
    ensures
        loaded(loaded(s, payload), payload) == loaded(s, payload),
        payload matches DataPayloadView::Dips { scope_id, .. } && page_type_of(s.ui.page)
            != (PageType::Dips { scope_id }) ==> loaded(s, payload) == s,
{
}

/// Going back without a page to go back to changes nothing and asks for
/// nothing; going back to a page forgets that page.
pub proof fn lemma_back_is_one_level(s: AppView)
    ensures
        s.ui.back_page is None ==> step(s, EventView::NavBack) == (s, Seq::<EffectView>::empty()),
        s.ui.back_page is Some ==> step(s, EventView::NavBack).0.ui.back_page is None,
{
}

} // verus!
