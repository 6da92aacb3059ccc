//! The application's state machine: the states, the events that move between
//! them, the rule table, and the bounded history of visited states.
use vstd::prelude::*;
use vstd::rwlock::{RwLock, RwLockPredicate};
use std::sync::Arc;
use crate::string_map::StringMap;

verus! {

/// The states the application can be in.
#[derive(Debug, PartialEq)]
pub enum AppState {
    Initializing,
    Running,
    Loading,
    Settings,
    AddingEntry,
    EditingEntry,
    TagManager,
    CollectionManager,
    ImportExport,
    Error(String),
    Exiting,
}

/// The events that drive the state machine.
#[derive(Debug, PartialEq)]
pub enum StateEvent {
    InitializationComplete,
    EnterSettings,
    ExitSettings,
    StartAddingEntry,
    FinishAddingEntry,
    CancelAddingEntry,
    StartEditingEntry,
    FinishEditingEntry,
    CancelEditingEntry,
    EnterTagManager,
    ExitTagManager,
    EnterCollectionManager,
    ExitCollectionManager,
    EnterImportExport,
    ExitImportExport,
    StartLoading,
    FinishLoading,
    Error(String),
    RecoverFromError,
    Exit,
}

/// The variant of a state, as a number; two states are "the same state" for
/// the rule table when their variants agree (the message of `Error` is ignored).
pub open spec fn state_kind(s: AppState) -> int {
    match s {
        AppState::Initializing => 0,
        AppState::Running => 1,
        AppState::Loading => 2,
        AppState::Settings => 3,
        AppState::AddingEntry => 4,
        AppState::EditingEntry => 5,
        AppState::TagManager => 6,
        AppState::CollectionManager => 7,
        AppState::ImportExport => 8,
        AppState::Error(_) => 9,
        AppState::Exiting => 10,
    }
}

/// The variant of an event, as a number (the message of `Error` is ignored).
pub open spec fn event_kind(e: StateEvent) -> int {
    match e {
        StateEvent::InitializationComplete => 0,
        StateEvent::EnterSettings => 1,
        StateEvent::ExitSettings => 2,
        StateEvent::StartAddingEntry => 3,
        StateEvent::FinishAddingEntry => 4,
        StateEvent::CancelAddingEntry => 5,
        StateEvent::StartEditingEntry => 6,
        StateEvent::FinishEditingEntry => 7,
        StateEvent::CancelEditingEntry => 8,
        StateEvent::EnterTagManager => 9,
        StateEvent::ExitTagManager => 10,
        StateEvent::EnterCollectionManager => 11,
        StateEvent::ExitCollectionManager => 12,
        StateEvent::EnterImportExport => 13,
        StateEvent::ExitImportExport => 14,
        StateEvent::StartLoading => 15,
        StateEvent::FinishLoading => 16,
        StateEvent::Error(_) => 17,
        StateEvent::RecoverFromError => 18,
        StateEvent::Exit => 19,
    }
}

/// Where an event leads from a state, or `None` when the machine refuses it.
/// An `Error` event is accepted in every state and carries its message into
/// the `Error` state; every other event follows the transition rules.
pub open spec fn next_state(s: AppState, e: StateEvent) -> Option<AppState> {
    match e {
        StateEvent::Error(msg) => Some(AppState::Error(msg)),
        _ => match (s, e) {
            (AppState::Initializing, StateEvent::InitializationComplete) => Some(AppState::Running),
            (AppState::Running, StateEvent::EnterSettings) => Some(AppState::Settings),
            (AppState::Running, StateEvent::StartAddingEntry) => Some(AppState::AddingEntry),
            (AppState::Running, StateEvent::StartEditingEntry) => Some(AppState::EditingEntry),
            (AppState::Running, StateEvent::EnterTagManager) => Some(AppState::TagManager),
            (AppState::Running, StateEvent::EnterCollectionManager) => Some(
                AppState::CollectionManager,
            ),
            (AppState::Running, StateEvent::EnterImportExport) => Some(AppState::ImportExport),
            (AppState::Running, StateEvent::StartLoading) => Some(AppState::Loading),
            (AppState::Running, StateEvent::Exit) => Some(AppState::Exiting),
            (AppState::Settings, StateEvent::ExitSettings) => Some(AppState::Running),
            (AppState::AddingEntry, StateEvent::FinishAddingEntry) => Some(AppState::Running),
            (AppState::AddingEntry, StateEvent::CancelAddingEntry) => Some(AppState::Running),
            (AppState::EditingEntry, StateEvent::FinishEditingEntry) => Some(AppState::Running),
            (AppState::EditingEntry, StateEvent::CancelEditingEntry) => Some(AppState::Running),
            (AppState::TagManager, StateEvent::ExitTagManager) => Some(AppState::Running),
            (AppState::CollectionManager, StateEvent::ExitCollectionManager) => Some(
                AppState::Running,
            ),
            (AppState::ImportExport, StateEvent::ExitImportExport) => Some(AppState::Running),
            (AppState::Loading, StateEvent::FinishLoading) => Some(AppState::Running),
            (AppState::Error(_), StateEvent::RecoverFromError) => Some(AppState::Running),
            (AppState::Error(_), StateEvent::Exit) => Some(AppState::Exiting),
            _ => None,
        },
    }
}

/// The most states the history keeps.
pub const MAX_HISTORY_SIZE: usize = 50;

/// The history after leaving `old`: `old` is appended, and the oldest entry
/// is dropped once the history would exceed its bound.
pub open spec fn pushed_history(h: Seq<AppState>, old: AppState) -> Seq<AppState> {
    if h.push(old).len() > MAX_HISTORY_SIZE {
        h.push(old).drop_first()
    } else {
        h.push(old)
    }
}

/// The rule table as kinds: (from, to, event), in the order in which the
/// machine searches it.
spec fn rule(i: int) -> (int, int, int) {
    if i == 0 { (0, 1, 0) }
    else if i == 1 { (0, 9, 17) }
    else if i == 2 { (1, 3, 1) }
    else if i == 3 { (1, 4, 3) }
    else if i == 4 { (1, 5, 6) }
    else if i == 5 { (1, 6, 9) }
    else if i == 6 { (1, 7, 11) }
    else if i == 7 { (1, 8, 13) }
    else if i == 8 { (1, 2, 15) }
    else if i == 9 { (1, 10, 19) }
    else if i == 10 { (3, 1, 2) }
    else if i == 11 { (4, 1, 4) }
    else if i == 12 { (4, 1, 5) }
    else if i == 13 { (5, 1, 7) }
    else if i == 14 { (5, 1, 8) }
    else if i == 15 { (6, 1, 10) }
    else if i == 16 { (7, 1, 12) }
    else if i == 17 { (8, 1, 14) }
    else if i == 18 { (2, 1, 16) }
    else if i == 19 { (9, 1, 18) }
    else if i == 20 { (1, 9, 17) }
    else if i == 21 { (3, 9, 17) }
    else if i == 22 { (4, 9, 17) }
    else if i == 23 { (5, 9, 17) }
    else if i == 24 { (6, 9, 17) }
    else if i == 25 { (7, 9, 17) }
    else if i == 26 { (8, 9, 17) }
    else if i == 27 { (2, 9, 17) }
    else { (9, 10, 19) }
}

spec fn rule_count() -> int {
    29
}

/// The state without data whose kind is `k`.
spec fn plain_state(k: int) -> AppState {
    if k == 0 { AppState::Initializing }
    else if k == 1 { AppState::Running }
    else if k == 2 { AppState::Loading }
    else if k == 3 { AppState::Settings }
    else if k == 4 { AppState::AddingEntry }
    else if k == 5 { AppState::EditingEntry }
    else if k == 6 { AppState::TagManager }
    else if k == 7 { AppState::CollectionManager }
    else if k == 8 { AppState::ImportExport }
    else { AppState::Exiting }
}

/// A rule applies to a state and an event when their kinds match its own.
spec fn applies(i: int, s: AppState, e: StateEvent) -> bool {
    rule(i).0 == state_kind(s) && rule(i).2 == event_kind(e)
}

/// The first applicable rule gives `next_state`, for every event but `Error`.
proof fn lemma_rule_gives_next(i: int, s: AppState, e: StateEvent)
    requires
        0 <= i < rule_count(),
        applies(i, s, e),
        !(e is Error),
    ensures
        rule(i).1 != 9,
        next_state(s, e) == Some(plain_state(rule(i).1)),
{
}

/// When no rule applies, the machine refuses the event (but for `Error`).
proof fn lemma_no_rule_refuses(s: AppState, e: StateEvent)
    requires
        forall|i: int| 0 <= i < rule_count() ==> !#[trigger] applies(i, s, e),
        !(e is Error),
    ensures
        next_state(s, e) is None,
{
    assert(!applies(0, s, e));
    assert(!applies(2, s, e));
    assert(!applies(3, s, e));
    assert(!applies(4, s, e));
    assert(!applies(5, s, e));
    assert(!applies(6, s, e));
    assert(!applies(7, s, e));
    assert(!applies(8, s, e));
    assert(!applies(9, s, e));
    assert(!applies(10, s, e));
    assert(!applies(11, s, e));
    assert(!applies(12, s, e));
    assert(!applies(13, s, e));
    assert(!applies(14, s, e));
    assert(!applies(15, s, e));
    assert(!applies(16, s, e));
    assert(!applies(17, s, e));
    assert(!applies(18, s, e));
    assert(!applies(19, s, e));
    assert(!applies(28, s, e));
}

impl AppState {
    /// A copy of the state.
    pub fn duplicate(&self) -> (r: AppState)
        ensures
            r == *self,
    {
        match self {
            AppState::Initializing => AppState::Initializing,
            AppState::Running => AppState::Running,
            AppState::Loading => AppState::Loading,
            AppState::Settings => AppState::Settings,
            AppState::AddingEntry => AppState::AddingEntry,
            AppState::EditingEntry => AppState::EditingEntry,
            AppState::TagManager => AppState::TagManager,
            AppState::CollectionManager => AppState::CollectionManager,
            AppState::ImportExport => AppState::ImportExport,
            AppState::Error(m) => AppState::Error(m.clone()),
            AppState::Exiting => AppState::Exiting,
        }
    }

    /// The variant number of the state.
    pub fn kind(&self) -> (k: u8)
        ensures
            k as int == state_kind(*self),
    {
        match self {
            AppState::Initializing => 0,
            AppState::Running => 1,
            AppState::Loading => 2,
            AppState::Settings => 3,
            AppState::AddingEntry => 4,
            AppState::EditingEntry => 5,
            AppState::TagManager => 6,
            AppState::CollectionManager => 7,
            AppState::ImportExport => 8,
            AppState::Error(_) => 9,
            AppState::Exiting => 10,
        }
    }
}

impl Default for AppState {
    fn default() -> (r: AppState)
        ensures
            r == AppState::Initializing,
    {
        AppState::Initializing
    }
}

impl StateEvent {
    /// A copy of the event.
    pub fn duplicate(&self) -> (r: StateEvent)
        ensures
            r == *self,
    {
        match self {
            StateEvent::InitializationComplete => StateEvent::InitializationComplete,
            StateEvent::EnterSettings => StateEvent::EnterSettings,
            StateEvent::ExitSettings => StateEvent::ExitSettings,
            StateEvent::StartAddingEntry => StateEvent::StartAddingEntry,
            StateEvent::FinishAddingEntry => StateEvent::FinishAddingEntry,
            StateEvent::CancelAddingEntry => StateEvent::CancelAddingEntry,
            StateEvent::StartEditingEntry => StateEvent::StartEditingEntry,
            StateEvent::FinishEditingEntry => StateEvent::FinishEditingEntry,
            StateEvent::CancelEditingEntry => StateEvent::CancelEditingEntry,
            StateEvent::EnterTagManager => StateEvent::EnterTagManager,
            StateEvent::ExitTagManager => StateEvent::ExitTagManager,
            StateEvent::EnterCollectionManager => StateEvent::EnterCollectionManager,
            StateEvent::ExitCollectionManager => StateEvent::ExitCollectionManager,
            StateEvent::EnterImportExport => StateEvent::EnterImportExport,
            StateEvent::ExitImportExport => StateEvent::ExitImportExport,
            StateEvent::StartLoading => StateEvent::StartLoading,
            StateEvent::FinishLoading => StateEvent::FinishLoading,
            StateEvent::Error(m) => StateEvent::Error(m.clone()),
            StateEvent::RecoverFromError => StateEvent::RecoverFromError,
            StateEvent::Exit => StateEvent::Exit,
        }
    }

    /// The variant number of the event.
    pub fn kind(&self) -> (k: u8)
        ensures
            k as int == event_kind(*self),
    {
        match self {
            StateEvent::InitializationComplete => 0,
            StateEvent::EnterSettings => 1,
            StateEvent::ExitSettings => 2,
            StateEvent::StartAddingEntry => 3,
            StateEvent::FinishAddingEntry => 4,
            StateEvent::CancelAddingEntry => 5,
            StateEvent::StartEditingEntry => 6,
            StateEvent::FinishEditingEntry => 7,
            StateEvent::CancelEditingEntry => 8,
            StateEvent::EnterTagManager => 9,
            StateEvent::ExitTagManager => 10,
            StateEvent::EnterCollectionManager => 11,
            StateEvent::ExitCollectionManager => 12,
            StateEvent::EnterImportExport => 13,
            StateEvent::ExitImportExport => 14,
            StateEvent::StartLoading => 15,
            StateEvent::FinishLoading => 16,
            StateEvent::Error(_) => 17,
            StateEvent::RecoverFromError => 18,
            StateEvent::Exit => 19,
        }
    }
}


/// One rule of the machine: in state `from`, event `event` leads to `to`.
pub struct StateTransition {
    from: AppState,
    to: AppState,
    event: StateEvent,
}

impl View for StateTransition {
    type V = (AppState, AppState, StateEvent);

    closed spec fn view(&self) -> (AppState, AppState, StateEvent) {
        (self.from, self.to, self.event)
    }
}

impl StateTransition {
    pub fn new(from: AppState, to: AppState, event: StateEvent) -> (r: Self)
        ensures
            r@ == (from, to, event),
    {
        StateTransition { from, to, event }
    }
}

/// The transition at index `i` of a table agrees with rule `i`.
spec fn rule_holds(t: StateTransition, i: int) -> bool {
    &&& state_kind(t.from) == rule(i).0
    &&& event_kind(t.event) == rule(i).2
    &&& rule(i).1 != 9 ==> t.to == plain_state(rule(i).1)
}

/// The machine's transition rules are exactly the rule table.
spec fn table_ok(ts: Seq<StateTransition>) -> bool {
    &&& ts.len() == rule_count()
    &&& forall|i: int| 0 <= i < rule_count() ==> #[trigger] rule_holds(ts[i], i)
}

/// The state machine: the current and previous state, the rule table, and the
/// history of states it has left (oldest first, at most `MAX_HISTORY_SIZE`).
pub struct StateMachine {
    current_state: AppState,
    previous_state: Option<AppState>,
    transitions: Vec<StateTransition>,
    state_history: Vec<AppState>,
    max_history_size: usize,
}

impl StateMachine {
    #[verifier::type_invariant]
    spec fn wf(self) -> bool {
        &&& table_ok(self.transitions@)
        &&& self.max_history_size == MAX_HISTORY_SIZE
        &&& self.state_history@.len() <= MAX_HISTORY_SIZE
    }

    /// The current state.
    pub closed spec fn current(self) -> AppState {
        self.current_state
    }

    /// The state before the last transition, if there was one.
    pub closed spec fn previous(self) -> Option<AppState> {
        self.previous_state
    }

    /// The states the machine has left, oldest first.
    pub closed spec fn history(self) -> Seq<AppState> {
        self.state_history@
    }

    fn setup_transitions() -> (ts: Vec<StateTransition>)
        ensures
            table_ok(ts@),
    {
        let ts = vec![
            StateTransition::new(AppState::Initializing, AppState::Running, StateEvent::InitializationComplete),
            StateTransition::new(AppState::Initializing, AppState::Error("初始化失败".to_string()), StateEvent::Error("初始化失败".to_string())),
            StateTransition::new(AppState::Running, AppState::Settings, StateEvent::EnterSettings),
            StateTransition::new(AppState::Running, AppState::AddingEntry, StateEvent::StartAddingEntry),
            StateTransition::new(AppState::Running, AppState::EditingEntry, StateEvent::StartEditingEntry),
            StateTransition::new(AppState::Running, AppState::TagManager, StateEvent::EnterTagManager),
            StateTransition::new(AppState::Running, AppState::CollectionManager, StateEvent::EnterCollectionManager),
            StateTransition::new(AppState::Running, AppState::ImportExport, StateEvent::EnterImportExport),
            StateTransition::new(AppState::Running, AppState::Loading, StateEvent::StartLoading),
            StateTransition::new(AppState::Running, AppState::Exiting, StateEvent::Exit),
            StateTransition::new(AppState::Settings, AppState::Running, StateEvent::ExitSettings),
            StateTransition::new(AppState::AddingEntry, AppState::Running, StateEvent::FinishAddingEntry),
            StateTransition::new(AppState::AddingEntry, AppState::Running, StateEvent::CancelAddingEntry),
            StateTransition::new(AppState::EditingEntry, AppState::Running, StateEvent::FinishEditingEntry),
            StateTransition::new(AppState::EditingEntry, AppState::Running, StateEvent::CancelEditingEntry),
            StateTransition::new(AppState::TagManager, AppState::Running, StateEvent::ExitTagManager),
            StateTransition::new(AppState::CollectionManager, AppState::Running, StateEvent::ExitCollectionManager),
            StateTransition::new(AppState::ImportExport, AppState::Running, StateEvent::ExitImportExport),
            StateTransition::new(AppState::Loading, AppState::Running, StateEvent::FinishLoading),
            StateTransition::new(AppState::Error(String::new()), AppState::Running, StateEvent::RecoverFromError),
            StateTransition::new(AppState::Running, AppState::Error(String::new()), StateEvent::Error(String::new())),
            StateTransition::new(AppState::Settings, AppState::Error(String::new()), StateEvent::Error(String::new())),
            StateTransition::new(AppState::AddingEntry, AppState::Error(String::new()), StateEvent::Error(String::new())),
            StateTransition::new(AppState::EditingEntry, AppState::Error(String::new()), StateEvent::Error(String::new())),
            StateTransition::new(AppState::TagManager, AppState::Error(String::new()), StateEvent::Error(String::new())),
            StateTransition::new(AppState::CollectionManager, AppState::Error(String::new()), StateEvent::Error(String::new())),
            StateTransition::new(AppState::ImportExport, AppState::Error(String::new()), StateEvent::Error(String::new())),
            StateTransition::new(AppState::Loading, AppState::Error(String::new()), StateEvent::Error(String::new())),
            StateTransition::new(AppState::Error(String::new()), AppState::Exiting, StateEvent::Exit),
        ];
        assert forall|i: int| 0 <= i < rule_count() implies #[trigger] rule_holds(ts@[i], i) by {
            if i == 0 {} else if i == 1 {} else if i == 2 {} else if i == 3 {} else if i == 4 {}
            else if i == 5 {} else if i == 6 {} else if i == 7 {} else if i == 8 {} else if i == 9 {}
            else if i == 10 {} else if i == 11 {} else if i == 12 {} else if i == 13 {} else if i == 14 {}
            else if i == 15 {} else if i == 16 {} else if i == 17 {} else if i == 18 {} else if i == 19 {}
            else if i == 20 {} else if i == 21 {} else if i == 22 {} else if i == 23 {} else if i == 24 {}
            else if i == 25 {} else if i == 26 {} else if i == 27 {} else {}
        }
        ts
    }

    /// A machine in `Initializing`, with no previous state and no history.
    pub fn new() -> (m: Self)
        ensures
            m.current() == AppState::Initializing,
            m.previous() is None,
            m.history().len() == 0,
    {
        StateMachine {
            current_state: AppState::Initializing,
            previous_state: None,
            transitions: Self::setup_transitions(),
            state_history: Vec::new(),
            max_history_size: MAX_HISTORY_SIZE,
        }
    }
}

/// How `Debug` writes a string: quoted, with its special characters escaped.
pub uninterp spec fn debug_text(s: Seq<char>) -> Seq<char>;

/// `format!("{:?}", s)` on a `String`, whose `Debug` is that of `str`; the
/// text is named by `debug_text`, not spelled out.
#[verifier::external_body]
fn debug_of_string(s: &String) -> (r: String)
    ensures
        r@ == debug_text(s@),
{
    format!("{:?}", s)
}

/// A variant with a message, as the derived `Debug` writes it: the variant's
/// name, then the message's `Debug` in brackets.
pub open spec fn debug_with_message(msg: Seq<char>) -> Seq<char> {
    "Error("@ + debug_text(msg) + ")"@
}

/// A state as its derived `Debug` writes it.
pub open spec fn state_debug(s: AppState) -> Seq<char> {
    match s {
        AppState::Initializing => "Initializing"@,
        AppState::Running => "Running"@,
        AppState::Loading => "Loading"@,
        AppState::Settings => "Settings"@,
        AppState::AddingEntry => "AddingEntry"@,
        AppState::EditingEntry => "EditingEntry"@,
        AppState::TagManager => "TagManager"@,
        AppState::CollectionManager => "CollectionManager"@,
        AppState::ImportExport => "ImportExport"@,
        AppState::Error(msg) => debug_with_message(msg@),
        AppState::Exiting => "Exiting"@,
    }
}

/// An event as its derived `Debug` writes it.
pub open spec fn event_debug(e: StateEvent) -> Seq<char> {
    match e {
        StateEvent::InitializationComplete => "InitializationComplete"@,
        StateEvent::EnterSettings => "EnterSettings"@,
        StateEvent::ExitSettings => "ExitSettings"@,
        StateEvent::StartAddingEntry => "StartAddingEntry"@,
        StateEvent::FinishAddingEntry => "FinishAddingEntry"@,
        StateEvent::CancelAddingEntry => "CancelAddingEntry"@,
        StateEvent::StartEditingEntry => "StartEditingEntry"@,
        StateEvent::FinishEditingEntry => "FinishEditingEntry"@,
        StateEvent::CancelEditingEntry => "CancelEditingEntry"@,
        StateEvent::EnterTagManager => "EnterTagManager"@,
        StateEvent::ExitTagManager => "ExitTagManager"@,
        StateEvent::EnterCollectionManager => "EnterCollectionManager"@,
        StateEvent::ExitCollectionManager => "ExitCollectionManager"@,
        StateEvent::EnterImportExport => "EnterImportExport"@,
        StateEvent::ExitImportExport => "ExitImportExport"@,
        StateEvent::StartLoading => "StartLoading"@,
        StateEvent::FinishLoading => "FinishLoading"@,
        StateEvent::Error(msg) => debug_with_message(msg@),
        StateEvent::RecoverFromError => "RecoverFromError"@,
        StateEvent::Exit => "Exit"@,
    }
}

/// The text of the error for an event the machine refuses in a state: the
/// two values in their `Debug` form after a fixed prefix.
pub open spec fn invalid_transition_text(state: AppState, event: StateEvent) -> Seq<char> {
    "无效的状态转换: "@ + state_debug(state) + " -> "@ + event_debug(event)
}

/// `Error(` + the message's `Debug` + `)`.
fn message_debug(msg: &String) -> (r: String)
    ensures
        r@ == debug_with_message(msg@),
{
    let mut r = "Error(".to_string();
    let d = debug_of_string(msg);
    r.append(d.as_str());
    r.append(")");
    r
}

/// The `Debug` form of a state.
fn state_debug_string(s: &AppState) -> (r: String)
    ensures
        r@ == state_debug(*s),
{
    match s {
        AppState::Initializing => "Initializing".to_string(),
        AppState::Running => "Running".to_string(),
        AppState::Loading => "Loading".to_string(),
        AppState::Settings => "Settings".to_string(),
        AppState::AddingEntry => "AddingEntry".to_string(),
        AppState::EditingEntry => "EditingEntry".to_string(),
        AppState::TagManager => "TagManager".to_string(),
        AppState::CollectionManager => "CollectionManager".to_string(),
        AppState::ImportExport => "ImportExport".to_string(),
        AppState::Error(msg) => message_debug(msg),
        AppState::Exiting => "Exiting".to_string(),
    }
}

/// The `Debug` form of an event.
fn event_debug_string(e: &StateEvent) -> (r: String)
    ensures
        r@ == event_debug(*e),
{
    match e {
        StateEvent::InitializationComplete => "InitializationComplete".to_string(),
        StateEvent::EnterSettings => "EnterSettings".to_string(),
        StateEvent::ExitSettings => "ExitSettings".to_string(),
        StateEvent::StartAddingEntry => "StartAddingEntry".to_string(),
        StateEvent::FinishAddingEntry => "FinishAddingEntry".to_string(),
        StateEvent::CancelAddingEntry => "CancelAddingEntry".to_string(),
        StateEvent::StartEditingEntry => "StartEditingEntry".to_string(),
        StateEvent::FinishEditingEntry => "FinishEditingEntry".to_string(),
        StateEvent::CancelEditingEntry => "CancelEditingEntry".to_string(),
        StateEvent::EnterTagManager => "EnterTagManager".to_string(),
        StateEvent::ExitTagManager => "ExitTagManager".to_string(),
        StateEvent::EnterCollectionManager => "EnterCollectionManager".to_string(),
        StateEvent::ExitCollectionManager => "ExitCollectionManager".to_string(),
        StateEvent::EnterImportExport => "EnterImportExport".to_string(),
        StateEvent::ExitImportExport => "ExitImportExport".to_string(),
        StateEvent::StartLoading => "StartLoading".to_string(),
        StateEvent::FinishLoading => "FinishLoading".to_string(),
        StateEvent::Error(msg) => message_debug(msg),
        StateEvent::RecoverFromError => "RecoverFromError".to_string(),
        StateEvent::Exit => "Exit".to_string(),
    }
}

/// The refusal message for `event` in `state`.
fn invalid_transition_message(state: &AppState, event: &StateEvent) -> (r: String)
    ensures
        r@ == invalid_transition_text(*state, *event),
{
    let mut r = "无效的状态转换: ".to_string();
    let sd = state_debug_string(state);
    r.append(sd.as_str());
    r.append(" -> ");
    let ed = event_debug_string(event);
    r.append(ed.as_str());
    r
}


/// `after` is `before` moved to `target`: the old current state becomes the
/// previous one and is appended to the bounded history.
pub open spec fn transitioned(before: StateMachine, target: AppState, after: StateMachine) -> bool {
    &&& after.current() == target
    &&& after.previous() == Some(before.current())
    &&& after.history() == pushed_history(before.history(), before.current())
}

/// `after` has the same current state, previous state and history as `before`.
pub open spec fn unchanged(before: StateMachine, after: StateMachine) -> bool {
    &&& after.current() == before.current()
    &&& after.previous() == before.previous()
    &&& after.history() == before.history()
}

/// What handling `event` does: the allowed transition with `Ok`, or no change
/// with the refusal message.
pub open spec fn event_handled(
    before: StateMachine,
    event: StateEvent,
    r: Result<(), String>,
    after: StateMachine,
) -> bool {
    match next_state(before.current(), event) {
        Some(t) => r is Ok && transitioned(before, t, after),
        None => {
            &&& r is Err
            &&& r->Err_0@ == invalid_transition_text(before.current(), event)
            &&& unchanged(before, after)
        },
    }
}

/// What going back does: a transition to the previous state with `Ok`, or no
/// change with an error when there is none.
pub open spec fn went_back(before: StateMachine, r: Result<(), String>, after: StateMachine) -> bool {
    match before.previous() {
        Some(p) => r is Ok && transitioned(before, p, after),
        None => {
            &&& r is Err
            &&& r->Err_0@ == "没有可以返回的状态"@
            &&& unchanged(before, after)
        },
    }
}

impl StateMachine {
    /// The current state.
    pub fn current_state(&self) -> (r: &AppState)
        ensures
            *r == self.current(),
    {
        &self.current_state
    }

    /// The state before the last transition.
    pub fn previous_state(&self) -> (r: &Option<AppState>)
        ensures
            *r == self.previous(),
    {
        &self.previous_state
    }

    /// The states the machine has left, oldest first; never more than
    /// `MAX_HISTORY_SIZE` of them.
    pub fn state_history(&self) -> (r: &Vec<AppState>)
        ensures
            r@ == self.history(),
            r@.len() <= MAX_HISTORY_SIZE,
    {
        proof { use_type_invariant(self); }
        &self.state_history
    }

    /// Whether two states are of the same variant (any two `Error`s match).
    fn states_match(&self, pattern: &AppState, actual: &AppState) -> (r: bool)
        ensures
            r == (state_kind(*pattern) == state_kind(*actual)),
    {
        pattern.kind() == actual.kind()
    }

    /// Whether two events are of the same variant (any two `Error`s match).
    fn events_match(&self, pattern: &StateEvent, actual: &StateEvent) -> (r: bool)
        ensures
            r == (event_kind(*pattern) == event_kind(*actual)),
    {
        pattern.kind() == actual.kind()
    }

    /// Where `event` leads from the current state: the `Error` state for an
    /// `Error` event, else the `to` of the first rule whose state and event
    /// match; an error when no rule matches.
    fn find_target_state(&self, event: &StateEvent) -> (r: Result<AppState, String>)
        ensures
            match next_state(self.current(), *event) {
                Some(t) => r == Ok::<AppState, String>(t),
                None => r is Err && r->Err_0@ == invalid_transition_text(self.current(), *event),
            },
    {
        proof { use_type_invariant(self); }
        if let StateEvent::Error(msg) = event {
            return Ok(AppState::Error(msg.clone()));
        }
        let n = self.transitions.len();
        let mut i: usize = 0;
        while i < n
            invariant
                n == self.transitions@.len(),
                table_ok(self.transitions@),
                !(*event is Error),
                i <= n,
                forall|j: int| 0 <= j < i ==> !#[trigger] applies(j, self.current(), *event),
            decreases n - i,
        {
            let t = &self.transitions[i];
            proof { assert(rule_holds(self.transitions@[i as int], i as int)); }
            if self.states_match(&t.from, &self.current_state) && self.events_match(&t.event, event) {
                proof { lemma_rule_gives_next(i as int, self.current(), *event); }
                return Ok(t.to.duplicate());
            }
            i = i + 1;
        }
        proof { lemma_no_rule_refuses(self.current(), *event); }
        Err(invalid_transition_message(&self.current_state, event))
    }

    /// Moves to `new_state`: the old state becomes the previous state and is
    /// appended to the history, whose oldest entry is dropped past the bound.
    fn transition_to_state(&mut self, new_state: AppState)
        ensures
            transitioned(*old(self), new_state, *final(self)),
    {
        proof { use_type_invariant(&*self); }
        let old_state = self.current_state.duplicate();
        self.previous_state = Some(old_state.duplicate());
        self.current_state = new_state;
        let mut history: Vec<AppState> = Vec::new();
        std::mem::swap(&mut history, &mut self.state_history);
        history.push(old_state);
        if history.len() > self.max_history_size {
            history.remove(0);
        }
        self.state_history = history;
    }

    /// Handles an event: on a transition the rules allow, the machine moves
    /// and returns `Ok`; otherwise it stays as it was and returns the error.
    pub fn handle_event(&mut self, event: StateEvent) -> (r: Result<(), String>)
        ensures
            event_handled(*old(self), event, r, *final(self)),
    {
        let target_state = self.find_target_state(&event)?;
        self.transition_to_state(target_state);
        Ok(())
    }

    /// Whether the machine would accept `event` in its current state.
    pub fn can_handle_event(&self, event: &StateEvent) -> (r: bool)
        ensures
            r == next_state(self.current(), *event) is Some,
    {
        self.find_target_state(event).is_ok()
    }

    /// Moves to `state` whatever the rules say, recording the transition.
    pub fn force_state(&mut self, state: AppState)
        ensures
            transitioned(*old(self), state, *final(self)),
    {
        self.transition_to_state(state);
    }

    /// Returns to the previous state, recording it as a transition; an error
    /// when there is no previous state.
    pub fn go_back(&mut self) -> (r: Result<(), String>)
        ensures
            went_back(*old(self), r, *final(self)),
    {
        match &self.previous_state {
            Some(prev) => {
                let prev_state = prev.duplicate();
                self.transition_to_state(prev_state);
                Ok(())
            },
            None => Err("没有可以返回的状态".to_string()),
        }
    }

    /// Whether the current state is of the same variant as `state`.
    pub fn is_in_state(&self, state: &AppState) -> (r: bool)
        ensures
            r == (state_kind(self.current()) == state_kind(*state)),
    {
        self.current_state.kind() == state.kind()
    }

    /// Whether the current state is an `Error`.
    pub fn is_in_error_state(&self) -> (r: bool)
        ensures
            r == self.current() is Error,
    {
        matches!(self.current_state, AppState::Error(_))
    }

    /// The message of the current `Error` state, if the machine is in one.
    pub fn get_error_message(&self) -> (r: Option<&str>)
        ensures
            match self.current() {
                AppState::Error(msg) => r is Some && r->0@ == msg@,
                _ => r is None,
            },
    {
        match &self.current_state {
            AppState::Error(msg) => Some(msg.as_str()),
            _ => None,
        }
    }
}

impl Default for StateMachine {
    fn default() -> (m: Self)
        ensures
            m.current() == AppState::Initializing,
            m.previous() is None,
            m.history().len() == 0,
    {
        Self::new()
    }
}

/// Any machine may sit in the shared lock: a machine's own type invariant is
/// all there is to keep.
pub struct AnyMachine;

impl RwLockPredicate<StateMachine> for AnyMachine {
    open spec fn inv(self, v: StateMachine) -> bool {
        true
    }
}

/// A state machine shared between threads: clones of a manager share one
/// machine, and each method works on it under the lock. What one call sees
/// depends on what other holders did before it, so the contracts say what
/// holds whatever the shared machine's state was.
#[derive(Clone)]
pub struct StateManager {
    state_machine: Arc<RwLock<StateMachine, AnyMachine>>,
}

impl StateManager {
    /// A manager of a fresh machine in `Initializing`.
    pub fn new() -> (m: Self) {
        StateManager { state_machine: Arc::new(RwLock::new(StateMachine::new(), Ghost(AnyMachine))) }
    }

    /// The shared machine's current state.
    pub fn current_state(&self) -> (r: AppState) {
        let handle = self.state_machine.acquire_read();
        let s = handle.borrow().current_state().duplicate();
        handle.release_read();
        s
    }

    /// Handles an event on the shared machine. An `Error` event is always
    /// accepted; any other succeeds exactly when the machine's state at the
    /// time allows it, which other holders may have changed. A refusal
    /// carries the refusal text of the state the machine was in, one in which
    /// the rules refuse the event.
    pub fn handle_event(&self, event: StateEvent) -> (r: Result<(), String>)
        ensures
            event is Error ==> r is Ok,
            r matches Err(msg) ==> exists|s: AppState|
                next_state(s, event) is None && msg@ == #[trigger] invalid_transition_text(s, event),
    {
        let (mut machine, handle) = self.state_machine.acquire_write();
        let ghost before = machine;
        let r = machine.handle_event(event);
        proof {
            if r is Err {
                assert(next_state(before.current(), event) is None);
                assert(r->Err_0@ == invalid_transition_text(before.current(), event));
            }
        }
        handle.release_write(machine);
        r
    }

    /// Whether the shared machine would accept `event` now.
    pub fn can_handle_event(&self, event: &StateEvent) -> (r: bool)
        ensures
            *event is Error ==> r,
    {
        let handle = self.state_machine.acquire_read();
        let r = handle.borrow().can_handle_event(event);
        handle.release_read();
        r
    }

    /// Moves the shared machine to `state`.
    pub fn force_state(&self, state: AppState) {
        let (mut machine, handle) = self.state_machine.acquire_write();
        machine.force_state(state);
        handle.release_write(machine);
    }

    /// Sends the shared machine back to its previous state.
    pub fn go_back(&self) -> (r: Result<(), String>)
        ensures
            r is Err ==> r->Err_0@ == "没有可以返回的状态"@,
    {
        let (mut machine, handle) = self.state_machine.acquire_write();
        let r = machine.go_back();
        handle.release_write(machine);
        r
    }

    /// Whether the shared machine's state is of the variant of `state`.
    pub fn is_in_state(&self, state: &AppState) -> (r: bool) {
        let handle = self.state_machine.acquire_read();
        let r = handle.borrow().is_in_state(state);
        handle.release_read();
        r
    }

    /// Whether the shared machine is in an `Error` state.
    pub fn is_in_error_state(&self) -> (r: bool) {
        let handle = self.state_machine.acquire_read();
        let r = handle.borrow().is_in_error_state();
        handle.release_read();
        r
    }

    /// The message of the shared machine's `Error` state, if it is in one.
    pub fn get_error_message(&self) -> (r: Option<String>) {
        let handle = self.state_machine.acquire_read();
        let r = match handle.borrow().get_error_message() {
            Some(m) => Some(m.to_string()),
            None => None,
        };
        handle.release_read();
        r
    }

    /// The shared machine's history, oldest first; never more than
    /// `MAX_HISTORY_SIZE` states.
    pub fn get_state_history(&self) -> (r: Vec<AppState>)
        ensures
            r@.len() <= MAX_HISTORY_SIZE,
    {
        let handle = self.state_machine.acquire_read();
        let h = handle.borrow().state_history();
        let mut r: Vec<AppState> = Vec::new();
        let mut i: usize = 0;
        while i < h.len()
            invariant
                i <= h@.len(),
                h@.len() <= MAX_HISTORY_SIZE,
                r@ == h@.take(i as int),
            decreases h@.len() - i,
        {
            r.push(h[i].duplicate());
            i = i + 1;
            proof { assert(r@ =~= h@.take(i as int)); }
        }
        handle.release_read();
        r
    }
}

impl Default for StateManager {
    fn default() -> (m: Self) {
        Self::new()
    }
}

/// Context values that the states share, by key.
#[derive(Debug)]
pub struct StateContext {
    data: StringMap,
}

impl View for StateContext {
    type V = Map<Seq<char>, Seq<char>>;

    closed spec fn view(&self) -> Map<Seq<char>, Seq<char>> {
        self.data@
    }
}

impl StateContext {
    /// An empty context.
    pub fn new() -> (c: Self)
        ensures
            c@ == Map::<Seq<char>, Seq<char>>::empty(),
    {
        StateContext { data: StringMap::new() }
    }

    /// Sets `key` to `value`; a later set of a key overwrites an earlier one,
    /// and a new key adds one to the number of keys.
    pub fn set(&mut self, key: &str, value: &str)
        ensures
            final(self)@ == old(self)@.insert(key@, value@),
            final(self)@.dom().finite(),
            final(self)@.len() == old(self)@.len() + (if old(self)@.contains_key(key@) {
                0int
            } else {
                1int
            }),
    {
        self.data.set(key, value);
    }

    /// The number of keys; a context holds finitely many.
    pub fn len(&self) -> (n: usize)
        ensures
            n == self@.len(),
            self@.dom().finite(),
    {
        self.data.len()
    }

    /// The value of `key`, if it has one.
    pub fn get(&self, key: &str) -> (r: Option<&String>)
        ensures
            match r {
                Some(v) => self@.contains_key(key@) && v@ == self@[key@],
                None => !self@.contains_key(key@),
            },
    {
        self.data.get(key)
    }

    /// Removes `key`, giving back its value if it had one.
    pub fn remove(&mut self, key: &str) -> (r: Option<String>)
        ensures
            final(self)@ == old(self)@.remove(key@),
            match r {
                Some(v) => old(self)@.contains_key(key@) && v@ == old(self)@[key@],
                None => !old(self)@.contains_key(key@),
            },
    {
        self.data.remove(key)
    }

    /// Removes every value.
    pub fn clear(&mut self)
        ensures
            final(self)@ == Map::<Seq<char>, Seq<char>>::empty(),
    {
        self.data.clear();
    }
}

impl Default for StateContext {
    fn default() -> (c: Self)
        ensures
            c@ == Map::<Seq<char>, Seq<char>>::empty(),
    {
        Self::new()
    }
}

/// An `Error` event is accepted in every state, and the machine then holds
/// the event's message.
pub proof fn law_error_accepted_everywhere(s: AppState, msg: String)
    ensures
        next_state(s, StateEvent::Error(msg)) == Some(AppState::Error(msg)),
{
}

/// Asking whether an event can be handled predicts what handling it does:
/// `can_handle_event` says yes exactly when `handle_event` returns `Ok`.
pub proof fn law_can_handle_predicts_handle(
    m: StateMachine,
    e: StateEvent,
    can: bool,
    r: Result<(), String>,
    after: StateMachine,
)
    requires
        can == next_state(m.current(), e) is Some,
        event_handled(m, e, r, after),
    ensures
        can == r is Ok,
{
}

/// Going back right after a transition returns to the state the transition
/// left, and the state it reached becomes the previous one.
pub proof fn law_go_back_undoes_transition(
    m0: StateMachine,
    target: AppState,
    m1: StateMachine,
    r: Result<(), String>,
    m2: StateMachine,
)
    requires
        transitioned(m0, target, m1),
        went_back(m1, r, m2),
    ensures
        r is Ok,
        m2.current() == m0.current(),
        m2.previous() == Some(target),
{
}

/// The history ends with the state just left, keeps the most recent states
/// in order, and never grows past its bound.
pub proof fn law_history_keeps_recent_states(h: Seq<AppState>, left: AppState)
    requires
        h.len() <= MAX_HISTORY_SIZE,
    ensures
        pushed_history(h, left).len() <= MAX_HISTORY_SIZE,
        pushed_history(h, left).last() == left,
        pushed_history(h, left).len() == if h.len() < MAX_HISTORY_SIZE {
            h.len() as int + 1
        } else {
            MAX_HISTORY_SIZE as int
        },
        pushed_history(h, left) == h.push(left).subrange(
            h.len() as int + 1 - pushed_history(h, left).len(),
            h.len() as int + 1,
        ),
{
    assert(h.push(left).drop_first() =~= h.push(left).subrange(1, h.len() as int + 1));
    assert(h.push(left) =~= h.push(left).subrange(0, h.len() as int + 1));
}

/// Once exiting, only an error moves the machine.
pub proof fn law_exiting_is_final(e: StateEvent)
    ensures
        next_state(AppState::Exiting, e) is Some ==> e is Error,
{
}

/// Every screen, the loading state and the error state lead back to
/// `Running` by some event.
pub proof fn law_screens_return_to_running(s: AppState)
    requires
        !(s is Initializing),
        !(s is Running),
        !(s is Exiting),
    ensures
        exists|e: StateEvent| next_state(s, e) == Some(AppState::Running),
{
    match s {
        AppState::Loading => assert(next_state(s, StateEvent::FinishLoading) == Some(AppState::Running)),
        AppState::Settings => assert(next_state(s, StateEvent::ExitSettings) == Some(AppState::Running)),
        AppState::AddingEntry => assert(next_state(s, StateEvent::FinishAddingEntry) == Some(AppState::Running)),
        AppState::EditingEntry => assert(next_state(s, StateEvent::FinishEditingEntry) == Some(AppState::Running)),
        AppState::TagManager => assert(next_state(s, StateEvent::ExitTagManager) == Some(AppState::Running)),
        AppState::CollectionManager => assert(next_state(s, StateEvent::ExitCollectionManager) == Some(AppState::Running)),
        AppState::ImportExport => assert(next_state(s, StateEvent::ExitImportExport) == Some(AppState::Running)),
        AppState::Error(_) => assert(next_state(s, StateEvent::RecoverFromError) == Some(AppState::Running)),
        _ => {},
    }
}

/// A value set in a context is what `get` returns for that key afterwards,
/// and other keys keep their values.
pub proof fn law_context_get_after_set(c: Map<Seq<char>, Seq<char>>, k: Seq<char>, v: Seq<char>, other: Seq<char>)
    requires
        other != k,
    ensures
        c.insert(k, v).contains_key(k),
        c.insert(k, v)[k] == v,
        c.insert(k, v).contains_key(other) == c.contains_key(other),
        c.contains_key(other) ==> c.insert(k, v)[other] == c[other],
        !c.remove(k).contains_key(k),
{
}

/// The keys the integrated manager answers itself.
#[derive(Clone, Copy, Debug, PartialEq, Eq, Structural)]
pub enum ShortcutKey {
    Refresh,
    Escape,
    Other,
}

/// Whether the manager handles a key itself in a state: refreshing always,
/// Escape while in the settings or while adding an entry, nothing else.
pub fn shortcut_handled(key: ShortcutKey, state: &AppState) -> (r: bool)
    ensures
        r == match key {
            ShortcutKey::Refresh => true,
            ShortcutKey::Escape => *state is Settings || *state is AddingEntry,
            ShortcutKey::Other => false,
        },
{
    match key {
        ShortcutKey::Refresh => true,
        ShortcutKey::Escape => match state {
            AppState::Settings => true,
            AppState::AddingEntry => true,
            _ => false,
        },
        ShortcutKey::Other => false,
    }
}

} // verus!

