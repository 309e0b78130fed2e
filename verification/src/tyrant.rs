//! The state of the container manager's window and how each user or
//! daemon event changes it. Drawing and the Docker calls are done outside;
//! this module decides what is shown and which Docker call is asked for.

use crate::config::{AppConfig, ConfigManager};
use crate::containers::container_info::ContainerInfo;
use crate::text::{contains_str, has_substring, lowercase_of, to_lowercase};
use vstd::prelude::*;

verus! {

/// How many of the last log lines are asked for.
pub const LOG_TAIL_LINES: u64 = 500;

/// Which screen is shown.
#[derive(Clone, Debug, PartialEq, Eq)]
pub enum Screen {
    /// The list of containers.
    ContainerList,
    /// The logs of one container.
    Logs { container_id: String, container_name: String, logs: String, loading: bool },
}

/// The content of a screen.
pub enum ScreenView {
    ContainerList,
    Logs { container_id: Seq<char>, container_name: Seq<char>, logs: Seq<char>, loading: bool },
}

impl View for Screen {
    type V = ScreenView;

    open spec fn view(&self) -> ScreenView {
        match self {
            Screen::ContainerList => ScreenView::ContainerList,
            Screen::Logs { container_id, container_name, logs, loading } => ScreenView::Logs {
                container_id: container_id@,
                container_name: container_name@,
                logs: logs@,
                loading: *loading,
            },
        }
    }
}

impl Default for Screen {
    fn default() -> (s: Screen)
        ensures
            s@ == ScreenView::ContainerList,
    {
        Screen::ContainerList
    }
}

/// An event: a user action, a timer tick, or the answer to a Docker call.
#[derive(Debug)]
pub enum Message {
    ContainersLoaded(Result<Vec<ContainerInfo>, String>),
    Refresh,
    StartContainer(String),
    StopContainer(String),
    RestartContainer(String),
    ContainerAction(Result<(), String>),
    SearchChanged(String),
    Tick,
    ViewLogs(String),
    LogsLoaded(Result<(String, String), String>),
    BackToList,
}

/// The Docker call that an event asks for.
#[derive(Clone, Debug, PartialEq, Eq)]
pub enum Effect {
    Nothing,
    /// List all containers, stopped ones included.
    ListContainers,
    StartContainer(String),
    StopContainer(String),
    RestartContainer(String),
    /// Fetch the last `tail_lines` log lines of a container.
    FetchLogs { container_id: String, tail_lines: u64 },
}

/// The content of an effect.
pub enum EffectView {
    Nothing,
    ListContainers,
    StartContainer(Seq<char>),
    StopContainer(Seq<char>),
    RestartContainer(Seq<char>),
    FetchLogs { container_id: Seq<char>, tail_lines: u64 },
}

impl View for Effect {
    type V = EffectView;

    open spec fn view(&self) -> EffectView {
        match self {
            Effect::Nothing => EffectView::Nothing,
            Effect::ListContainers => EffectView::ListContainers,
            Effect::StartContainer(id) => EffectView::StartContainer(id@),
            Effect::StopContainer(id) => EffectView::StopContainer(id@),
            Effect::RestartContainer(id) => EffectView::RestartContainer(id@),
            Effect::FetchLogs { container_id, tail_lines } => EffectView::FetchLogs {
                container_id: container_id@,
                tail_lines: *tail_lines,
            },
        }
    }
}

/// What the container list shows.
#[derive(Clone, Debug, PartialEq, Eq)]
pub enum ListContent {
    /// The containers are being loaded.
    Loading,
    /// The last Docker call failed with this message.
    Failed(String),
    /// No container matches the search.
    NoMatches,
    /// The positions, in the container list, of the containers that match
    /// the search, in order.
    Matches(Vec<usize>),
}

/// The window's state.
pub struct ContainerTyrant {
    containers: Vec<ContainerInfo>,
    loading: bool,
    error: Option<String>,
    search_query: String,
    config: AppConfig,
    config_manager: ConfigManager,
    screen: Screen,
}

/// The content of the window's state.
pub struct TyrantView {
    pub containers: Seq<ContainerInfo>,
    pub loading: bool,
    pub error: Option<Seq<char>>,
    pub search_query: Seq<char>,
    pub config: AppConfig,
    pub config_manager: ConfigManager,
    pub screen: ScreenView,
}

impl View for ContainerTyrant {
    type V = TyrantView;

    closed spec fn view(&self) -> TyrantView {
        TyrantView {
            containers: self.containers@,
            loading: self.loading,
            error: match self.error {
                Some(e) => Some(e@),
                None => None,
            },
            search_query: self.search_query@,
            config: self.config,
            config_manager: self.config_manager,
            screen: self.screen@,
        }
    }
}

/// The name shown for container `id`: the name of the first container with
/// that id, or the id itself when there is none.
pub open spec fn name_for(cs: Seq<ContainerInfo>, id: Seq<char>) -> Seq<char>
    decreases cs.len(),
{
    if cs.len() == 0 {
        id
    } else if cs[0].id@ == id {
        cs[0].name@
    } else {
        name_for(cs.drop_first(), id)
    }
}

/// The state and Docker call that follow event `m` in state `s`.
pub open spec fn step(s: TyrantView, m: Message) -> (TyrantView, EffectView) {
    match m {
        Message::ContainersLoaded(r) => match r {
            Ok(cs) => (TyrantView { containers: cs@, loading: false, error: None, ..s }, EffectView::Nothing),
            Err(e) => (TyrantView { loading: false, error: Some(e@), ..s }, EffectView::Nothing),
        },
        Message::Refresh => (TyrantView { loading: true, ..s }, EffectView::ListContainers),
        Message::Tick => (TyrantView { loading: true, ..s }, EffectView::ListContainers),
        Message::StartContainer(id) => (s, EffectView::StartContainer(id@)),
        Message::StopContainer(id) => (s, EffectView::StopContainer(id@)),
        Message::RestartContainer(id) => (s, EffectView::RestartContainer(id@)),
        Message::ContainerAction(r) => match r {
            Ok(_) => (s, EffectView::Nothing),
            Err(e) => (TyrantView { error: Some(e@), ..s }, EffectView::Nothing),
        },
        Message::SearchChanged(q) => (TyrantView { search_query: q@, ..s }, EffectView::Nothing),
        Message::ViewLogs(id) => (
            TyrantView {
                screen: ScreenView::Logs {
                    container_id: id@,
                    container_name: name_for(s.containers, id@),
                    logs: Seq::empty(),
                    loading: true,
                },
                ..s
            },
            EffectView::FetchLogs { container_id: id@, tail_lines: LOG_TAIL_LINES },
        ),
        Message::LogsLoaded(r) => match r {
            Ok((id, logs)) => if s.screen matches ScreenView::Logs { container_id, .. } && container_id
                == id@ {
                (
                    TyrantView {
                        screen: ScreenView::Logs {
                            container_id: id@,
                            container_name: Seq::empty(),
                            logs: logs@,
                            loading: false,
                        },
                        ..s
                    },
                    EffectView::Nothing,
                )
            } else {
                (s, EffectView::Nothing)
            },
            Err(e) => (TyrantView { error: Some(e@), ..s }, EffectView::Nothing),
        },
        Message::BackToList => (
            TyrantView { screen: ScreenView::ContainerList, error: None, ..s },
            EffectView::Nothing,
        ),
    }
}

/// The content of a container list.
pub enum ListContentView {
    Loading,
    Failed(Seq<char>),
    NoMatches,
    Matches(Seq<usize>),
}

impl View for ListContent {
    type V = ListContentView;

    open spec fn view(&self) -> ListContentView {
        match self {
            ListContent::Loading => ListContentView::Loading,
            ListContent::Failed(e) => ListContentView::Failed(e@),
            ListContent::NoMatches => ListContentView::NoMatches,
            ListContent::Matches(v) => ListContentView::Matches(v@),
        }
    }
}

/// What the logs screen shows.
#[derive(Clone, Debug, PartialEq, Eq)]
pub enum LogsContent {
    /// The logs are being fetched.
    Loading,
    /// The container has no logs.
    Empty,
    /// The logs.
    Text(String),
}

/// Whether container `c` is found by the search `q`: every container is
/// found by the empty search; otherwise the lowercased search must occur in
/// the lowercased name or image.
pub open spec fn matches_query(c: ContainerInfo, q: Seq<char>) -> bool {
    ||| q.len() == 0
    ||| has_substring(lowercase_of(c.name@), lowercase_of(q))
    ||| has_substring(lowercase_of(c.image@), lowercase_of(q))
}

/// The positions of the containers that the search `q` finds, in order.
pub open spec fn matching(cs: Seq<ContainerInfo>, q: Seq<char>) -> Seq<usize>
    decreases cs.len(),
{
    if cs.len() == 0 {
        Seq::empty()
    } else {
        let rest = matching(cs.drop_last(), q);
        if matches_query(cs.last(), q) {
            rest.push((cs.len() - 1) as usize)
        } else {
            rest
        }
    }
}

/// What the container list shows in state `s`: while loading, that; after
/// a failure, its message; else the containers that the search finds.
pub open spec fn list_content(s: TyrantView) -> ListContentView {
    if s.loading {
        ListContentView::Loading
    } else if s.error is Some {
        ListContentView::Failed(s.error->0)
    } else if matching(s.containers, s.search_query).len() == 0 {
        ListContentView::NoMatches
    } else {
        ListContentView::Matches(matching(s.containers, s.search_query))
    }
}

/// The window's state before anything has happened: no containers yet and
/// loading them, no error, an empty search, the container list shown.
pub open spec fn initial_state(s: TyrantView, manager: ConfigManager, stored: Option<AppConfig>) -> bool {
    &&& s.containers.len() == 0
    &&& s.loading
    &&& s.error is None
    &&& s.search_query.len() == 0
    &&& s.config_manager == manager
    &&& match stored {
        Some(c) => s.config == c,
        None => s.config.is_default(),
    }
    &&& s.screen == ScreenView::ContainerList
}

/// A refresh asks for the container list and shows it loading; when the
/// list arrives it replaces the old one, ends the loading and clears the
/// error, and the screen and search are kept.
pub proof fn lemma_refresh_then_loaded(s: TyrantView, cs: Vec<ContainerInfo>)
    ensures
        step(s, Message::Refresh).1 == EffectView::ListContainers,
        step(s, Message::Refresh).0.loading,
        ({
            let s2 = step(step(s, Message::Refresh).0, Message::ContainersLoaded(Ok(cs))).0;
            &&& s2.containers == cs@
            &&& !s2.loading
            &&& s2.error is None
            &&& s2.screen == s.screen
            &&& s2.search_query == s.search_query
            &&& s2.config == s.config
        }),
{
}

/// A tick of the refresh timer acts as a refresh.
pub proof fn lemma_tick_is_refresh(s: TyrantView)
    ensures
        step(s, Message::Tick) == step(s, Message::Refresh),
{
}

/// Going back always shows the container list with no error.
pub proof fn lemma_back_to_list(s: TyrantView)
    ensures
        step(s, Message::BackToList).0.screen == ScreenView::ContainerList,
        step(s, Message::BackToList).0.error is None,
        !(list_content(step(s, Message::BackToList).0) is Failed),
{
}

/// Starting, stopping or restarting a container changes nothing shown; it
/// only asks Docker for that action on that container.
pub proof fn lemma_container_actions_keep_state(s: TyrantView, id: String)
    ensures
        step(s, Message::StartContainer(id)) == (s, EffectView::StartContainer(id@)),
        step(s, Message::StopContainer(id)) == (s, EffectView::StopContainer(id@)),
        step(s, Message::RestartContainer(id)) == (s, EffectView::RestartContainer(id@)),
{
}

/// Logs that arrive for a container whose logs are not on screen are
/// dropped, and nothing changes.
pub proof fn lemma_stale_logs_ignored(s: TyrantView, id: String, logs: String)
    requires
        !(s.screen matches ScreenView::Logs { container_id, .. } && container_id == id@),
    ensures
        step(s, Message::LogsLoaded(Ok((id, logs)))) == (s, EffectView::Nothing),
{
}

/// Opening a container's logs asks for its last 500 lines and shows them
/// loading; when they arrive for that container they are shown (with the
/// name cleared).
pub proof fn lemma_view_then_logs(s: TyrantView, id: String, same_id: String, logs: String)
    requires
        same_id@ == id@,
    ensures
        step(s, Message::ViewLogs(id)).1 == (EffectView::FetchLogs {
            container_id: id@,
            tail_lines: LOG_TAIL_LINES,
        }),
        step(s, Message::ViewLogs(id)).0.screen == (ScreenView::Logs {
            container_id: id@,
            container_name: name_for(s.containers, id@),
            logs: Seq::empty(),
            loading: true,
        }),
        step(step(s, Message::ViewLogs(id)).0, Message::LogsLoaded(Ok((same_id, logs)))).0.screen
            == (ScreenView::Logs {
            container_id: id@,
            container_name: Seq::empty(),
            logs: logs@,
            loading: false,
        }),
{
}

/// The search finds exactly the containers that match it: the positions
/// are valid, in increasing order, each of a matching container, and every
/// matching container's position is among them.
pub proof fn lemma_matching(cs: Seq<ContainerInfo>, q: Seq<char>)
    requires
        cs.len() <= usize::MAX,
    ensures
        forall|k: int| 0 <= k < matching(cs, q).len() ==> (#[trigger] matching(cs, q)[k] as int)
            < cs.len() && matches_query(cs[matching(cs, q)[k] as int], q),
        forall|k: int, l: int|
            0 <= k < l < matching(cs, q).len() ==> matching(cs, q)[k] < matching(cs, q)[l],
        forall|i: int| 0 <= i < cs.len() && matches_query(#[trigger] cs[i], q) ==> matching(
            cs,
            q,
        ).contains(i as usize),
    decreases cs.len(),
{
    if cs.len() > 0 {
        let rest = cs.drop_last();
        let mr = matching(rest, q);
        let m = matching(cs, q);
        lemma_matching(rest, q);
        assert forall|k: int| 0 <= k < m.len() implies (#[trigger] m[k] as int) < cs.len()
            && matches_query(cs[m[k] as int], q) by {
            if k < mr.len() {
                assert(m[k] == mr[k]);
                assert(cs[mr[k] as int] == rest[mr[k] as int]);
            }
        }
        assert forall|k: int, l: int| 0 <= k < l < m.len() implies m[k] < m[l] by {
            if l < mr.len() {
                assert(m[k] == mr[k] && m[l] == mr[l]);
            } else {
                assert(m[k] == mr[k]);
                assert((mr[k] as int) < rest.len());
            }
        }
        assert forall|i: int| 0 <= i < cs.len() && matches_query(#[trigger] cs[i], q) implies m.contains(
            i as usize,
        ) by {
            if i < cs.len() - 1 {
                assert(matches_query(rest[i], q));
                let k = choose|k: int| 0 <= k < mr.len() && mr[k] == i as usize;
                assert(m[k] == i as usize);
            } else {
                assert(m.last() == i as usize);
            }
        }
    }
}

/// With an empty search, every container is listed, in order.
pub proof fn lemma_empty_search_lists_all(cs: Seq<ContainerInfo>)
    requires
        cs.len() <= usize::MAX,
    ensures
        matching(cs, Seq::empty()) == Seq::new(cs.len(), |i: int| i as usize),
    decreases cs.len(),
{
    if cs.len() > 0 {
        lemma_empty_search_lists_all(cs.drop_last());
        assert(matching(cs, Seq::empty()) =~= Seq::new(cs.len(), |i: int| i as usize));
    }
}

/// For a non-empty search, a container is found exactly when the lowercased
/// search occurs in its lowercased name or in its lowercased image; nothing
/// else about it decides.
pub proof fn lemma_search_by_name_or_image(cs: Seq<ContainerInfo>, q: Seq<char>, i: int)
    requires
        cs.len() <= usize::MAX,
        q.len() > 0,
        0 <= i < cs.len(),
    ensures
        matching(cs, q).contains(i as usize) <==> (has_substring(
            lowercase_of(cs[i].name@),
            lowercase_of(q),
        ) || has_substring(lowercase_of(cs[i].image@), lowercase_of(q))),
{
    lemma_matching(cs, q);
    let m = matching(cs, q);
    if m.contains(i as usize) {
        let k = choose|k: int| 0 <= k < m.len() && m[k] == i as usize;
        assert(matches_query(cs[m[k] as int], q));
    }
}

/// With the list loaded and a non-empty search, the list shows container `i`
/// exactly when the lowercased search occurs in its lowercased name or
/// image.
pub proof fn lemma_list_shows_search_hits(s: TyrantView, i: int)
    requires
        !s.loading,
        s.error is None,
        s.search_query.len() > 0,
        s.containers.len() <= usize::MAX,
        0 <= i < s.containers.len(),
    ensures
        (list_content(s) matches ListContentView::Matches(m) && m.contains(i as usize)) <==> (
        has_substring(lowercase_of(s.containers[i].name@), lowercase_of(s.search_query))
            || has_substring(lowercase_of(s.containers[i].image@), lowercase_of(s.search_query))),
{
    lemma_search_by_name_or_image(s.containers, s.search_query, i);
    let m = matching(s.containers, s.search_query);
    if m.contains(i as usize) {
        assert(m.len() > 0);
    }
}

/// The name shown for an id is that of the first container with that id.
pub proof fn lemma_name_for_first_match(cs: Seq<ContainerInfo>, id: Seq<char>, i: int)
    requires
        0 <= i < cs.len(),
        cs[i].id@ == id,
        forall|j: int| 0 <= j < i ==> (#[trigger] cs[j]).id@ != id,
    ensures
        name_for(cs, id) == cs[i].name@,
    decreases i,
{
    if i > 0 {
        assert(cs[0].id@ != id);
        let rest = cs.drop_first();
        assert forall|j: int| 0 <= j < i - 1 implies (#[trigger] rest[j]).id@ != id by {
            assert(rest[j] == cs[j + 1]);
        }
        lemma_name_for_first_match(rest, id, i - 1);
    }
}

/// The name shown for an id that no container has is the id itself.
pub proof fn lemma_name_for_unknown(cs: Seq<ContainerInfo>, id: Seq<char>)
    requires
        forall|j: int| 0 <= j < cs.len() ==> (#[trigger] cs[j]).id@ != id,
    ensures
        name_for(cs, id) == id,
    decreases cs.len(),
{
    if cs.len() > 0 {
        let rest = cs.drop_first();
        assert forall|j: int| 0 <= j < rest.len() implies (#[trigger] rest[j]).id@ != id by {
            assert(rest[j] == cs[j + 1]);
        }
        lemma_name_for_unknown(rest, id);
    }
}

/// Opening the logs of a container by its id shows the logs screen, loading,
/// under the name of the first container with that id, and asks for its
/// last log lines.
pub proof fn lemma_view_logs_shows_container_name(s: TyrantView, id: String, i: int)
    requires
        0 <= i < s.containers.len(),
        s.containers[i].id@ == id@,
        forall|j: int| 0 <= j < i ==> (#[trigger] s.containers[j]).id@ != id@,
    ensures
        step(s, Message::ViewLogs(id)).0.screen == (ScreenView::Logs {
            container_id: id@,
            container_name: s.containers[i].name@,
            logs: Seq::empty(),
            loading: true,
        }),
        step(s, Message::ViewLogs(id)).1 == (EffectView::FetchLogs {
            container_id: id@,
            tail_lines: LOG_TAIL_LINES,
        }),
{
    lemma_name_for_first_match(s.containers, id@, i);
}

impl ContainerTyrant {
    /// The window's first state, with the stored settings or, when none
    /// could be loaded, the defaults; it asks for the container list.
    pub fn new(config_manager: ConfigManager, stored: Option<AppConfig>) -> (r: (ContainerTyrant, Effect))
        ensures
            initial_state(r.0@, config_manager, stored),
            r.1@ == EffectView::ListContainers,
    {
        let config = match stored {
            Some(c) => c,
            None => AppConfig::default(),
        };
        let t = ContainerTyrant {
            containers: Vec::new(),
            loading: true,
            error: None,
            search_query: String::new(),
            config,
            config_manager,
            screen: Screen::default(),
        };
        (t, Effect::ListContainers)
    }

    /// The window title.
    pub fn title(&self) -> (r: &'static str)
        ensures
            r@ == "ContainerTyrant"@,
    {
        "ContainerTyrant"
    }

    /// The known containers.
    pub fn containers(&self) -> (r: &Vec<ContainerInfo>)
        ensures
            r@ == self@.containers,
    {
        &self.containers
    }

    /// Whether the container list is being loaded.
    pub fn loading(&self) -> (r: bool)
        ensures
            r == self@.loading,
    {
        self.loading
    }

    /// The message of the last failure, if it has not been cleared.
    pub fn error(&self) -> (r: Option<&String>)
        ensures
            match r {
                Some(e) => self@.error == Some(e@),
                None => self@.error is None,
            },
    {
        match &self.error {
            Some(e) => Some(e),
            None => None,
        }
    }

    /// The search text.
    pub fn search_query(&self) -> (r: &str)
        ensures
            r@ == self@.search_query,
    {
        self.search_query.as_str()
    }

    /// The screen shown.
    pub fn screen(&self) -> (r: &Screen)
        ensures
            r@ == self@.screen,
    {
        &self.screen
    }

    /// The settings in use.
    pub fn config(&self) -> (r: &AppConfig)
        ensures
            *r == self@.config,
    {
        &self.config
    }

    /// How often the container list is refreshed, in milliseconds.
    pub fn refresh_interval_ms(&self) -> (r: u64)
        ensures
            r == self@.config.refresh_interval_ms,
    {
        self.config.refresh_interval_ms
    }

    /// What the container list shows.
    pub fn list_content(&self) -> (r: ListContent)
        ensures
            r@ == list_content(self@),
    {
        if self.loading {
            return ListContent::Loading;
        }
        match &self.error {
            Some(e) => {
                return ListContent::Failed(e.clone());
            },
            None => {},
        }
        let query = self.search_query.as_str();
        let empty_query = query.is_empty();
        let lower_query = to_lowercase(query);
        let n = self.containers.len();
        let mut found: Vec<usize> = Vec::new();
        let mut i: usize = 0;
        while i < n
            invariant
                n == self.containers@.len(),
                i <= n,
                empty_query == (self.search_query@.len() == 0),
                lower_query@ == lowercase_of(self.search_query@),
                found@ == matching(self.containers@.take(i as int), self.search_query@),
            decreases n - i,
        {
            let c = &self.containers[i];
            let hit = empty_query || contains_str(to_lowercase(c.name.as_str()).as_str(), lower_query.as_str())
                || contains_str(to_lowercase(c.image.as_str()).as_str(), lower_query.as_str());
            if hit {
                found.push(i);
            }
            assert(self.containers@.take(i + 1).drop_last() =~= self.containers@.take(i as int));
            i = i + 1;
        }
        assert(self.containers@.take(n as int) =~= self.containers@);
        if found.len() == 0 {
            ListContent::NoMatches
        } else {
            ListContent::Matches(found)
        }
    }

    /// What the logs screen shows, or nothing when the container list is
    /// shown: while fetching, that; then the logs, unless there are none.
    pub fn logs_content(&self) -> (r: Option<LogsContent>)
        ensures
            match self@.screen {
                ScreenView::ContainerList => r is None,
                ScreenView::Logs { logs, loading, .. } => match r {
                    Some(LogsContent::Loading) => loading,
                    Some(LogsContent::Empty) => !loading && logs.len() == 0,
                    Some(LogsContent::Text(t)) => !loading && logs.len() > 0 && t@ == logs,
                    None => false,
                },
            },
    {
        match &self.screen {
            Screen::ContainerList => None,
            Screen::Logs { logs, loading, .. } => {
                if *loading {
                    Some(LogsContent::Loading)
                } else if logs.as_str().is_empty() {
                    Some(LogsContent::Empty)
                } else {
                    Some(LogsContent::Text(logs.clone()))
                }
            },
        }
    }

    /// Finds the name shown for container `id`.
    fn container_name(&self, id: &String) -> (r: String)
        ensures
            r@ == name_for(self@.containers, id@),
    {
        let n = self.containers.len();
        let mut i: usize = 0;
        assert(self.containers@.skip(0) =~= self.containers@);
        while i < n
            invariant
                n == self.containers@.len(),
                i <= n,
                name_for(self.containers@, id@) == name_for(self.containers@.skip(i as int), id@),
            decreases n - i,
        {
            if self.containers[i].id == *id {
                return self.containers[i].name.clone();
            }
            assert(self.containers@.skip(i as int).drop_first() =~= self.containers@.skip(i + 1));
            i = i + 1;
        }
        id.clone()
    }

    /// Applies an event and returns the Docker call it asks for.
    pub fn update(&mut self, message: Message) -> (e: Effect)
        ensures
            (final(self)@, e@) == step(old(self)@, message),
    {
        let ghost m = message;
        match message {
            Message::ContainersLoaded(result) => {
                self.loading = false;
                match result {
                    Ok(containers) => {
                        self.containers = containers;
                        self.error = None;
                    },
                    Err(e) => {
                        self.error = Some(e);
                    },
                }
                Effect::Nothing
            },
            Message::Refresh => {
                self.loading = true;
                Effect::ListContainers
            },
            Message::Tick => {
                self.loading = true;
                Effect::ListContainers
            },
            Message::StartContainer(id) => Effect::StartContainer(id),
            Message::StopContainer(id) => Effect::StopContainer(id),
            Message::RestartContainer(id) => Effect::RestartContainer(id),
            Message::ContainerAction(result) => {
                if let Err(e) = result {
                    self.error = Some(e);
                }
                Effect::Nothing
            },
            Message::SearchChanged(query) => {
                self.search_query = query;
                Effect::Nothing
            },
            Message::ViewLogs(id) => {
                let name = self.container_name(&id);
                let fetch_id = id.clone();
                self.screen = Screen::Logs {
                    container_id: id,
                    container_name: name,
                    logs: String::new(),
                    loading: true,
                };
                Effect::FetchLogs { container_id: fetch_id, tail_lines: LOG_TAIL_LINES }
            },
            Message::LogsLoaded(result) => {
                match result {
                    Ok((id, logs)) => {
                        let shown = match &self.screen {
                            Screen::Logs { container_id, .. } => *container_id == id,
                            Screen::ContainerList => false,
                        };
                        if shown {
                            self.screen = Screen::Logs {
                                container_id: id,
                                container_name: String::new(),
                                logs,
                                loading: false,
                            };
                        }
                    },
                    Err(e) => {
                        self.error = Some(e);
                    },
                }
                Effect::Nothing
            },
            Message::BackToList => {
                self.screen = Screen::ContainerList;
                self.error = None;
                Effect::Nothing
            },
        }
    }
}

} // verus!
