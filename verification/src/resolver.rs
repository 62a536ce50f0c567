use crate::error::Error;
use crate::error::ErrorView;
use crate::state::AppState;
use vstd::prelude::*;
use vstd::string::StringExecFns;

verus! {

/// The settings file that holds the persisted workspace directory.
pub open spec fn settings_file() -> Seq<char> {
    "settings.json"@
}

/// The key under which the settings file holds the workspace directory.
pub open spec fn base_dir_key() -> Seq<char> {
    "base_dir"@
}

/// The text of an optional string.
pub open spec fn text_of(value: Option<String>) -> Option<Seq<char>> {
    match value {
        Some(text) => Some(text@),
        None => None,
    }
}

/// The directory used when neither the cache nor the settings name a usable one: the user's
/// home directory, or the root directory where the system reports no home. An empty path
/// reported as home names no directory and counts as none.
pub open spec fn default_dir(home: Option<Seq<char>>) -> Seq<char> {
    match home {
        Some(dir) => if dir.len() > 0 {
            dir
        } else {
            "/"@
        },
        None => "/"@,
    }
}

/// A path is accepted as workspace directory if it was found on disk. The empty path names
/// no directory, whatever was reported of it.
pub open spec fn accepts(path: Seq<char>, exists: bool) -> bool {
    exists && path.len() > 0
}

/// The default workspace directory, given the home directory that the system reported.
pub fn get_default_dir(home: Option<String>) -> (dir: String)
    ensures
        dir@ == default_dir(text_of(home)),
        dir@.len() > 0,
{
    proof {
        reveal_strlit("/");
    }
    match home {
        Some(dir) => if dir.as_str().is_empty() {
            String::from_str("/")
        } else {
            dir
        },
        None => String::from_str("/"),
    }
}

/// What happened outside the library while a workspace directory is being resolved.
#[derive(Debug)]
pub enum ResolveEvent {
    /// A caller asks for the workspace directory.
    Requested,
    /// The settings lookup came back: the stored directory, or nothing where the store could
    /// not be opened or holds no text under the key.
    Persisted(Option<String>),
    /// The existence check on the stored directory `path` came back.
    PersistedChecked { path: String, exists: bool },
    /// The system named the user's home directory, or could not.
    HomeDir(Option<String>),
}

/// What the caller has to do next while a workspace directory is being resolved.
#[derive(Debug)]
pub enum ResolveAction {
    /// Resolution is complete: this is the workspace directory.
    Return(String),
    /// Look up `key` in the settings file `file` and report [`ResolveEvent::Persisted`].
    ReadSetting { file: String, key: String },
    /// Check whether this directory exists and report [`ResolveEvent::PersistedChecked`].
    CheckExists(String),
    /// Ask the system for the home directory and report [`ResolveEvent::HomeDir`].
    QueryHomeDir,
}

/// A [`ResolveEvent`] with its texts as character sequences.
pub enum ResolveEventView {
    Requested,
    Persisted(Option<Seq<char>>),
    PersistedChecked { path: Seq<char>, exists: bool },
    HomeDir(Option<Seq<char>>),
}

/// A [`ResolveAction`] with its texts as character sequences.
pub enum ResolveActionView {
    Return(Seq<char>),
    ReadSetting { file: Seq<char>, key: Seq<char> },
    CheckExists(Seq<char>),
    QueryHomeDir,
}

impl View for ResolveEvent {
    type V = ResolveEventView;

    open spec fn view(&self) -> ResolveEventView {
        match self {
            ResolveEvent::Requested => ResolveEventView::Requested,
            ResolveEvent::Persisted(stored) => ResolveEventView::Persisted(text_of(*stored)),
            ResolveEvent::PersistedChecked { path, exists } => ResolveEventView::PersistedChecked {
                path: path@,
                exists: *exists,
            },
            ResolveEvent::HomeDir(home) => ResolveEventView::HomeDir(text_of(*home)),
        }
    }
}

impl View for ResolveAction {
    type V = ResolveActionView;

    open spec fn view(&self) -> ResolveActionView {
        match self {
            ResolveAction::Return(dir) => ResolveActionView::Return(dir@),
            ResolveAction::ReadSetting { file, key } => ResolveActionView::ReadSetting {
                file: file@,
                key: key@,
            },
            ResolveAction::CheckExists(path) => ResolveActionView::CheckExists(path@),
            ResolveAction::QueryHomeDir => ResolveActionView::QueryHomeDir,
        }
    }
}

/// One step of resolving the workspace directory: the cache after the step and what the
/// caller does next.
///
/// A request is answered from a non-empty cache at once; on an empty cache the stored
/// setting is looked up. A stored directory is checked for existence; if it exists it is
/// cached and returned. Without a usable stored directory the default directory is cached
/// and returned.
pub open spec fn resolve_step(cache: Seq<char>, event: ResolveEventView) -> (
    Seq<char>,
    ResolveActionView,
) {
    match event {
        ResolveEventView::Requested => if cache.len() > 0 {
            (cache, ResolveActionView::Return(cache))
        } else {
            (cache, ResolveActionView::ReadSetting { file: settings_file(), key: base_dir_key() })
        },
        ResolveEventView::Persisted(Some(path)) => (cache, ResolveActionView::CheckExists(path)),
        ResolveEventView::Persisted(None) => (cache, ResolveActionView::QueryHomeDir),
        ResolveEventView::PersistedChecked { path, exists } => if accepts(path, exists) {
            (path, ResolveActionView::Return(path))
        } else {
            (cache, ResolveActionView::QueryHomeDir)
        },
        ResolveEventView::HomeDir(home) => (
            default_dir(home),
            ResolveActionView::Return(default_dir(home)),
        ),
    }
}

impl ResolveEventView {
    /// The step on this event leaves every cache as it was.
    pub open spec fn leaves_cache(self) -> bool {
        forall|cache: Seq<char>| (#[trigger] resolve_step(cache, self)).0 == cache
    }

    /// The step on this event hands out the same action whatever the cache holds.
    pub open spec fn ignores_cache(self) -> bool {
        forall|cache: Seq<char>, other: Seq<char>|
            (#[trigger] resolve_step(cache, self)).1 == (#[trigger] resolve_step(other, self)).1
    }
}

impl ResolveEvent {
    /// Whether the step on this event can change the cache. Where it cannot, a caller
    /// that guards the cache needs no exclusive access for the step.
    pub fn writes_cache(&self) -> (writes: bool)
        ensures
            writes == !self@.leaves_cache(),
    {
        proof {
            reveal_strlit("/");
            assert(Seq::<char>::empty().len() == 0);
        }
        match self {
            ResolveEvent::PersistedChecked { path, exists } => {
                let writes = *exists && !path.as_str().is_empty();
                assert(writes ==> resolve_step(Seq::empty(), self@).0 != Seq::<char>::empty());
                writes
            },
            ResolveEvent::HomeDir(_) => {
                assert(resolve_step(Seq::empty(), self@).0 != Seq::<char>::empty());
                true
            },
            ResolveEvent::Requested => false,
            ResolveEvent::Persisted(_) => false,
        }
    }

    /// Whether the action handed out for this event depends on what the cache holds.
    /// Where it does not, and the step leaves the cache alone, the step can be taken on
    /// any cache at all, without access to the real one.
    pub fn reads_cache(&self) -> (reads: bool)
        ensures
            reads == !self@.ignores_cache(),
    {
        match self {
            ResolveEvent::Requested => {
                proof {
                    let filled = seq!['/'];
                    assert(filled.len() > 0);
                    assert(resolve_step(Seq::empty(), self@).1 != resolve_step(filled, self@).1);
                }
                true
            },
            _ => false,
        }
    }
}

/// A step that completes a resolution returns a directory that is not the empty path and
/// leaves that directory in the cache.
pub proof fn lemma_returned_dir_is_cached(cache: Seq<char>, event: ResolveEventView)
    ensures
        resolve_step(cache, event).1 matches ResolveActionView::Return(dir) ==> dir.len() > 0
            && resolve_step(cache, event).0 == dir,
{
    reveal_strlit("/");
}

/// Advances the resolution of the workspace directory by one step.
///
/// The caller starts with [`ResolveEvent::Requested`], performs each action it is handed
/// and reports the outcome as the next event, until it is handed
/// [`ResolveAction::Return`]. `state` is touched only for the length of the call, so a
/// caller that guards it with a lock never holds the lock across a lookup.
pub fn get_resolved_base_dir(state: &mut AppState, event: ResolveEvent) -> (action: ResolveAction)
    ensures
        (final(state)@, action@) == resolve_step(old(state)@, event@),
        action matches ResolveAction::Return(dir) ==> dir@.len() > 0 && final(state)@ == dir@,
{
    proof {
        lemma_returned_dir_is_cached(state@, event@);
    }
    match event {
        ResolveEvent::Requested => {
            if state.base_dir.as_str().is_empty() {
                ResolveAction::ReadSetting {
                    file: String::from_str("settings.json"),
                    key: String::from_str("base_dir"),
                }
            } else {
                ResolveAction::Return(state.base_dir.clone())
            }
        },
        ResolveEvent::Persisted(Some(path)) => ResolveAction::CheckExists(path),
        ResolveEvent::Persisted(None) => ResolveAction::QueryHomeDir,
        ResolveEvent::PersistedChecked { path, exists } => {
            if exists && !path.as_str().is_empty() {
                state.base_dir = path.clone();
                ResolveAction::Return(path)
            } else {
                ResolveAction::QueryHomeDir
            }
        },
        ResolveEvent::HomeDir(home) => {
            let dir = get_default_dir(home);
            state.base_dir = dir.clone();
            ResolveAction::Return(dir)
        },
    }
}

/// What happened outside the library while a new workspace directory is being set.
#[derive(Debug)]
pub enum SetEvent {
    /// A caller asks to make `path` the workspace directory; `exists` says whether the
    /// path was found on disk.
    Requested { path: String, exists: bool },
    /// The settings store could not be opened.
    StoreUnavailable,
    /// The settings store took the new value and tried to save it durably: the outcome,
    /// with the cause as text where it failed.
    Saved(Result<(), String>),
}

/// What the caller has to do next while a new workspace directory is being set.
#[derive(Debug)]
pub enum SetAction {
    /// Write `value` under `key` in the settings file `file`, save the file, and report
    /// [`SetEvent::StoreUnavailable`] or [`SetEvent::Saved`].
    Persist { file: String, key: String, value: String },
    /// The operation is over, with this outcome.
    Finish(Result<(), Error>),
}

/// A [`SetEvent`] with its texts as character sequences.
pub enum SetEventView {
    Requested { path: Seq<char>, exists: bool },
    StoreUnavailable,
    Saved(Result<(), Seq<char>>),
}

/// A [`SetAction`] with its texts as character sequences.
pub enum SetActionView {
    Persist { file: Seq<char>, key: Seq<char>, value: Seq<char> },
    Finish(Result<(), ErrorView>),
}

impl View for SetEvent {
    type V = SetEventView;

    open spec fn view(&self) -> SetEventView {
        match self {
            SetEvent::Requested { path, exists } => SetEventView::Requested {
                path: path@,
                exists: *exists,
            },
            SetEvent::StoreUnavailable => SetEventView::StoreUnavailable,
            SetEvent::Saved(Ok(_)) => SetEventView::Saved(Ok(())),
            SetEvent::Saved(Err(cause)) => SetEventView::Saved(Err(cause@)),
        }
    }
}

impl View for SetAction {
    type V = SetActionView;

    open spec fn view(&self) -> SetActionView {
        match self {
            SetAction::Persist { file, key, value } => SetActionView::Persist {
                file: file@,
                key: key@,
                value: value@,
            },
            SetAction::Finish(Ok(_)) => SetActionView::Finish(Ok(())),
            SetAction::Finish(Err(error)) => SetActionView::Finish(Err(error@)),
        }
    }
}

/// One step of setting the workspace directory: the cache after the step and what the
/// caller does next.
///
/// An accepted path replaces the cache before anything is persisted, so a later failure to
/// persist leaves the new path in the cache and is still reported. A path that is not
/// accepted changes nothing.
pub open spec fn set_step(cache: Seq<char>, event: SetEventView) -> (Seq<char>, SetActionView) {
    match event {
        SetEventView::Requested { path, exists } => if accepts(path, exists) {
            (
                path,
                SetActionView::Persist { file: settings_file(), key: base_dir_key(), value: path },
            )
        } else {
            (
                cache,
                SetActionView::Finish(
                    Err(ErrorView::Generic("Selected directory does not exist."@)),
                ),
            )
        },
        SetEventView::StoreUnavailable => (
            cache,
            SetActionView::Finish(Err(ErrorView::Generic("Failed to access settings store"@))),
        ),
        SetEventView::Saved(Ok(_)) => (cache, SetActionView::Finish(Ok(()))),
        SetEventView::Saved(Err(cause)) => (
            cache,
            SetActionView::Finish(Err(ErrorView::Generic(cause))),
        ),
    }
}

/// Advances the setting of a new workspace directory by one step.
///
/// The caller starts with [`SetEvent::Requested`], performs the action it is handed and
/// reports the outcome as the next event, until it is handed [`SetAction::Finish`].
pub fn set_base_dir(state: &mut AppState, event: SetEvent) -> (action: SetAction)
    ensures
        (final(state)@, action@) == set_step(old(state)@, event@),
{
    match event {
        SetEvent::Requested { path, exists } => {
            if exists && !path.as_str().is_empty() {
                state.base_dir = path.clone();
                SetAction::Persist {
                    file: String::from_str("settings.json"),
                    key: String::from_str("base_dir"),
                    value: path,
                }
            } else {
                SetAction::Finish(
                    Err(Error::Generic(String::from_str("Selected directory does not exist."))),
                )
            }
        },
        SetEvent::StoreUnavailable => SetAction::Finish(
            Err(Error::Generic(String::from_str("Failed to access settings store"))),
        ),
        SetEvent::Saved(Ok(_)) => SetAction::Finish(Ok(())),
        SetEvent::Saved(Err(cause)) => SetAction::Finish(Err(Error::Generic(cause))),
    }
}

impl SetEventView {
    /// The step on this event leaves every cache as it was.
    pub open spec fn leaves_cache(self) -> bool {
        forall|cache: Seq<char>| (#[trigger] set_step(cache, self)).0 == cache
    }

    /// The step on this event hands out the same action whatever the cache holds.
    pub open spec fn ignores_cache(self) -> bool {
        forall|cache: Seq<char>, other: Seq<char>|
            (#[trigger] set_step(cache, self)).1 == (#[trigger] set_step(other, self)).1
    }
}

impl SetEvent {
    /// Whether the step on this event can change the cache. The action it hands out
    /// never depends on the cache, so where the step cannot change it, the step can be
    /// taken on any cache at all, without access to the real one.
    pub fn writes_cache(&self) -> (writes: bool)
        ensures
            writes == !self@.leaves_cache(),
            self@.ignores_cache(),
    {
        match self {
            SetEvent::Requested { path, exists } => {
                let writes = *exists && !path.as_str().is_empty();
                assert(writes ==> set_step(Seq::empty(), self@).0 != Seq::<char>::empty());
                writes
            },
            _ => false,
        }
    }
}

/// What the collaborators outside the library hold while an operation runs: the values of
/// the settings files by file and key, the directories that exist, and the home directory
/// that the system reports.
pub struct Environment {
    pub settings: Map<(Seq<char>, Seq<char>), Seq<char>>,
    pub directories: Set<Seq<char>>,
    pub home: Option<Seq<char>>,
}

impl Environment {
    /// The workspace directory that the settings hold, if any.
    pub open spec fn stored_dir(self) -> Option<Seq<char>> {
        if self.settings.contains_key((settings_file(), base_dir_key())) {
            Some(self.settings[(settings_file(), base_dir_key())])
        } else {
            None
        }
    }

    /// The directory that stands in for an empty cache: the stored one if it is accepted,
    /// else the default.
    pub open spec fn fallback_dir(self) -> Seq<char> {
        match self.stored_dir() {
            Some(path) => if accepts(path, self.directories.contains(path)) {
                path
            } else {
                default_dir(self.home)
            },
            None => default_dir(self.home),
        }
    }

    /// The event with which a faithful caller reports the outcome of `action`.
    pub open spec fn answer(self, action: ResolveActionView) -> ResolveEventView {
        match action {
            ResolveActionView::ReadSetting { file, key } => ResolveEventView::Persisted(
                if self.settings.contains_key((file, key)) {
                    Some(self.settings[(file, key)])
                } else {
                    None
                },
            ),
            ResolveActionView::CheckExists(path) => ResolveEventView::PersistedChecked {
                path,
                exists: self.directories.contains(path),
            },
            ResolveActionView::QueryHomeDir => ResolveEventView::HomeDir(self.home),
            ResolveActionView::Return(_) => ResolveEventView::Requested,
        }
    }

    /// The settings after a caller has carried out `action` and the save went through.
    pub open spec fn persisted(self, action: SetActionView) -> Environment {
        match action {
            SetActionView::Persist { file, key, value } => Environment {
                settings: self.settings.insert((file, key), value),
                ..self
            },
            SetActionView::Finish(_) => self,
        }
    }
}

/// The workspace directory under the three-tier fallback: the cached one, else the stored
/// one if it exists on disk, else the default.
pub open spec fn resolved_dir(cache: Seq<char>, env: Environment) -> Seq<char> {
    if cache.len() > 0 {
        cache
    } else {
        env.fallback_dir()
    }
}

/// The cache and the directory returned once a faithful caller has driven the resolution
/// from `event` to its end against `env`, in at most `patience` further steps.
pub open spec fn resolution(
    cache: Seq<char>,
    env: Environment,
    event: ResolveEventView,
    patience: nat,
) -> (Seq<char>, Option<Seq<char>>)
    decreases patience,
{
    let (next, action) = resolve_step(cache, event);
    match action {
        ResolveActionView::Return(dir) => (next, Some(dir)),
        _ => if patience == 0 {
            (next, None)
        } else {
            resolution(next, env, env.answer(action), (patience - 1) as nat)
        },
    }
}

/// A resolution always completes, within three lookups, with the directory of the
/// three-tier fallback, which is never the empty path, and leaves that directory in the
/// cache.
pub proof fn lemma_resolution_follows_fallback(cache: Seq<char>, env: Environment)
    ensures
        resolution(cache, env, ResolveEventView::Requested, 3) == (
            resolved_dir(cache, env),
            Some(resolved_dir(cache, env)),
        ),
        resolved_dir(cache, env).len() > 0,
{
    reveal_with_fuel(resolution, 4);
    reveal_strlit("/");
}

/// Resolving twice in a row gives the same directory both times, whatever has become of
/// the settings, the disk and the home directory in between: the second call is answered
/// from the cache that the first one filled, without a lookup.
pub proof fn lemma_resolution_is_idempotent(cache: Seq<char>, env: Environment, later: Environment)
    ensures
        ({
            let first = resolution(cache, env, ResolveEventView::Requested, 3);
            &&& resolve_step(first.0, ResolveEventView::Requested) == (
                first.0,
                ResolveActionView::Return(first.0),
            )
            &&& resolution(first.0, later, ResolveEventView::Requested, 3) == first
        }),
{
    lemma_resolution_follows_fallback(cache, env);
    lemma_resolution_follows_fallback(resolved_dir(cache, env), later);
}

/// `action` can be pending, or be handed out, in a resolution that started on an empty
/// cache under `env`.
pub open spec fn in_cold_start(env: Environment, action: ResolveActionView) -> bool {
    match action {
        ResolveActionView::ReadSetting { file, key } => file == settings_file() && key
            == base_dir_key(),
        ResolveActionView::CheckExists(path) => env.stored_dir() == Some(path),
        ResolveActionView::QueryHomeDir => env.fallback_dir() == default_dir(env.home),
        ResolveActionView::Return(dir) => dir == env.fallback_dir(),
    }
}

/// Resolutions that race on an empty cache converge. As long as nothing but resolutions
/// writes the cache, it is empty or holds the fallback directory of `env`; every step of
/// every resolution in flight, taken in any order, keeps it so, and a resolution that
/// completes returns that directory. `pending` is the action that the stepping resolution
/// was last handed, or `None` where it is only now starting.
pub proof fn lemma_cold_start_race_converges(
    env: Environment,
    cache: Seq<char>,
    pending: Option<ResolveActionView>,
)
    requires
        cache.len() == 0 || cache == env.fallback_dir(),
        pending matches Some(action) ==> in_cold_start(env, action) && !(action
            is Return),
    ensures
        ({
            let event = match pending {
                Some(action) => env.answer(action),
                None => ResolveEventView::Requested,
            };
            let (next, action) = resolve_step(cache, event);
            &&& next.len() == 0 || next == env.fallback_dir()
            &&& in_cold_start(env, action)
            &&& action is Return ==> next == env.fallback_dir()
        }),
{
}

/// Once an existing directory has been set, a request for the workspace directory returns
/// it: right after the set was accepted, and after the attempt to persist it has ended,
/// however it ended.
pub proof fn lemma_set_then_get(cache: Seq<char>, path: Seq<char>, outcome: SetEventView)
    requires
        path.len() > 0,
        !(outcome is Requested),
    ensures
        ({
            let (accepted, action) = set_step(
                cache,
                SetEventView::Requested { path, exists: true },
            );
            let (settled, end) = set_step(accepted, outcome);
            &&& action == SetActionView::Persist {
                file: settings_file(),
                key: base_dir_key(),
                value: path,
            }
            &&& end is Finish
            &&& resolve_step(accepted, ResolveEventView::Requested) == (
                path,
                ResolveActionView::Return(path),
            )
            &&& resolve_step(settled, ResolveEventView::Requested) == (
                path,
                ResolveActionView::Return(path),
            )
        }),
{
}

/// Setting a path that does not exist fails and changes nothing: a directory resolved
/// before is still the one that a request returns.
pub proof fn lemma_rejected_set_keeps_dir(cache: Seq<char>, path: Seq<char>)
    ensures
        ({
            let (kept, action) = set_step(cache, SetEventView::Requested { path, exists: false });
            &&& kept == cache
            &&& action == SetActionView::Finish(
                Err(ErrorView::Generic("Selected directory does not exist."@)),
            )
            &&& cache.len() > 0 ==> resolve_step(kept, ResolveEventView::Requested) == (
                cache,
                ResolveActionView::Return(cache),
            )
        }),
{
}

/// A directory that was set and persisted is found again by a process that starts with an
/// empty cache, as long as the directory still exists.
pub proof fn lemma_persisted_dir_is_recovered(cache: Seq<char>, env: Environment, path: Seq<char>)
    requires
        path.len() > 0,
        env.directories.contains(path),
    ensures
        ({
            let action = set_step(cache, SetEventView::Requested { path, exists: true }).1;
            resolution(Seq::empty(), env.persisted(action), ResolveEventView::Requested, 3).1
                == Some(path)
        }),
{
    let action = set_step(cache, SetEventView::Requested { path, exists: true }).1;
    lemma_resolution_follows_fallback(Seq::empty(), env.persisted(action));
}

} // verus!
