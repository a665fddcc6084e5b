//! What all connections share: whether the server runs, who is there, which version it is and
//! whether an idle shutdown has been scheduled.

use vstd::prelude::*;

use crate::config::{Config, ConfigView};
use crate::version_cache::{CacheView, VersionCache};

verus! {

#[derive(Clone, Copy, Debug, PartialEq, Eq, Structural)]
pub enum ServerState {
    Stopped,
    Starting,
    Running,
}

/// The state to begin with, from what is known of the container: nothing, or whether it runs.
pub fn initial_state(running: Option<bool>) -> (state: ServerState)
    ensures
        state == (if running == Some(true) {
            ServerState::Running
        } else {
            ServerState::Stopped
        }),
{
    match running {
        Some(true) => ServerState::Running,
        _ => ServerState::Stopped,
    }
}

pub struct SharedState {
    pub config: Config,
    pub server: ServerState,
    pub player_count: usize,
    /// Whether an idle shutdown has been scheduled and not been cancelled since.
    pub idle_timer: bool,
    /// The protocol number to show: the one in the settings until the server has been asked.
    pub detected_protocol: i32,
    /// The version name to show, once the server has been asked.
    pub detected_version: Option<String>,
}

pub struct SharedView {
    pub config: ConfigView,
    pub server: ServerState,
    pub players: int,
    pub idle_timer: bool,
    pub protocol: int,
    pub version: Option<Seq<char>>,
}

impl View for SharedState {
    type V = SharedView;

    open spec fn view(&self) -> SharedView {
        SharedView {
            config: self.config@,
            server: self.server,
            players: self.player_count as int,
            idle_timer: self.idle_timer,
            protocol: self.detected_protocol as int,
            version: match self.detected_version {
                Some(version) => Some(version@),
                None => None,
            },
        }
    }
}

/// A shutdown to carry out after `secs` seconds. Where `replaces` is set, the one that was
/// scheduled before is to be given up.
#[derive(Clone, Copy, Debug, PartialEq, Eq, Structural)]
pub struct IdleShutdown {
    pub replaces: bool,
    pub secs: u64,
}

impl SharedView {
    /// The state at start-up.
    pub open spec fn initial(config: ConfigView, cached: Option<CacheView>) -> SharedView {
        SharedView {
            config,
            server: ServerState::Stopped,
            players: 0,
            idle_timer: false,
            protocol: match cached {
                Some(cache) => cache.protocol,
                None => config.status.protocol_version,
            },
            version: match cached {
                Some(cache) => Some(cache.version),
                None => None,
            },
        }
    }

    pub open spec fn shown_version(self) -> Seq<char> {
        match self.version {
            Some(version) => version,
            None => self.config.status.version_name,
        }
    }

    pub open spec fn with_server(self, server: ServerState) -> SharedView {
        SharedView { server, ..self }
    }

    pub open spec fn with_version(self, protocol: int, version: Seq<char>) -> SharedView {
        SharedView { protocol, version: Some(version), ..self }
    }

    /// One more session.
    pub open spec fn session_begun(self) -> SharedView {
        SharedView { players: self.players + 1, ..self }
    }

    pub open spec fn idle_scheduled(self) -> SharedView {
        SharedView { idle_timer: true, ..self }
    }

    pub open spec fn idle_cancelled(self) -> SharedView {
        SharedView { idle_timer: false, ..self }
    }

    /// One session less; the last one schedules an idle shutdown.
    pub open spec fn session_ended(self) -> SharedView {
        let players = if self.players > 0 {
            self.players - 1
        } else {
            0
        };
        if players == 0 {
            SharedView { players, ..self }.idle_scheduled()
        } else {
            SharedView { players, ..self }
        }
    }

    /// The idle shutdown that the end of a session schedules, if any.
    pub open spec fn shutdown_after_session(self) -> Option<IdleShutdown> {
        if self.players <= 1 {
            Some(
                IdleShutdown {
                    replaces: self.idle_timer,
                    secs: self.config.docker.idle_shutdown_secs as u64,
                },
            )
        } else {
            None
        }
    }
}

impl SharedState {
    /// The state at start-up. A cached version goes before the one in the settings.
    pub fn new(config: Config, cached: Option<VersionCache>) -> (state: Self)
        ensures
            state@ == SharedView::initial(
                config@,
                match cached {
                    Some(cache) => Some(cache@),
                    None => None,
                },
            ),
    {
        let protocol: i32 = match &cached {
            Some(cache) => cache.protocol,
            None => config.status.protocol_version,
        };
        let version: Option<String> = match cached {
            Some(cache) => Some(cache.version),
            None => None,
        };
        SharedState {
            config,
            server: ServerState::Stopped,
            player_count: 0,
            idle_timer: false,
            detected_protocol: protocol,
            detected_version: version,
        }
    }

    pub fn current_state(&self) -> (state: ServerState)
        ensures
            state == self@.server,
    {
        self.server
    }

    pub fn set_state(&mut self, state: ServerState)
        ensures
            final(self)@ == old(self)@.with_server(state),
    {
        self.server = state;
    }

    pub fn player_count(&self) -> (count: usize)
        ensures
            count == self@.players,
    {
        self.player_count
    }

    fn add_player(&mut self) -> (count: usize)
        requires
            old(self)@.players < usize::MAX,
        ensures
            final(self)@ == old(self)@.session_begun(),
            count == final(self)@.players,
    {
        self.player_count = self.player_count + 1;
        self.player_count
    }

    fn remove_player(&mut self) -> (count: usize)
        ensures
            final(self)@ == (SharedView {
                players: if old(self)@.players > 0 {
                    old(self)@.players - 1
                } else {
                    0
                },
                ..old(self)@
            }),
            count == final(self)@.players,
    {
        if self.player_count > 0 {
            self.player_count = self.player_count - 1;
        }
        self.player_count
    }

    /// Cancels the idle shutdown, and says whether there was one to give up.
    pub fn cancel_idle_shutdown(&mut self) -> (scheduled: bool)
        ensures
            final(self)@ == old(self)@.idle_cancelled(),
            scheduled == old(self)@.idle_timer,
    {
        let scheduled: bool = self.idle_timer;
        self.idle_timer = false;
        scheduled
    }

    /// Schedules an idle shutdown in place of any that was scheduled before.
    pub fn schedule_idle_shutdown(&mut self) -> (shutdown: IdleShutdown)
        ensures
            final(self)@ == old(self)@.idle_scheduled(),
            shutdown.replaces == old(self)@.idle_timer,
            shutdown.secs == old(self)@.config.docker.idle_shutdown_secs,
    {
        let replaces: bool = self.idle_timer;
        self.idle_timer = true;
        IdleShutdown { replaces, secs: self.config.docker.idle_shutdown_secs }
    }

    /// Whether the container is to be stopped when an idle shutdown falls due: only if nobody is
    /// there.
    pub fn idle_shutdown_due(&self) -> (stop: bool)
        ensures
            stop == (self@.players == 0),
    {
        self.player_count == 0
    }

    /// Takes note of how the attempt to stop the container went. A server that could not be
    /// stopped is not reported as stopped.
    pub fn stop_finished(&mut self, stopped: bool)
        ensures
            final(self)@ == (if stopped {
                old(self)@.with_server(ServerState::Stopped)
            } else {
                old(self)@
            }),
    {
        if stopped {
            self.set_state(ServerState::Stopped);
        }
    }

    /// Takes note of how the attempt to start the container went. A container that could not be
    /// started is stopped again.
    pub fn start_finished(&mut self, started: bool)
        ensures
            final(self)@ == (if started {
                old(self)@
            } else {
                old(self)@.with_server(ServerState::Stopped)
            }),
    {
        if !started {
            self.set_state(ServerState::Stopped);
        }
    }

    pub fn protocol_version(&self) -> (protocol: i32)
        ensures
            protocol == self@.protocol,
    {
        self.detected_protocol
    }

    /// The version name to show: the one that the server gave, or else the one in the settings.
    pub fn version_name(&self) -> (name: String)
        ensures
            name@ == self@.shown_version(),
    {
        match &self.detected_version {
            Some(version) => version.clone(),
            None => self.config.status.version_name.clone(),
        }
    }

    /// Takes the version that the server gave. What comes back is to be kept for the next run; a
    /// version that was known already is not kept again.
    pub fn update_version_info(&mut self, protocol: i32, version: String) -> (kept: Option<
        VersionCache,
    >)
        ensures
            final(self)@ == old(self)@.with_version(protocol as int, version@),
            old(self)@ == old(self)@.with_version(protocol as int, version@) ==> kept is None,
            old(self)@ != old(self)@.with_version(protocol as int, version@) ==> kept is Some
                && kept->0@ == (CacheView { protocol: protocol as int, version: version@ }),
    {
        let same_version: bool = match &self.detected_version {
            Some(known) => *known == version,
            None => false,
        };
        let changed: bool = self.detected_protocol != protocol || !same_version;
        proof {
            if !changed {
                assert(self@.version == Some(version@));
            }
        }
        self.detected_protocol = protocol;
        self.detected_version = Some(version.clone());
        if changed {
            Some(VersionCache { protocol, version })
        } else {
            None
        }
    }

    /// Counts a login attempt among the players. The session lasts until the guard that comes
    /// back is handed to `SessionGuard::end`.
    pub fn begin_session(&mut self) -> (session: SessionGuard)
        requires
            old(self)@.players < usize::MAX,
        ensures
            final(self)@ == old(self)@.session_begun(),
    {
        self.add_player();
        SessionGuard { open: () }
    }
}

/// A session that has begun and not ended.
#[must_use]
pub struct SessionGuard {
    open: (),
}

impl SessionGuard {
    /// Ends the session. The last one schedules an idle shutdown.
    pub fn end(self, state: &mut SharedState) -> (shutdown: Option<IdleShutdown>)
        ensures
            final(state)@ == old(state)@.session_ended(),
            shutdown == old(state)@.shutdown_after_session(),
    {
        let remaining: usize = state.remove_player();
        if remaining == 0 {
            Some(state.schedule_idle_shutdown())
        } else {
            None
        }
    }
}

/// A session that ends leaves as many players as there were before it began.
pub proof fn law_session_round_trip(state: SharedView)
    requires
        state.players >= 0,
    ensures
        state.session_begun().session_ended().players == state.players,
        state.session_begun().session_ended().server == state.server,
        state.session_begun().shutdown_after_session() is Some <==> state.players == 0,
{
}

/// Whenever the end of a session leaves nobody behind, it schedules an idle shutdown, and whenever
/// somebody is left, the end of the session schedules none.
pub proof fn law_last_session_schedules_shutdown(state: SharedView)
    ensures
        state.session_ended().players == 0 ==> state.session_ended().idle_timer
            && state.shutdown_after_session() is Some,
        state.session_ended().players > 0 ==> state.session_ended().idle_timer == state.idle_timer
            && state.shutdown_after_session() is None,
{
}

/// A version that was taken and kept is shown again after a restart, whatever the settings say.
pub proof fn law_version_survives_restart(
    state: SharedView,
    protocol: int,
    version: Seq<char>,
    config: ConfigView,
)
    ensures
        ({
            let taken = state.with_version(protocol, version);
            let restarted = SharedView::initial(config, Some(CacheView { protocol, version }));
            &&& restarted.protocol == taken.protocol
            &&& restarted.shown_version() == taken.shown_version()
        }),
{
}

/// At start-up the server counts as stopped, nobody is there and no shutdown is scheduled. The
/// version to show is the cached one; without one it is the one in the settings.
pub proof fn law_start_up(config: ConfigView, cached: Option<CacheView>)
    ensures
        ({
            let state = SharedView::initial(config, cached);
            &&& state.config == config
            &&& state.server == ServerState::Stopped
            &&& state.players == 0
            &&& !state.idle_timer
            &&& cached is None ==> state.protocol == config.status.protocol_version
                && state.shown_version() == config.status.version_name && state.version is None
            &&& cached matches Some(cache) ==> state.protocol == cache.protocol
                && state.shown_version() == cache.version && state.version == Some(cache.version)
        }),
{
}

/// A version that was taken is shown from then on, both its parts as they were given, and nothing
/// else changes. Until one is taken, the name in the settings is shown.
pub proof fn law_version_is_shown(state: SharedView, protocol: int, version: Seq<char>)
    ensures
        ({
            let taken = state.with_version(protocol, version);
            &&& taken.protocol == protocol
            &&& taken.version == Some(version)
            &&& taken.shown_version() == version
            &&& taken.config == state.config && taken.server == state.server
            &&& taken.players == state.players && taken.idle_timer == state.idle_timer
            &&& state.version is None ==> state.shown_version() == state.config.status.version_name
        }),
{
}

/// The state of the server, and whether a shutdown is scheduled, change by themselves alone.
pub proof fn law_single_changes(state: SharedView, server: ServerState)
    ensures
        ({
            let set = state.with_server(server);
            let scheduled = state.idle_scheduled();
            let cancelled = state.idle_cancelled();
            &&& set.server == server && set.idle_timer == state.idle_timer
            &&& scheduled.idle_timer && scheduled.server == state.server
            &&& !cancelled.idle_timer && cancelled.server == state.server
            &&& set.players == state.players && scheduled.players == state.players
                && cancelled.players == state.players
            &&& set.config == state.config && scheduled.config == state.config && cancelled.config
                == state.config
            &&& set.protocol == state.protocol && scheduled.protocol == state.protocol
                && cancelled.protocol == state.protocol
            &&& set.version == state.version && scheduled.version == state.version
                && cancelled.version == state.version
        }),
{
}

/// A session that begins adds one player and changes nothing else. One that ends takes one away, if
/// there is one; where it leaves nobody, an idle shutdown is scheduled after the time in the
/// settings, in place of one that was scheduled before, and otherwise none.
pub proof fn law_sessions_are_counted(state: SharedView)
    requires
        state.players >= 0,
        0 <= state.config.docker.idle_shutdown_secs <= u64::MAX,
    ensures
        ({
            let begun = state.session_begun();
            let ended = state.session_ended();
            let shutdown = state.shutdown_after_session();
            let left = if state.players > 0 {
                state.players - 1
            } else {
                0
            };
            &&& begun.players == state.players + 1 && begun.idle_timer == state.idle_timer
            &&& ended.players == left && ended.idle_timer == (left == 0 || state.idle_timer)
            &&& begun.server == state.server && ended.server == state.server
            &&& begun.config == state.config && ended.config == state.config
            &&& begun.protocol == state.protocol && ended.protocol == state.protocol
            &&& begun.version == state.version && ended.version == state.version
            &&& shutdown is Some <==> left == 0
            &&& shutdown matches Some(idle) ==> idle.replaces == state.idle_timer && idle.secs
                == state.config.docker.idle_shutdown_secs
        }),
{
}

/// What the contracts speak of is what the fields hold.
pub proof fn law_shared_view(state: SharedState)
    ensures
        state@.config == state.config@,
        state@.server == state.server,
        state@.players == state.player_count,
        state@.idle_timer == state.idle_timer,
        state@.protocol == state.detected_protocol,
        state@.version is Some <==> state.detected_version is Some,
        state.detected_version matches Some(version) ==> state@.version == Some(version@),
{
}

} // verus!
