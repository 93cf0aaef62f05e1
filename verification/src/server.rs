//! The lifecycle of one language-server process, as a state machine the
//! process owner drives: spawned, initializing, initialized, shutting down,
//! exited. Feature requests are allowed only while initialized; once a
//! shutdown began, every request fails with `ServerShutdown`.

use vstd::prelude::*;

verus! {

/// The lifecycle states of a language-server process.
#[derive(Clone, Copy, Debug, PartialEq, Eq, Structural)]
pub enum LifecycleState {
    /// The subprocess is started; no protocol traffic happened yet.
    Spawned,
    /// The initialize request is in flight.
    Initializing,
    /// The handshake finished; feature requests may be issued.
    Initialized,
    /// A shutdown was requested; pending requests may be abandoned.
    ShuttingDown,
    /// The process is gone.
    Exited,
}

/// Why a lifecycle step or a request was refused.
#[derive(Clone, Copy, Debug, PartialEq, Eq, Structural)]
pub enum LifecycleError {
    /// The step does not exist from the current state.
    InvalidTransition,
    /// The handshake has not finished yet.
    NotInitialized,
    /// The server was shut down; terminal for this process.
    ServerShutdown,
}

/// The lifecycle of one server process.
pub struct ServerLifecycle {
    pub state: LifecycleState,
}

impl ServerLifecycle {
    /// A freshly spawned process.
    pub fn new() -> (s: ServerLifecycle)
        ensures
            s.state == LifecycleState::Spawned,
    {
        ServerLifecycle { state: LifecycleState::Spawned }
    }

    /// Starts the initialize handshake. Allowed only right after the spawn.
    pub fn begin_initialize(&mut self) -> (r: Result<(), LifecycleError>)
        ensures
            match r {
                Ok(()) => old(self).state == LifecycleState::Spawned && final(self).state
                    == LifecycleState::Initializing,
                Err(e) => {
                    &&& e == LifecycleError::InvalidTransition
                    &&& old(self).state != LifecycleState::Spawned
                    &&& *final(self) == *old(self)
                },
            },
    {
        match self.state {
            LifecycleState::Spawned => {
                self.state = LifecycleState::Initializing;
                Ok(())
            },
            _ => Err(LifecycleError::InvalidTransition),
        }
    }

    /// Records the handshake's completion: capabilities are received and the
    /// initialized acknowledgement was sent. Only after this may feature
    /// requests be issued.
    pub fn complete_initialize(&mut self) -> (r: Result<(), LifecycleError>)
        ensures
            match r {
                Ok(()) => old(self).state == LifecycleState::Initializing && final(self).state
                    == LifecycleState::Initialized,
                Err(e) => {
                    &&& e == LifecycleError::InvalidTransition
                    &&& old(self).state != LifecycleState::Initializing
                    &&& *final(self) == *old(self)
                },
            },
    {
        match self.state {
            LifecycleState::Initializing => {
                self.state = LifecycleState::Initialized;
                Ok(())
            },
            _ => Err(LifecycleError::InvalidTransition),
        }
    }

    /// Requests a shutdown: a hard deadline from any live state. A process
    /// that already exited stays exited.
    pub fn begin_shutdown(&mut self)
        ensures
            old(self).state == LifecycleState::Exited ==> final(self).state
                == LifecycleState::Exited,
            old(self).state != LifecycleState::Exited ==> final(self).state
                == LifecycleState::ShuttingDown,
    {
        match self.state {
            LifecycleState::Exited => {},
            _ => {
                self.state = LifecycleState::ShuttingDown;
            },
        }
    }

    /// Records the process's termination after a shutdown request.
    pub fn complete_exit(&mut self) -> (r: Result<(), LifecycleError>)
        ensures
            match r {
                Ok(()) => old(self).state == LifecycleState::ShuttingDown && final(self).state
                    == LifecycleState::Exited,
                Err(e) => {
                    &&& e == LifecycleError::InvalidTransition
                    &&& old(self).state != LifecycleState::ShuttingDown
                    &&& *final(self) == *old(self)
                },
            },
    {
        match self.state {
            LifecycleState::ShuttingDown => {
                self.state = LifecycleState::Exited;
                Ok(())
            },
            _ => Err(LifecycleError::InvalidTransition),
        }
    }

    /// Whether a feature request may be issued now: only while initialized.
    /// After a shutdown began the answer is `ServerShutdown`; before the
    /// handshake finished it is `NotInitialized`.
    pub fn check_request(&self) -> (r: Result<(), LifecycleError>)
        ensures
            match r {
                Ok(()) => self.state == LifecycleState::Initialized,
                Err(e) => if e == LifecycleError::ServerShutdown {
                    self.state == LifecycleState::ShuttingDown || self.state
                        == LifecycleState::Exited
                } else {
                    &&& e == LifecycleError::NotInitialized
                    &&& (self.state == LifecycleState::Spawned || self.state
                        == LifecycleState::Initializing)
                },
            },
    {
        match self.state {
            LifecycleState::Initialized => Ok(()),
            LifecycleState::ShuttingDown => Err(LifecycleError::ServerShutdown),
            LifecycleState::Exited => Err(LifecycleError::ServerShutdown),
            _ => Err(LifecycleError::NotInitialized),
        }
    }
}

} // verus!
