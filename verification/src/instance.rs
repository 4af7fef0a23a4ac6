//! The handle of one instance: its configuration and where it stands in its
//! life, from creation to termination.

use vstd::prelude::*;

use crate::config::{Config, ConfigView};
use crate::error::LaunchError;

verus! {

/// Where an instance stands in its life.
#[derive(Debug, PartialEq, Eq)]
pub enum InstanceState {
    /// Constructed and not started yet.
    Created,
    /// Started and not terminated yet.
    Running,
    /// Terminated without an error.
    Stopped,
    /// Terminated with this error.
    Errored(String),
}

/// An [`InstanceState`] as a mathematical value.
pub enum InstanceStateView {
    Created,
    Running,
    Stopped,
    Errored(Seq<char>),
}

impl View for InstanceState {
    type V = InstanceStateView;

    open spec fn view(&self) -> InstanceStateView {
        match self {
            InstanceState::Created => InstanceStateView::Created,
            InstanceState::Running => InstanceStateView::Running,
            InstanceState::Stopped => InstanceStateView::Stopped,
            InstanceState::Errored(message) => InstanceStateView::Errored(message@),
        }
    }
}

impl Clone for InstanceState {
    fn clone(&self) -> (r: Self)
        ensures
            r@ == self@,
    {
        match self {
            InstanceState::Created => InstanceState::Created,
            InstanceState::Running => InstanceState::Running,
            InstanceState::Stopped => InstanceState::Stopped,
            InstanceState::Errored(message) => InstanceState::Errored(message.clone()),
        }
    }
}

/// A point-in-time status record of one instance.
#[derive(Debug, PartialEq, Eq)]
pub struct RunningInfo {
    pub instance_name: String,
    pub running: bool,
    pub error_msg: Option<String>,
}

/// What a [`RunningInfo`] holds, as mathematical values.
pub struct RunningInfoView {
    pub instance_name: Seq<char>,
    pub running: bool,
    pub error_msg: Option<Seq<char>>,
}

impl View for RunningInfo {
    type V = RunningInfoView;

    open spec fn view(&self) -> RunningInfoView {
        RunningInfoView {
            instance_name: self.instance_name@,
            running: self.running,
            error_msg: match self.error_msg {
                Some(message) => Some(message@),
                None => None,
            },
        }
    }
}

/// The view of a status record that may be absent.
pub open spec fn optional_info_view(info: Option<RunningInfo>) -> Option<RunningInfoView> {
    match info {
        Some(i) => Some(i@),
        None => None,
    }
}

/// The view of an error message that may be absent.
pub open spec fn optional_text(text: Option<String>) -> Option<Seq<char>> {
    match text {
        Some(t) => Some(t@),
        None => None,
    }
}

/// What an [`InstanceHandle`] holds, as mathematical values.
pub struct InstanceHandleView {
    pub config: ConfigView,
    pub state: InstanceStateView,
}

impl InstanceHandleView {
    /// An instance is live from its creation until it terminates.
    pub open spec fn is_live(self) -> bool {
        self.state is Created || self.state is Running
    }

    /// The handle after a start: a created instance runs, any other is
    /// left as it is.
    pub open spec fn started(self) -> InstanceHandleView {
        if self.state is Created {
            InstanceHandleView { config: self.config, state: InstanceStateView::Running }
        } else {
            self
        }
    }

    /// The handle after the termination of its instance, with the error it
    /// ended with, if any: a running instance becomes stopped or errored,
    /// any other is left as it is.
    pub open spec fn terminated(self, error: Option<Seq<char>>) -> InstanceHandleView {
        if self.state is Running {
            InstanceHandleView {
                config: self.config,
                state: match error {
                    Some(message) => InstanceStateView::Errored(message),
                    None => InstanceStateView::Stopped,
                },
            }
        } else {
            self
        }
    }

    /// The status record of the instance. There is none before the start.
    pub open spec fn info(self) -> Option<RunningInfoView> {
        match self.state {
            InstanceStateView::Created => None,
            InstanceStateView::Running => Some(
                RunningInfoView {
                    instance_name: self.config.instance_name,
                    running: true,
                    error_msg: None,
                },
            ),
            InstanceStateView::Stopped => Some(
                RunningInfoView {
                    instance_name: self.config.instance_name,
                    running: false,
                    error_msg: None,
                },
            ),
            InstanceStateView::Errored(message) => Some(
                RunningInfoView {
                    instance_name: self.config.instance_name,
                    running: false,
                    error_msg: Some(message),
                },
            ),
        }
    }
}

/// One instance: the configuration it was made from and its state.
#[derive(Debug, PartialEq, Eq)]
pub struct InstanceHandle {
    config: Config,
    state: InstanceState,
}

impl View for InstanceHandle {
    type V = InstanceHandleView;

    closed spec fn view(&self) -> InstanceHandleView {
        InstanceHandleView { config: self.config@, state: self.state@ }
    }
}

impl Clone for InstanceHandle {
    fn clone(&self) -> (r: Self)
        ensures
            r@ == self@,
    {
        InstanceHandle { config: self.config.clone(), state: self.state.clone() }
    }
}

impl InstanceHandle {
    /// A handle for an instance that is made from `config` and not started
    /// yet.
    pub fn new(config: Config) -> (h: InstanceHandle)
        ensures
            h@ == (InstanceHandleView { config: config@, state: InstanceStateView::Created }),
    {
        InstanceHandle { config, state: InstanceState::Created }
    }

    /// The configuration that the instance was made from.
    pub fn config(&self) -> (c: &Config)
        ensures
            c@ == self@.config,
    {
        &self.config
    }

    /// The state of the instance.
    pub fn state(&self) -> (s: InstanceState)
        ensures
            s@ == self@.state,
    {
        self.state.clone()
    }

    /// Whether the instance has not terminated yet.
    pub fn is_live(&self) -> (r: bool)
        ensures
            r == self@.is_live(),
    {
        match self.state {
            InstanceState::Created => true,
            InstanceState::Running => true,
            InstanceState::Stopped => false,
            InstanceState::Errored(_) => false,
        }
    }

    /// Starts the instance, which hands out its one event stream. A handle
    /// starts once: on one that was started before, the call fails with
    /// `StartError` and changes nothing.
    pub fn start(&mut self) -> (r: Result<(), LaunchError>)
        ensures
            r is Ok <==> old(self)@.state is Created,
            r matches Err(e) ==> e == LaunchError::StartError,
            final(self)@ == old(self)@.started(),
    {
        match self.state {
            InstanceState::Created => {
                self.state = InstanceState::Running;
                Ok(())
            },
            _ => Err(LaunchError::StartError),
        }
    }

    /// Records that the instance has terminated, with the error it ended
    /// with, if any. Only a running instance terminates.
    pub fn terminate(&mut self, error: Option<String>)
        ensures
            final(self)@ == old(self)@.terminated(optional_text(error)),
    {
        match self.state {
            InstanceState::Running => {
                self.state = match error {
                    Some(message) => InstanceState::Errored(message),
                    None => InstanceState::Stopped,
                };
            },
            _ => {},
        }
    }

    /// A fresh status record of the instance, or nothing before the start.
    pub fn running_info(&self) -> (info: Option<RunningInfo>)
        ensures
            optional_info_view(info) == self@.info(),
    {
        match &self.state {
            InstanceState::Created => None,
            InstanceState::Running => Some(
                RunningInfo {
                    instance_name: self.config.instance_name.clone(),
                    running: true,
                    error_msg: None,
                },
            ),
            InstanceState::Stopped => Some(
                RunningInfo {
                    instance_name: self.config.instance_name.clone(),
                    running: false,
                    error_msg: None,
                },
            ),
            InstanceState::Errored(message) => Some(
                RunningInfo {
                    instance_name: self.config.instance_name.clone(),
                    running: false,
                    error_msg: Some(message.clone()),
                },
            ),
        }
    }
}

} // verus!
