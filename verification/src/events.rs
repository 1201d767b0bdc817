//! What happens in the application and how it reacts: events, keys, views and
//! render actions.
use crate::containers::{
    Container, ContainerAction, ContainerKey, ContainerState, ContainerStats, HealthStatus, HostId,
};
use crate::docker::DockerHost;
use crate::logs::LogEntry;
use vstd::prelude::*;

verus! {

/// A key on the keyboard, as far as the application tells keys apart.
#[derive(Clone, Copy, Debug, PartialEq, Eq, Structural)]
pub enum Key {
    Up,
    Down,
    PageUp,
    PageDown,
    Home,
    End,
    Enter,
    Esc,
    Char(char),
    Other,
}

#[derive(Debug)]
pub enum AppEvent {
    /// Initial list of containers when app starts for a specific host
    InitialContainerList(HostId, Vec<Container>),
    /// A new container was created/started (host_id is in the Container)
    ContainerCreated(Container),
    /// A container was stopped/destroyed on a specific host
    ContainerDestroyed(ContainerKey),
    /// A container's state changed (e.g., from Running to Exited)
    ContainerStateChanged(ContainerKey, ContainerState),
    /// Stats update for an existing container on a specific host
    ContainerStat(ContainerKey, ContainerStats),
    /// Health status changed for a container
    ContainerHealthChanged(ContainerKey, HealthStatus),
    /// Restart count for a container, backfilled after the initial list is sent.
    /// The list API does not carry it, so it is inspected off the critical path.
    ContainerRestartCount(ContainerKey, i64),
    /// User requested to quit
    Quit,
    /// Terminal was resized
    Resize,
    /// A keyboard input event - dispatched by AppState based on view state
    KeyInput(Key),
    /// Batch of historical logs to prepend (initial load AND pagination)
    /// bool indicates if there are more historical logs available before this batch
    LogBatchPrepend(ContainerKey, Vec<LogEntry>, bool),
    /// New log line received from streaming logs
    LogLine(ContainerKey, LogEntry),
    /// Action is in progress
    ActionInProgress(ContainerKey, ContainerAction),
    /// Action completed successfully
    ActionSuccess(ContainerKey, ContainerAction),
    /// Action failed with error
    ActionError(ContainerKey, ContainerAction, String),
    /// Connection to a Docker host failed
    ConnectionError(HostId, String),
    /// A new Docker host has successfully connected
    HostConnected(DockerHost),
    /// Lost the connection to a Docker host that was previously connected
    /// (e.g. the daemon was restarted). The host is being retried in the background.
    HostDisconnected(HostId),
    /// A previously disconnected Docker host became reachable again
    HostReconnected(HostId),
}

/// Action to take after processing an event
#[derive(Clone, Debug, PartialEq)]
pub enum RenderAction {
    /// Don't render
    Nothing,
    /// Normal render
    Render,
    /// Start a shell session for a container
    StartShell(ContainerKey),
}

/// Current view state of the application
#[derive(Clone, Debug, PartialEq)]
pub enum ViewState {
    /// Viewing the container list
    ContainerList,
    /// Viewing logs for a specific container
    LogView(ContainerKey),
    /// Viewing action menu for a specific container
    ActionMenu(ContainerKey),
    /// Search mode active (editing search query)
    SearchMode,
    /// Column selector popup
    ColumnSelector,
    /// Sort selector popup
    SortSelector,
}

} // verus!
