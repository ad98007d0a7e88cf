//! Discord Rich Presence: the state of the connection and what is sent.
//!
//! The connection itself (the IPC client) lives with the caller, which
//! performs the calls this module asks for and reports how they went. The
//! state here records whether a client is open, whether it is connected,
//! and the application id it was started with.
use vstd::prelude::*;

verus! {

/// A "Now Playing" activity to show on Discord.
#[derive(Clone, Debug, PartialEq)]
pub struct RpcActivity {
    pub details: Option<String>,
    pub state: Option<String>,
    pub large_image_key: Option<String>,
    pub large_image_text: Option<String>,
    pub small_image_key: Option<String>,
    pub small_image_text: Option<String>,
    /// Unix time in seconds.
    pub start_timestamp: Option<i64>,
    /// Unix time in seconds.
    pub end_timestamp: Option<i64>,
}

/// A button of a Rich Presence activity.
#[derive(Clone, Debug, PartialEq)]
pub struct RpcButton {
    pub label: String,
    pub url: String,
}

/// The images of an activity.
#[derive(Clone, Debug, PartialEq)]
pub struct ActivityAssets {
    pub large_image: Option<String>,
    pub large_text: Option<String>,
    pub small_image: Option<String>,
    pub small_text: Option<String>,
}

/// The start and end of an activity.
#[derive(Clone, Copy, Debug, PartialEq)]
pub struct ActivityTimestamps {
    pub start: Option<i64>,
    pub end: Option<i64>,
}

/// The "Listening" activity sent to Discord: its texts, and its images and
/// times only when any of them is given.
#[derive(Clone, Debug, PartialEq)]
pub struct ActivityPlan {
    pub details: Option<String>,
    pub state: Option<String>,
    pub assets: Option<ActivityAssets>,
    pub timestamps: Option<ActivityTimestamps>,
}

/// Why a Rich Presence operation failed.
#[derive(Clone, Copy, Debug, PartialEq, Eq)]
pub enum RpcError {
    /// An activity was to be set while not connected.
    NotConnected,
    /// Connected, but no client is open.
    NotInitialized,
    /// Connecting to Discord failed.
    ConnectFailed,
    /// Closing the client failed.
    CloseFailed,
    /// Discord refused the activity.
    SetActivityFailed,
    /// Discord refused to clear the activity.
    ClearActivityFailed,
}

/// The message of an error.
pub open spec fn rpc_error_text(e: RpcError) -> Seq<char> {
    match e {
        RpcError::NotConnected => "Discord RPC is not connected"@,
        RpcError::NotInitialized => "Discord RPC client is not initialized"@,
        RpcError::ConnectFailed => "Failed to connect to Discord"@,
        RpcError::CloseFailed => "Failed to close Discord RPC client"@,
        RpcError::SetActivityFailed => "Failed to set Discord activity"@,
        RpcError::ClearActivityFailed => "Failed to clear Discord activity"@,
    }
}

impl RpcError {
    /// The error's message; for the failures of a call, the caller adds the
    /// call's own error after a colon.
    pub fn message(&self) -> (s: String)
        ensures
            s@ == rpc_error_text(*self),
    {
        match self {
            RpcError::NotConnected => String::from_str("Discord RPC is not connected"),
            RpcError::NotInitialized => String::from_str("Discord RPC client is not initialized"),
            RpcError::ConnectFailed => String::from_str("Failed to connect to Discord"),
            RpcError::CloseFailed => String::from_str("Failed to close Discord RPC client"),
            RpcError::SetActivityFailed => String::from_str("Failed to set Discord activity"),
            RpcError::ClearActivityFailed => String::from_str("Failed to clear Discord activity"),
        }
    }
}

/// Whether an activity names any image or image text.
pub open spec fn has_assets(a: RpcActivity) -> bool {
    a.large_image_key is Some || a.large_image_text is Some || a.small_image_key is Some
        || a.small_image_text is Some
}

/// Whether an activity names a start or end time.
pub open spec fn has_timestamps(a: RpcActivity) -> bool {
    a.start_timestamp is Some || a.end_timestamp is Some
}

/// The activity sent for `a`.
pub open spec fn activity_plan(a: RpcActivity) -> ActivityPlan {
    ActivityPlan {
        details: a.details,
        state: a.state,
        assets: if has_assets(a) {
            Some(
                ActivityAssets {
                    large_image: a.large_image_key,
                    large_text: a.large_image_text,
                    small_image: a.small_image_key,
                    small_text: a.small_image_text,
                },
            )
        } else {
            None
        },
        timestamps: if has_timestamps(a) {
            Some(ActivityTimestamps { start: a.start_timestamp, end: a.end_timestamp })
        } else {
            None
        },
    }
}

/// The images sent for an activity are its image keys and their hover
/// texts are its image texts, large with large and small with small; they
/// are sent exactly when the activity names any of the four.
pub proof fn lemma_plan_assets(a: RpcActivity)
    ensures
        activity_plan(a).assets is Some <==> (a.large_image_key is Some || a.large_image_text is Some
            || a.small_image_key is Some || a.small_image_text is Some),
        activity_plan(a).assets matches Some(x) ==> x.large_image == a.large_image_key
            && x.large_text == a.large_image_text && x.small_image == a.small_image_key
            && x.small_text == a.small_image_text,
        activity_plan(a).details == a.details && activity_plan(a).state == a.state,
{
}

/// Builds the activity to send for `activity`: its details and state, its
/// images when any is given, its times when any is given.
pub fn plan_activity(activity: &RpcActivity) -> (p: ActivityPlan)
    ensures
        p == activity_plan(*activity),
{
    let assets = if activity.large_image_key.is_some() || activity.large_image_text.is_some()
        || activity.small_image_key.is_some() || activity.small_image_text.is_some() {
        Some(
            ActivityAssets {
                large_image: activity.large_image_key.clone(),
                large_text: activity.large_image_text.clone(),
                small_image: activity.small_image_key.clone(),
                small_text: activity.small_image_text.clone(),
            },
        )
    } else {
        None
    };
    let timestamps = if activity.start_timestamp.is_some() || activity.end_timestamp.is_some() {
        Some(ActivityTimestamps { start: activity.start_timestamp, end: activity.end_timestamp })
    } else {
        None
    };
    ActivityPlan {
        details: activity.details.clone(),
        state: activity.state.clone(),
        assets,
        timestamps,
    }
}

/// The Rich Presence connection as this side knows it.
#[derive(Clone, Debug, PartialEq)]
pub struct DiscordRpcState {
    /// The application id of the last start.
    pub app_id: Option<String>,
    /// A client is open (and owned by the caller).
    pub client_open: bool,
    /// The client is connected to Discord.
    pub is_connected: bool,
}

/// What the caller does before an activity call.
#[derive(Clone, Copy, Debug, PartialEq, Eq)]
pub enum CallGate {
    /// Make the call, then report it.
    Call,
    /// Do nothing; the operation succeeds.
    Skip,
    /// Do nothing; the operation fails with this error.
    Fail(RpcError),
}

impl DiscordRpcState {
    /// No application, no client, not connected.
    pub fn new() -> (s: DiscordRpcState)
        ensures
            s.app_id is None,
            !s.client_open,
            !s.is_connected,
    {
        DiscordRpcState { app_id: None, client_open: false, is_connected: false }
    }

    /// Whether the presence is running: whether it is connected.
    pub fn is_running(&self) -> (b: bool)
        ensures
            b == self.is_connected,
    {
        self.is_connected
    }

    /// Starts with `app_id`: the id is recorded and the open client, if
    /// any, is given up. Returns whether there was one, which the caller
    /// closes (ignoring how that goes) before it connects a new client.
    pub fn start_begin(&mut self, app_id: String) -> (close_existing: bool)
        ensures
            close_existing == old(self).client_open,
            *final(self) == (DiscordRpcState {
                app_id: Some(app_id),
                client_open: false,
                is_connected: old(self).is_connected,
            }),
    {
        let had = self.client_open;
        self.app_id = Some(app_id);
        self.client_open = false;
        had
    }

    /// The new client connected (`connected`) or failed to. On success a
    /// client is open and connected; on failure nothing changes and the
    /// start fails.
    pub fn start_done(&mut self, connected: bool) -> (r: Result<(), RpcError>)
        ensures
            connected ==> r is Ok && *final(self) == (DiscordRpcState {
                client_open: true,
                is_connected: true,
                ..*old(self)
            }),
            !connected ==> r == Err::<(), RpcError>(RpcError::ConnectFailed) && *final(self)
                == *old(self),
    {
        if connected {
            self.client_open = true;
            self.is_connected = true;
            Ok(())
        } else {
            Err(RpcError::ConnectFailed)
        }
    }

    /// Stops: the open client, if any, is given up; returns whether there
    /// was one, which the caller closes and reports with `stop_done`.
    pub fn stop_begin(&mut self) -> (close: bool)
        ensures
            close == old(self).client_open,
            *final(self) == (DiscordRpcState { client_open: false, ..*old(self) }),
    {
        let had = self.client_open;
        self.client_open = false;
        had
    }

    /// The client was closed (`closed`), or there was none to close. A
    /// failed close fails the stop and leaves the connection flag as it
    /// was; otherwise the presence is no longer connected.
    pub fn stop_done(&mut self, closed: bool) -> (r: Result<(), RpcError>)
        ensures
            closed ==> r is Ok && *final(self) == (DiscordRpcState {
                is_connected: false,
                ..*old(self)
            }),
            !closed ==> r == Err::<(), RpcError>(RpcError::CloseFailed) && *final(self)
                == *old(self),
    {
        if closed {
            self.is_connected = false;
            Ok(())
        } else {
            Err(RpcError::CloseFailed)
        }
    }

    /// Whether an activity can be set: not while disconnected, nor without
    /// an open client.
    pub fn set_activity_gate(&self) -> (g: CallGate)
        ensures
            g == (if !self.is_connected {
                CallGate::Fail(RpcError::NotConnected)
            } else if !self.client_open {
                CallGate::Fail(RpcError::NotInitialized)
            } else {
                CallGate::Call
            }),
    {
        if !self.is_connected {
            CallGate::Fail(RpcError::NotConnected)
        } else if !self.client_open {
            CallGate::Fail(RpcError::NotInitialized)
        } else {
            CallGate::Call
        }
    }

    /// Whether the activity can be cleared: clearing while disconnected does
    /// nothing and succeeds; without an open client it fails.
    pub fn clear_activity_gate(&self) -> (g: CallGate)
        ensures
            g == (if !self.is_connected {
                CallGate::Skip
            } else if !self.client_open {
                CallGate::Fail(RpcError::NotInitialized)
            } else {
                CallGate::Call
            }),
    {
        if !self.is_connected {
            CallGate::Skip
        } else if !self.client_open {
            CallGate::Fail(RpcError::NotInitialized)
        } else {
            CallGate::Call
        }
    }

    /// An activity call went through (`ok`) or not. A failed call means the
    /// connection may be dead: the presence is no longer connected, and
    /// the operation fails with `failure`.
    pub fn call_done(&mut self, ok: bool, failure: RpcError) -> (r: Result<(), RpcError>)
        ensures
            ok ==> r is Ok && *final(self) == *old(self),
            !ok ==> r == Err::<(), RpcError>(failure) && *final(self) == (DiscordRpcState {
                is_connected: false,
                ..*old(self)
            }),
    {
        if ok {
            Ok(())
        } else {
            self.is_connected = false;
            Err(failure)
        }
    }
}

impl Default for DiscordRpcState {
    fn default() -> (s: DiscordRpcState)
        ensures
            s.app_id is None,
            !s.client_open,
            !s.is_connected,
    {
        DiscordRpcState::new()
    }
}

} // verus!
