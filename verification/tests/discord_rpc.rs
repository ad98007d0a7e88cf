use aurelia::discord_rpc::{
    plan_activity, ActivityAssets, ActivityTimestamps, CallGate, DiscordRpcState, RpcActivity, RpcError,
};

fn activity() -> RpcActivity {
    RpcActivity {
        details: Some("Song".to_string()),
        state: Some("by Artist".to_string()),
        large_image_key: None,
        large_image_text: None,
        small_image_key: None,
        small_image_text: None,
        start_timestamp: None,
        end_timestamp: None,
    }
}

#[test]
fn plan_includes_assets_and_times_only_when_given() {
    let plain = plan_activity(&activity());
    assert_eq!(plain.details, Some("Song".to_string()));
    assert_eq!(plain.assets, None);
    assert_eq!(plain.timestamps, None);

    let mut a = activity();
    a.small_image_text = Some("paused".to_string());
    a.end_timestamp = Some(1_700_000_000);
    let plan = plan_activity(&a);
    assert_eq!(
        plan.assets,
        Some(ActivityAssets { large_image: None, large_text: None, small_image: None, small_text: Some("paused".to_string()) })
    );
    assert_eq!(plan.timestamps, Some(ActivityTimestamps { start: None, end: Some(1_700_000_000) }));
}

#[test]
fn presence_lifecycle() {
    let mut st = DiscordRpcState::new();
    assert!(!st.is_running());
    assert_eq!(st.set_activity_gate(), CallGate::Fail(RpcError::NotConnected));
    assert_eq!(st.clear_activity_gate(), CallGate::Skip);

    assert!(!st.start_begin("app-1".to_string()));
    assert_eq!(st.start_done(false), Err(RpcError::ConnectFailed));
    assert!(!st.is_running());
    assert!(!st.start_begin("app-1".to_string()));
    assert_eq!(st.start_done(true), Ok(()));
    assert!(st.is_running());
    assert_eq!(st.app_id, Some("app-1".to_string()));
    assert_eq!(st.set_activity_gate(), CallGate::Call);

    // A failed call drops the connection.
    assert_eq!(st.call_done(false, RpcError::SetActivityFailed), Err(RpcError::SetActivityFailed));
    assert!(!st.is_running());
    assert_eq!(st.clear_activity_gate(), CallGate::Skip);

    // Restarting closes the open client first.
    assert!(st.start_begin("app-2".to_string()));
    assert_eq!(st.start_done(true), Ok(()));
    assert!(st.stop_begin());
    assert_eq!(st.stop_done(true), Ok(()));
    assert!(!st.is_running());
    assert!(!st.client_open);
    assert_eq!(RpcError::NotConnected.message(), "Discord RPC is not connected");
}

#[test]
fn failed_close_keeps_connection_flag() {
    let mut st = DiscordRpcState::default();
    st.start_begin("a".to_string());
    st.start_done(true).unwrap();
    assert!(st.stop_begin());
    assert_eq!(st.stop_done(false), Err(RpcError::CloseFailed));
    assert!(st.is_running());
    assert_eq!(st.set_activity_gate(), CallGate::Fail(RpcError::NotInitialized));
}
