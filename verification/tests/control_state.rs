use where_is_teemo::certs::ca_cert_path;
use where_is_teemo::certs::ca_key_path;
use where_is_teemo::certs::cert_status;
use where_is_teemo::certs::certs_dir;
use where_is_teemo::certs::server_cert_path;
use where_is_teemo::certs::server_key_path;
use where_is_teemo::process::install_candidates;
use where_is_teemo::process::is_riot_process_name;
use where_is_teemo::process::launch_args;
use where_is_teemo::state::AppStateInner;
use where_is_teemo::state::ProxyStatus;
use where_is_teemo::state::StealthMode;

#[test]
fn default_state_is_idle_offline() {
    let st = AppStateInner::default();
    assert_eq!(st.stealth_mode, StealthMode::Offline);
    assert_eq!(st.proxy_status, ProxyStatus::Idle);
    assert_eq!(st.connected_game, None);
    assert_eq!(st.detected_region, None);
    assert_eq!(st.detected_chat_host, None);
}

#[test]
fn stealth_mode_transitions() {
    let mut st = AppStateInner::default();
    assert_eq!(st.set_stealth_mode("online"), StealthMode::Online);
    assert_eq!(st.stealth_mode, StealthMode::Online);
    assert_eq!(st.set_stealth_mode("offline"), StealthMode::Offline);
    assert_eq!(st.set_stealth_mode("anything-else"), StealthMode::Offline);
}

#[test]
fn launch_and_stop_transitions() {
    let mut st = AppStateInner::default();
    st.on_launch_started("valorant".to_string());
    assert_eq!(st.proxy_status, ProxyStatus::Running);
    assert_eq!(st.connected_game.as_deref(), Some("valorant"));
    let info = st.status_info();
    assert_eq!(info.proxy_status, ProxyStatus::Running);
    assert_eq!(info.connected_game.as_deref(), Some("valorant"));
    st.on_stop();
    assert_eq!(st.proxy_status, ProxyStatus::Idle);
    assert_eq!(st.connected_game, None);
}

#[test]
fn set_region_known_and_unknown() {
    let mut st = AppStateInner::default();
    assert!(st.set_region("euw").is_ok());
    assert_eq!(st.detected_region.as_deref(), Some("euw"));
    assert_eq!(st.detected_chat_host.as_deref(), Some("euw1.chat.si.riotgames.com"));
    let err = st.set_region("zz").unwrap_err();
    assert_eq!(err, "Unknown region: zz");
    assert_eq!(st.detected_region.as_deref(), Some("euw"));
}

#[test]
fn fallback_host_uses_detected_then_default() {
    let mut st = AppStateInner::default();
    assert_eq!(st.fallback_chat_host(), "na2.chat.si.riotgames.com");
    st.set_region("kr").unwrap();
    assert_eq!(st.fallback_chat_host(), "kr1.chat.si.riotgames.com");
}

#[test]
fn launch_args_known_games() {
    let args = launch_args("league_of_legends", 49152).unwrap();
    assert_eq!(
        args,
        vec![
            "--client-config-url=http://127.0.0.1:49152".to_string(),
            "--launch-product=league_of_legends".to_string(),
            "--launch-patchline=live".to_string(),
        ]
    );
    let args = launch_args("valorant", 80).unwrap();
    assert_eq!(args[0], "--client-config-url=http://127.0.0.1:80");
}

#[test]
fn launch_args_unknown_game() {
    assert_eq!(launch_args("chess", 5223).unwrap_err(), "Unknown game: chess");
}

#[test]
fn riot_process_names() {
    assert!(is_riot_process_name("RiotClientServices.exe"));
    assert!(is_riot_process_name("LeagueClient"));
    assert!(is_riot_process_name("VALORANT-Win64-Shipping.exe"));
    assert!(is_riot_process_name("Riot Client"));
    assert!(!is_riot_process_name("firefox"));
}

#[test]
fn install_candidates_priority_order() {
    let json = r#"{"rc_beta":"/b","rc_live":"/l","rc_default":"/d","other":1}"#;
    assert_eq!(install_candidates(json), vec!["/l".to_string(), "/d".to_string(), "/b".to_string()]);
    assert_eq!(install_candidates(r#"{"rc_default":"/only"}"#), vec!["/only".to_string()]);
    assert!(install_candidates("not json").is_empty());
    assert!(install_candidates(r#"{"rc_live":42}"#).is_empty());
}

#[test]
fn cert_paths_under_data_dir() {
    assert_eq!(certs_dir("/data"), "/data/certs");
    assert_eq!(ca_cert_path("/data"), "/data/certs/ca.pem");
    assert_eq!(ca_key_path("/data"), "/data/certs/ca-key.pem");
    assert_eq!(server_cert_path("/data"), "/data/certs/server.pem");
    assert_eq!(server_key_path("/data"), "/data/certs/server-key.pem");
}

#[test]
fn cert_status_reflects_probes() {
    let st = cert_status(true, false, true);
    assert!(st.ca_generated);
    assert!(!st.server_generated);
    assert!(st.ca_trusted);
}

#[test]
fn proxy_status_equality() {
    assert_eq!(ProxyStatus::Idle, ProxyStatus::Idle);
    assert_ne!(ProxyStatus::Idle, ProxyStatus::Running);
    assert_eq!(
        ProxyStatus::Error("boom".to_string()),
        ProxyStatus::Error("boom".to_string())
    );
    assert_ne!(
        ProxyStatus::Error("boom".to_string()),
        ProxyStatus::Error("bust".to_string())
    );
}
