//! Process-wide control state: the stealth mode, the proxy lifecycle status,
//! the snapshot handed to the user interface, and the transitions the
//! control surface performs on them. The channels that carry mode and
//! shutdown signals to running tasks live outside the library.

use vstd::prelude::*;

use crate::regions::chat_server_for_region;
use crate::regions::region_host;
use crate::text::str_eq;

verus! {

/// The user's choice between truthful presence and forced-unavailable
/// presence.
#[derive(Debug, Clone, Copy, PartialEq, Eq, Structural)]
pub enum StealthMode {
    Online,
    Offline,
}

/// Lifecycle of one proxy session: `Idle` before start and after shutdown,
/// `Running` once both listeners are up, `Error` terminal for the attempt.
#[derive(Debug, Clone)]
pub enum ProxyStatus {
    Idle,
    Running,
    Error(String),
}

impl PartialEq for ProxyStatus {
    fn eq(&self, other: &ProxyStatus) -> (r: bool) {
        match self {
            ProxyStatus::Idle => match other {
                ProxyStatus::Idle => true,
                _ => false,
            },
            ProxyStatus::Running => match other {
                ProxyStatus::Running => true,
                _ => false,
            },
            ProxyStatus::Error(a) => match other {
                ProxyStatus::Error(b) => str_eq(a.as_str(), b.as_str()),
                _ => false,
            },
        }
    }
}

impl vstd::std_specs::cmp::PartialEqSpecImpl for ProxyStatus {
    open spec fn obeys_eq_spec() -> bool {
        true
    }

    open spec fn eq_spec(&self, other: &ProxyStatus) -> bool {
        match self {
            ProxyStatus::Idle => match other {
                ProxyStatus::Idle => true,
                _ => false,
            },
            ProxyStatus::Running => match other {
                ProxyStatus::Running => true,
                _ => false,
            },
            ProxyStatus::Error(a) => match other {
                ProxyStatus::Error(b) => a@ == b@,
                _ => false,
            },
        }
    }
}

/// The snapshot of the control state shown to the user interface.
#[derive(Debug, Clone)]
pub struct StatusInfo {
    pub stealth_mode: StealthMode,
    pub proxy_status: ProxyStatus,
    pub connected_game: Option<String>,
}

/// The plain control state: what the user chose and what is running.
pub struct AppStateInner {
    pub stealth_mode: StealthMode,
    pub proxy_status: ProxyStatus,
    pub connected_game: Option<String>,
    pub detected_region: Option<String>,
    pub detected_chat_host: Option<String>,
}

impl Default for AppStateInner {
    /// A fresh state: offline stealth, idle proxy, nothing detected.
    fn default() -> (r: AppStateInner)
        ensures
            r.stealth_mode == StealthMode::Offline,
            r.proxy_status is Idle,
            r.connected_game is None,
            r.detected_region is None,
            r.detected_chat_host is None,
    {
        AppStateInner {
            stealth_mode: StealthMode::Offline,
            proxy_status: ProxyStatus::Idle,
            connected_game: None,
            detected_region: None,
            detected_chat_host: None,
        }
    }
}

impl AppStateInner {
    /// The snapshot the control surface reports.
    pub fn status_info(&self) -> (r: StatusInfo)
        ensures
            r.stealth_mode == self.stealth_mode,
            r.proxy_status == self.proxy_status,
            match (r.connected_game, self.connected_game) {
                (Some(a), Some(b)) => a@ == b@,
                (None, None) => true,
                _ => false,
            },
    {
        StatusInfo {
            stealth_mode: self.stealth_mode,
            proxy_status: match &self.proxy_status {
                ProxyStatus::Idle => ProxyStatus::Idle,
                ProxyStatus::Running => ProxyStatus::Running,
                ProxyStatus::Error(m) => ProxyStatus::Error(m.clone()),
            },
            connected_game: match &self.connected_game {
                Some(g) => Some(g.clone()),
                None => None,
            },
        }
    }

    /// Record the stealth mode named by the control surface: `online` means
    /// `Online`, anything else means `Offline`. Returns the new mode for the
    /// caller to broadcast.
    pub fn set_stealth_mode(&mut self, mode: &str) -> (r: StealthMode)
        ensures
            final(self).stealth_mode == (if mode@ == "online"@ {
                StealthMode::Online
            } else {
                StealthMode::Offline
            }),
            r == final(self).stealth_mode,
            final(self).proxy_status == old(self).proxy_status,
            final(self).connected_game == old(self).connected_game,
            final(self).detected_region == old(self).detected_region,
            final(self).detected_chat_host == old(self).detected_chat_host,
    {
        let new_mode = if str_eq(mode, "online") {
            StealthMode::Online
        } else {
            StealthMode::Offline
        };
        self.stealth_mode = new_mode;
        new_mode
    }

    /// Record a successful launch of `game`: the proxy is running and the
    /// game is connected.
    pub fn on_launch_started(&mut self, game: String)
        ensures
            final(self).proxy_status is Running,
            final(self).connected_game == Some(game),
            final(self).stealth_mode == old(self).stealth_mode,
            final(self).detected_region == old(self).detected_region,
            final(self).detected_chat_host == old(self).detected_chat_host,
    {
        self.proxy_status = ProxyStatus::Running;
        self.connected_game = Some(game);
    }

    /// Record a shutdown: back to idle with no connected game; the stealth
    /// choice and the detected region survive for the next launch.
    pub fn on_stop(&mut self)
        ensures
            final(self).proxy_status is Idle,
            final(self).connected_game is None,
            final(self).stealth_mode == old(self).stealth_mode,
            final(self).detected_region == old(self).detected_region,
            final(self).detected_chat_host == old(self).detected_chat_host,
    {
        self.proxy_status = ProxyStatus::Idle;
        self.connected_game = None;
    }

    /// Record the region the user picked: known codes set the region and its
    /// chat host, unknown codes are rejected and change nothing.
    pub fn set_region(&mut self, region: &str) -> (r: Result<(), String>)
        ensures
            match region_host(region@) {
                Some(h) => {
                    &&& r is Ok
                    &&& match final(self).detected_region {
                        Some(reg) => reg@ == region@,
                        None => false,
                    }
                    &&& match final(self).detected_chat_host {
                        Some(host) => host@ == h,
                        None => false,
                    }
                },
                None => {
                    &&& final(self).detected_region == old(self).detected_region
                    &&& final(self).detected_chat_host == old(self).detected_chat_host
                    &&& match r {
                        Err(e) => e@ == "Unknown region: "@ + region@,
                        Ok(_) => false,
                    }
                },
            },
            final(self).stealth_mode == old(self).stealth_mode,
            final(self).proxy_status == old(self).proxy_status,
            final(self).connected_game == old(self).connected_game,
    {
        match chat_server_for_region(region) {
            Some(host) => {
                self.detected_region = Some(String::from_str(region));
                self.detected_chat_host = Some(String::from_str(host));
                Ok(())
            },
            None => {
                let mut e = String::from_str("Unknown region: ");
                e.append(region);
                Err(e)
            },
        }
    }

    /// The chat host a new proxy starts against: the detected host when one
    /// is known, the default region's host otherwise.
    pub fn fallback_chat_host(&self) -> (r: String)
        ensures
            match self.detected_chat_host {
                Some(h) => r@ == h@,
                None => r@ == "na2.chat.si.riotgames.com"@,
            },
    {
        match &self.detected_chat_host {
            Some(h) => h.clone(),
            None => String::from_str("na2.chat.si.riotgames.com"),
        }
    }
}

} // verus!
