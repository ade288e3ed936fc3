//! The settings that the monitor is started with. They never change.

use vstd::prelude::*;

verus! {

/// Where notifications go.
#[derive(Clone, Debug, PartialEq, Eq)]
pub struct TelegramConfig {
    /// The chat that receives the messages.
    pub user_id: i64,
    /// The name under which this machine appears in messages.
    pub hostname: String,
    /// The key of the bot that sends the messages.
    pub api_key: String,
}

/// Which notifications are wanted. A switch that is not set is off, and a
/// list that is not set is empty.
#[derive(Clone, Debug, PartialEq, Eq)]
pub struct NotificationsConfig {
    /// Report a login from an address that is neither private nor known.
    pub new_login_ip: Option<bool>,
    /// Addresses that never count as new.
    pub known_ips: Option<Vec<String>>,
    /// Report a failed attempt to log in.
    pub failed_login: Option<bool>,
    /// Report a storage pool that enters another state of health.
    pub pool_health: Option<bool>,
}

/// All settings.
#[derive(Clone, Debug, PartialEq, Eq)]
pub struct Config {
    /// Seconds to sleep between two rounds.
    pub poll_duration_seconds: u64,
    pub telegram: TelegramConfig,
    pub notifications: NotificationsConfig,
}

/// A `TelegramConfig` with its strings as sequences of characters.
pub struct TelegramView {
    pub user_id: i64,
    pub hostname: Seq<char>,
    pub api_key: Seq<char>,
}

/// A `NotificationsConfig` with its strings as sequences of characters.
pub struct NotificationsView {
    pub new_login_ip: Option<bool>,
    pub known_ips: Option<Seq<Seq<char>>>,
    pub failed_login: Option<bool>,
    pub pool_health: Option<bool>,
}

/// A `Config` with its strings as sequences of characters.
pub struct ConfigView {
    pub poll_duration_seconds: u64,
    pub telegram: TelegramView,
    pub notifications: NotificationsView,
}

impl NotificationsView {
    /// Whether new logins are reported.
    pub open spec fn reports_new_logins(self) -> bool {
        self.new_login_ip == Some(true)
    }

    /// Whether failed logins are reported.
    pub open spec fn reports_failed_logins(self) -> bool {
        self.failed_login == Some(true)
    }

    /// Whether changes of pool health are reported.
    pub open spec fn reports_pool_health(self) -> bool {
        self.pool_health == Some(true)
    }

    /// Whether the log has to be read at all.
    pub open spec fn reads_log(self) -> bool {
        self.reports_new_logins() || self.reports_failed_logins()
    }

    /// The addresses that never count as new.
    pub open spec fn known(self) -> Seq<Seq<char>> {
        match self.known_ips {
            Some(ips) => ips,
            None => Seq::empty(),
        }
    }

    /// Whether nothing is reported, so that nothing has to be looked at.
    pub open spec fn silent(self) -> bool {
        !self.reports_new_logins() && !self.reports_failed_logins() && !self.reports_pool_health()
    }
}

impl View for TelegramConfig {
    type V = TelegramView;

    open spec fn view(&self) -> TelegramView {
        TelegramView { user_id: self.user_id, hostname: self.hostname@, api_key: self.api_key@ }
    }
}

impl View for NotificationsConfig {
    type V = NotificationsView;

    open spec fn view(&self) -> NotificationsView {
        NotificationsView {
            new_login_ip: self.new_login_ip,
            known_ips: match self.known_ips {
                Some(ips) => Some(ips.deep_view()),
                None => None,
            },
            failed_login: self.failed_login,
            pool_health: self.pool_health,
        }
    }
}

impl View for Config {
    type V = ConfigView;

    open spec fn view(&self) -> ConfigView {
        ConfigView {
            poll_duration_seconds: self.poll_duration_seconds,
            telegram: self.telegram@,
            notifications: self.notifications@,
        }
    }
}

impl NotificationsConfig {
    /// Tests whether new logins are reported.
    pub fn reports_new_logins(&self) -> (on: bool)
        ensures
            on == self@.reports_new_logins(),
    {
        match self.new_login_ip {
            Some(on) => on,
            None => false,
        }
    }

    /// Tests whether failed logins are reported.
    pub fn reports_failed_logins(&self) -> (on: bool)
        ensures
            on == self@.reports_failed_logins(),
    {
        match self.failed_login {
            Some(on) => on,
            None => false,
        }
    }

    /// Tests whether changes of pool health are reported.
    pub fn reports_pool_health(&self) -> (on: bool)
        ensures
            on == self@.reports_pool_health(),
    {
        match self.pool_health {
            Some(on) => on,
            None => false,
        }
    }

    /// Tests whether the log has to be read at all.
    pub fn reads_log(&self) -> (on: bool)
        ensures
            on == self@.reads_log(),
    {
        self.reports_new_logins() || self.reports_failed_logins()
    }
}

} // verus!
