//! Alerts: their levels and kinds, the text they are logged with, and the decisions of the
//! notifier (whether an alert is suppressed by the cooldown, what is remembered of it, and
//! which channels it goes to).
//!
//! Instants are UTC milliseconds since the epoch. The notifier here decides; writing the log
//! line and posting the webhook are done by whoever holds it.
use crate::portfolio::now_millis;
use crate::text::{digits_text, u64_to_string};
use vstd::prelude::*;
use vstd::string::StringExecFns;

verus! {

/// How serious an alert is; the levels are ordered Info < Warning < Critical.
#[derive(Clone, Copy, Debug, PartialEq, Eq, Structural, PartialOrd, Ord)]
pub enum AlertLevel {
    Info,
    Warning,
    Critical,
}

impl AlertLevel {
    /// The position of the level in the order Info < Warning < Critical.
    pub open spec fn rank(self) -> int {
        match self {
            AlertLevel::Info => 0,
            AlertLevel::Warning => 1,
            AlertLevel::Critical => 2,
        }
    }

    /// The level's name as alerts show it.
    pub open spec fn text(self) -> Seq<char> {
        match self {
            AlertLevel::Info => "INFO"@,
            AlertLevel::Warning => "WARNING"@,
            AlertLevel::Critical => "CRITICAL"@,
        }
    }

    /// The level's name: "INFO", "WARNING" or "CRITICAL".
    pub fn to_string(&self) -> (r: String)
        ensures
            r@ == self.text(),
    {
        match self {
            AlertLevel::Info => String::from_str("INFO"),
            AlertLevel::Warning => String::from_str("WARNING"),
            AlertLevel::Critical => String::from_str("CRITICAL"),
        }
    }

    /// Whether this level is at or above `other`.
    pub fn at_least(&self, other: &AlertLevel) -> (r: bool)
        ensures
            r == (self.rank() >= other.rank()),
    {
        let a: u8 = match self {
            AlertLevel::Info => 0,
            AlertLevel::Warning => 1,
            AlertLevel::Critical => 2,
        };
        let b: u8 = match other {
            AlertLevel::Info => 0,
            AlertLevel::Warning => 1,
            AlertLevel::Critical => 2,
        };
        a >= b
    }
}

/// What an alert is about.
#[derive(Clone, Copy, Debug, PartialEq, Eq, Structural)]
pub enum AlertType {
    TradeFailure,
    RiskControl,
    ServiceError,
    ConnectionLost,
    FundAnomaly,
    BlackSwan,
    CircuitBreaker,
}

impl AlertType {
    /// The kind's name as alerts show it.
    pub open spec fn text(self) -> Seq<char> {
        match self {
            AlertType::TradeFailure => "TRADE_FAILURE"@,
            AlertType::RiskControl => "RISK_CONTROL"@,
            AlertType::ServiceError => "SERVICE_ERROR"@,
            AlertType::ConnectionLost => "CONNECTION_LOST"@,
            AlertType::FundAnomaly => "FUND_ANOMALY"@,
            AlertType::BlackSwan => "BLACK_SWAN"@,
            AlertType::CircuitBreaker => "CIRCUIT_BREAKER"@,
        }
    }

    /// The kind's name, such as "TRADE_FAILURE".
    pub fn to_string(&self) -> (r: String)
        ensures
            r@ == self.text(),
    {
        match self {
            AlertType::TradeFailure => String::from_str("TRADE_FAILURE"),
            AlertType::RiskControl => String::from_str("RISK_CONTROL"),
            AlertType::ServiceError => String::from_str("SERVICE_ERROR"),
            AlertType::ConnectionLost => String::from_str("CONNECTION_LOST"),
            AlertType::FundAnomaly => String::from_str("FUND_ANOMALY"),
            AlertType::BlackSwan => String::from_str("BLACK_SWAN"),
            AlertType::CircuitBreaker => String::from_str("CIRCUIT_BREAKER"),
        }
    }

    /// Whether two kinds are the same.
    pub fn same_as(&self, other: &AlertType) -> (r: bool)
        ensures
            r == (*self == *other),
    {
        match (self, other) {
            (AlertType::TradeFailure, AlertType::TradeFailure) => true,
            (AlertType::RiskControl, AlertType::RiskControl) => true,
            (AlertType::ServiceError, AlertType::ServiceError) => true,
            (AlertType::ConnectionLost, AlertType::ConnectionLost) => true,
            (AlertType::FundAnomaly, AlertType::FundAnomaly) => true,
            (AlertType::BlackSwan, AlertType::BlackSwan) => true,
            (AlertType::CircuitBreaker, AlertType::CircuitBreaker) => true,
            _ => false,
        }
    }
}

/// An alert message.
#[derive(Clone, Debug)]
pub struct Alert {
    pub level: AlertLevel,
    pub alert_type: AlertType,
    pub title: String,
    pub message: String,
    /// The trading pair the alert concerns, if any.
    pub symbol: Option<String>,
    /// When the alert was made.
    pub timestamp: i64,
}

/// Whether `a` is an alert of the level, kind, title and message given, for no symbol.
pub open spec fn is_plain_alert(a: Alert, level: AlertLevel, kind: AlertType, title: Seq<char>, message: Seq<char>) -> bool {
    &&& a.level == level
    &&& a.alert_type == kind
    &&& a.title@ == title
    &&& a.message@ == message
    &&& a.symbol is None
}

/// Whether `a` is an alert of the level, kind, title and message given, about `symbol`.
pub open spec fn is_symbol_alert(
    a: Alert,
    level: AlertLevel,
    kind: AlertType,
    title: Seq<char>,
    message: Seq<char>,
    symbol: Seq<char>,
) -> bool {
    &&& a.level == level
    &&& a.alert_type == kind
    &&& a.title@ == title
    &&& a.message@ == message
    &&& a.symbol matches Some(s) && s@ == symbol
}

impl Alert {
    /// An alert made now, about no symbol.
    pub fn new(level: AlertLevel, alert_type: AlertType, title: String, message: String) -> (r: Alert)
        ensures
            r.level == level,
            r.alert_type == alert_type,
            r.title == title,
            r.message == message,
            r.symbol is None,
    {
        Alert { level, alert_type, title, message, symbol: None, timestamp: now_millis() }
    }

    /// The alert, about `symbol`.
    pub fn with_symbol(self, symbol: String) -> (r: Alert)
        ensures
            r == (Alert { symbol: Some(symbol), ..self }),
    {
        Alert { symbol: Some(symbol), ..self }
    }

    /// The line an alert is logged with:
    /// "[ALERT][level][kind] title | Symbol: symbol | message", with "N/A" for no symbol.
    pub open spec fn log_text(self) -> Seq<char> {
        let sym = match self.symbol {
            Some(s) => s@,
            None => "N/A"@,
        };
        "[ALERT]["@ + self.level.text() + "]["@ + self.alert_type.text() + "] "@ + self.title@
            + " | Symbol: "@ + sym + " | "@ + self.message@
    }

    /// The line the alert is logged with.
    pub fn log_line(&self) -> (r: String)
        ensures
            r@ == self.log_text(),
    {
        let mut out = String::from_str("[ALERT][");
        let level = self.level.to_string();
        out.append(level.as_str());
        out.append("][");
        let kind = self.alert_type.to_string();
        out.append(kind.as_str());
        out.append("] ");
        out.append(self.title.as_str());
        out.append(" | Symbol: ");
        match &self.symbol {
            Some(s) => out.append(s.as_str()),
            None => out.append("N/A"),
        }
        out.append(" | ");
        out.append(self.message.as_str());
        proof {
            reveal_strlit("[ALERT][");
            reveal_strlit("][");
            reveal_strlit("] ");
            reveal_strlit(" | Symbol: ");
            reveal_strlit("N/A");
            reveal_strlit(" | ");
        }
        out
    }

    /// A warning that a trade failed on `symbol` for `reason`.
    pub fn trade_failure(symbol: &str, reason: &str) -> (r: Alert)
        ensures
            is_symbol_alert(
                r,
                AlertLevel::Warning,
                AlertType::TradeFailure,
                "交易执行失败"@,
                "交易对: "@ + symbol@ + ", 原因: "@ + reason@,
                symbol@,
            ),
    {
        let mut msg = String::from_str("交易对: ");
        msg.append(symbol);
        msg.append(", 原因: ");
        msg.append(reason);
        let a = Alert::new(AlertLevel::Warning, AlertType::TradeFailure, String::from_str("交易执行失败"), msg);
        proof {
            reveal_strlit("交易对: ");
            reveal_strlit(", 原因: ");
        }
        a.with_symbol(String::from_str(symbol))
    }

    /// A warning that risk `rule` fired on `symbol`, with `detail`.
    pub fn risk_triggered(symbol: &str, rule: &str, detail: &str) -> (r: Alert)
        ensures
            is_symbol_alert(
                r,
                AlertLevel::Warning,
                AlertType::RiskControl,
                "风控规则触发"@,
                "交易对: "@ + symbol@ + ", 规则: "@ + rule@ + ", 详情: "@ + detail@,
                symbol@,
            ),
    {
        let mut msg = String::from_str("交易对: ");
        msg.append(symbol);
        msg.append(", 规则: ");
        msg.append(rule);
        msg.append(", 详情: ");
        msg.append(detail);
        let a = Alert::new(AlertLevel::Warning, AlertType::RiskControl, String::from_str("风控规则触发"), msg);
        proof {
            reveal_strlit("交易对: ");
            reveal_strlit(", 规则: ");
            reveal_strlit(", 详情: ");
        }
        a.with_symbol(String::from_str(symbol))
    }

    /// A critical alert that `service` failed with `error`.
    pub fn service_error(service: &str, error: &str) -> (r: Alert)
        ensures
            is_plain_alert(
                r,
                AlertLevel::Critical,
                AlertType::ServiceError,
                "服务异常"@,
                "服务: "@ + service@ + ", 错误: "@ + error@,
            ),
    {
        let mut msg = String::from_str("服务: ");
        msg.append(service);
        msg.append(", 错误: ");
        msg.append(error);
        proof {
            reveal_strlit("服务: ");
            reveal_strlit(", 错误: ");
        }
        Alert::new(AlertLevel::Critical, AlertType::ServiceError, String::from_str("服务异常"), msg)
    }

    /// A warning that the connection to `target` was lost.
    pub fn connection_lost(target: &str) -> (r: Alert)
        ensures
            is_plain_alert(
                r,
                AlertLevel::Warning,
                AlertType::ConnectionLost,
                "连接断开"@,
                "目标: "@ + target@ + " 连接已断开"@,
            ),
    {
        let mut msg = String::from_str("目标: ");
        msg.append(target);
        msg.append(" 连接已断开");
        proof {
            reveal_strlit("目标: ");
            reveal_strlit(" 连接已断开");
        }
        Alert::new(AlertLevel::Warning, AlertType::ConnectionLost, String::from_str("连接断开"), msg)
    }

    /// A critical alert that `symbol` moved by `change_pct`.
    pub fn black_swan_detected(symbol: &str, change_pct: &str) -> (r: Alert)
        ensures
            is_symbol_alert(
                r,
                AlertLevel::Critical,
                AlertType::BlackSwan,
                "黑天鹅事件检测"@,
                "交易对: "@ + symbol@ + ", 价格波动: "@ + change_pct@,
                symbol@,
            ),
    {
        let mut msg = String::from_str("交易对: ");
        msg.append(symbol);
        msg.append(", 价格波动: ");
        msg.append(change_pct);
        let a = Alert::new(AlertLevel::Critical, AlertType::BlackSwan, String::from_str("黑天鹅事件检测"), msg);
        proof {
            reveal_strlit("交易对: ");
            reveal_strlit(", 价格波动: ");
        }
        a.with_symbol(String::from_str(symbol))
    }

    /// A critical alert that the circuit breaker fired for `reason`, for `duration_secs`.
    pub fn circuit_breaker_triggered(reason: &str, duration_secs: u64) -> (r: Alert)
        ensures
            is_plain_alert(
                r,
                AlertLevel::Critical,
                AlertType::CircuitBreaker,
                "熔断机制触发"@,
                "原因: "@ + reason@ + ", 持续时间: "@ + digits_text(duration_secs as nat) + "秒"@,
            ),
    {
        let mut msg = String::from_str("原因: ");
        msg.append(reason);
        msg.append(", 持续时间: ");
        let secs = u64_to_string(duration_secs);
        msg.append(secs.as_str());
        msg.append("秒");
        proof {
            reveal_strlit("原因: ");
            reveal_strlit(", 持续时间: ");
            reveal_strlit("秒");
        }
        Alert::new(AlertLevel::Critical, AlertType::CircuitBreaker, String::from_str("熔断机制触发"), msg)
    }
}

/// Where alerts are posted, and from which level on.
#[derive(Clone, Debug)]
pub struct WebhookConfig {
    pub url: String,
    pub enabled: bool,
    pub min_level: AlertLevel,
}

/// How alerts are handled.
#[derive(Clone, Debug)]
pub struct AlertConfig {
    /// Whether alerts are handled at all.
    pub enabled: bool,
    /// Whether alerts are written to the log.
    pub log_enabled: bool,
    pub webhook: Option<WebhookConfig>,
    /// The least time, in seconds, between two handled alerts of one kind.
    pub cooldown_secs: u64,
}

impl AlertConfig {
    /// Enabled, logged, no webhook, a cooldown of 60 seconds.
    pub fn default() -> (r: AlertConfig)
        ensures
            r.enabled,
            r.log_enabled,
            r.webhook is None,
            r.cooldown_secs == 60,
    {
        AlertConfig { enabled: true, log_enabled: true, webhook: None, cooldown_secs: 60 }
    }
}

/// How many remembered alerts the notifier keeps before it forgets the old ones.
pub const RECENT_ALERT_LIMIT: usize = 100;

/// How long, in milliseconds, an alert is kept once the limit is passed: one hour.
pub const RECENT_ALERT_KEEP_MS: i64 = 3_600_000;

/// The remembered alerts made after `cutoff`, in their order.
pub open spec fn made_after(s: Seq<(AlertType, i64)>, cutoff: int) -> Seq<(AlertType, i64)>
    decreases s.len(),
{
    if s.len() == 0 {
        s
    } else if s.last().1 > cutoff {
        made_after(s.drop_last(), cutoff).push(s.last())
    } else {
        made_after(s.drop_last(), cutoff)
    }
}

/// What the notifier remembers after recording an alert of kind `kind` at `now`: the alert is
/// appended, and once more than the limit are held, those made an hour or more before `now`
/// are forgotten.
pub open spec fn recorded(recent: Seq<(AlertType, i64)>, kind: AlertType, now: i64) -> Seq<(AlertType, i64)> {
    let pushed = recent.push((kind, now));
    if pushed.len() > RECENT_ALERT_LIMIT {
        made_after(pushed, now - RECENT_ALERT_KEEP_MS)
    } else {
        pushed
    }
}

/// Whether an alert of kind `kind` at `now` falls within the cooldown of a remembered one:
/// one of the same kind made less than `cooldown_secs` seconds before.
pub open spec fn cooling_down(recent: Seq<(AlertType, i64)>, kind: AlertType, now: i64, cooldown_secs: u64) -> bool {
    exists|i: int|
        0 <= i < recent.len() && (#[trigger] recent[i]).0 == kind && now - recent[i].1 < cooldown_secs * 1000
}

/// The largest cooldown, in seconds, that can be measured in milliseconds.
pub open spec fn cooldown_in_range(cooldown_secs: u64) -> bool {
    cooldown_secs <= 9_223_372_036_854_775
}

/// What the notifier asks to be done with an alert that it lets through.
#[derive(Clone, Copy, Debug, PartialEq, Eq, Structural)]
pub struct NotifyAction {
    /// Write the alert's log line.
    pub log: bool,
    /// Post the alert to the configured webhook.
    pub webhook: bool,
}

/// Whether the configured webhook takes alerts of `level`.
pub open spec fn webhook_takes(config: AlertConfig, level: AlertLevel) -> bool {
    config.webhook matches Some(w) && w.enabled && level.rank() >= w.min_level.rank()
}

/// Whether the alert is dropped: alerts are off, or one of its kind is cooling down.
pub open spec fn suppressed(config: AlertConfig, recent: Seq<(AlertType, i64)>, kind: AlertType, now: i64) -> bool {
    !config.enabled || cooling_down(recent, kind, now, config.cooldown_secs)
}

/// The alert notifier's decisions: its configuration and the alerts it remembers for the
/// cooldown, each with the instant it was made.
pub struct AlertNotifier {
    pub config: AlertConfig,
    pub recent_alerts: Vec<(AlertType, i64)>,
}

impl AlertNotifier {
    /// A notifier that remembers no alert yet.
    pub fn new(config: AlertConfig) -> (r: AlertNotifier)
        ensures
            r.config == config,
            r.recent_alerts@.len() == 0,
    {
        AlertNotifier { config, recent_alerts: Vec::new() }
    }

    /// Whether an alert of `alert_type` at `now` is within the cooldown of a remembered one.
    pub fn is_in_cooldown(&self, alert_type: &AlertType, now: i64) -> (r: bool)
        requires
            cooldown_in_range(self.config.cooldown_secs),
        ensures
            r == cooling_down(self.recent_alerts@, *alert_type, now, self.config.cooldown_secs),
    {
        let cooldown_ms: i128 = self.config.cooldown_secs as i128 * 1000;
        let mut i: usize = 0;
        while i < self.recent_alerts.len()
            invariant
                i <= self.recent_alerts@.len(),
                cooldown_ms == self.config.cooldown_secs * 1000,
                forall|j: int|
                    0 <= j < i ==> !((#[trigger] self.recent_alerts@[j]).0 == *alert_type
                        && now - self.recent_alerts@[j].1 < self.config.cooldown_secs * 1000),
            decreases self.recent_alerts@.len() - i,
        {
            let (t, ts) = self.recent_alerts[i];
            if t.same_as(alert_type) && (now as i128 - ts as i128) < cooldown_ms {
                assert(self.recent_alerts@[i as int].0 == *alert_type);
                return true;
            }
            i = i + 1;
        }
        false
    }

    /// Remembers an alert of `alert_type` made at `now`; once more than the limit are held,
    /// forgets those made an hour or more before `now`.
    pub fn record_alert(&mut self, alert_type: AlertType, now: i64)
        ensures
            final(self).config == old(self).config,
            final(self).recent_alerts@ == recorded(old(self).recent_alerts@, alert_type, now),
    {
        self.recent_alerts.push((alert_type, now));
        if self.recent_alerts.len() > RECENT_ALERT_LIMIT {
            let cutoff: i128 = now as i128 - RECENT_ALERT_KEEP_MS as i128;
            let ghost all = self.recent_alerts@;
            let mut kept: Vec<(AlertType, i64)> = Vec::new();
            let mut i: usize = 0;
            while i < self.recent_alerts.len()
                invariant
                    all == self.recent_alerts@,
                    i <= all.len(),
                    cutoff == now - RECENT_ALERT_KEEP_MS,
                    kept@ == made_after(all.take(i as int), cutoff as int),
                decreases all.len() - i,
            {
                let entry = self.recent_alerts[i];
                proof {
                    assert(all.take(i as int + 1).drop_last() =~= all.take(i as int));
                }
                if entry.1 as i128 > cutoff {
                    kept.push(entry);
                }
                i = i + 1;
            }
            proof {
                assert(all.take(all.len() as int) =~= all);
            }
            self.recent_alerts = kept;
        }
    }

    /// Decides what to do with an alert made at `now`: nothing (`None`) when alerts are off or
    /// one of its kind is cooling down; otherwise the alert is remembered, and the answer says
    /// whether to log it and whether to post it to the webhook.
    pub fn notify(&mut self, alert: &Alert, now: i64) -> (r: Option<NotifyAction>)
        requires
            cooldown_in_range(old(self).config.cooldown_secs),
        ensures
            final(self).config == old(self).config,
            suppressed(old(self).config, old(self).recent_alerts@, alert.alert_type, now) ==> {
                &&& r is None
                &&& final(self).recent_alerts@ == old(self).recent_alerts@
            },
            !suppressed(old(self).config, old(self).recent_alerts@, alert.alert_type, now) ==> {
                &&& r == Some(
                    NotifyAction {
                        log: old(self).config.log_enabled,
                        webhook: webhook_takes(old(self).config, alert.level),
                    },
                )
                &&& final(self).recent_alerts@ == recorded(old(self).recent_alerts@, alert.alert_type, now)
            },
    {
        if !self.config.enabled {
            return None;
        }
        if self.is_in_cooldown(&alert.alert_type, now) {
            return None;
        }
        self.record_alert(alert.alert_type, now);
        let webhook = match &self.config.webhook {
            Some(w) => w.enabled && alert.level.at_least(&w.min_level),
            None => false,
        };
        Some(NotifyAction { log: self.config.log_enabled, webhook })
    }
}

/// An alert that the notifier lets through at `now` is remembered, so another of the same kind
/// at any instant less than `cooldown_secs` seconds later falls within the cooldown, and the
/// notifier (with that cooldown) suppresses it.
pub proof fn lemma_recorded_alert_cools_down(
    config: AlertConfig,
    recent: Seq<(AlertType, i64)>,
    kind: AlertType,
    now: i64,
    later: i64,
)
    requires
        later - now < config.cooldown_secs * 1000,
    ensures
        cooling_down(recorded(recent, kind, now), kind, later, config.cooldown_secs),
        suppressed(config, recorded(recent, kind, now), kind, later),
{
    let pushed = recent.push((kind, now));
    if pushed.len() > RECENT_ALERT_LIMIT {
        lemma_made_after_keeps_last(pushed, now - RECENT_ALERT_KEEP_MS);
        let s = made_after(pushed, now - RECENT_ALERT_KEEP_MS);
        assert(s[s.len() - 1] == (kind, now));
        assert(later - s[s.len() - 1].1 < config.cooldown_secs * 1000);
    } else {
        assert(pushed[pushed.len() - 1] == (kind, now));
        assert(later - pushed[pushed.len() - 1].1 < config.cooldown_secs * 1000);
    }
}

/// An entry made after the cutoff that ends the list also ends the kept list.
proof fn lemma_made_after_keeps_last(s: Seq<(AlertType, i64)>, cutoff: int)
    requires
        s.len() > 0,
        s.last().1 > cutoff,
    ensures
        made_after(s, cutoff).len() > 0,
        made_after(s, cutoff).last() == s.last(),
{
}

} // verus!
