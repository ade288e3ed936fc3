//! The monitor itself: what it remembers between rounds, and the part that
//! decides, after each thing that happened outside, what is to be done next.
//!
//! A round looks at the log, then at the pools, then sleeps. Whoever drives the
//! monitor does what an `Action` asks for and reports the outcome as an `Event`.
//! The first thing that fails ends it all: nothing is tried again.

use crate::config::{Config, ConfigView, NotificationsConfig, TelegramConfig};
use crate::detect::{classify, events_of, LoginEvent, LoginEventView};
use crate::health::{
    changes, healths_after, lemma_pools_stay_recorded, Health, HealthChanged, PoolHealthMap,
    PoolStatus, PoolStatusView,
};
use crate::message::{
    failed_login_message, failed_login_text, new_login_message, new_login_text,
    pool_health_message, pool_health_text,
};
use crate::tail::{Poll, TailCursor, TailView};
use crate::text::{lines, lines_of};
use vstd::prelude::*;

verus! {

/// What the monitor is waiting for.
#[derive(Clone, Copy, Debug, PartialEq, Eq, Structural)]
pub enum Phase {
    /// For the first round to begin.
    Ready,
    /// For the length of the log.
    OpeningLog,
    /// For the new text of the log, which was `file_len` bytes long when it
    /// was opened.
    ReadingLog { file_len: u64 },
    /// For a notification about the log to be sent.
    ReportingLogins,
    /// For the list of pools.
    ListingPools,
    /// For a notification about a pool to be sent.
    ReportingPools,
    /// For the sleep to end.
    Sleeping,
    /// For nothing any more: something has failed.
    Stopped,
}

/// What happened outside.
#[derive(Clone, Debug, PartialEq, Eq)]
pub enum Event {
    /// The monitor was started, or the sleep is over.
    Wake,
    /// The log was opened; it is `len` bytes long.
    LogLength { len: u64 },
    /// The log was read from the offset asked for to its end: `bytes_read`
    /// bytes, which are `text`.
    LogText { text: String, bytes_read: u64 },
    /// The pools were listed.
    Pools { observed: Vec<PoolStatus> },
    /// The notification was sent.
    Sent,
    /// What was asked for could not be done.
    Failed,
}

/// An `Event` with its strings as sequences of characters.
pub enum EventView {
    Wake,
    LogLength { len: u64 },
    LogText { text: Seq<char>, bytes_read: u64 },
    Pools { observed: Seq<PoolStatusView> },
    Sent,
    Failed,
}

impl View for Event {
    type V = EventView;

    open spec fn view(&self) -> EventView {
        match *self {
            Event::Wake => EventView::Wake,
            Event::LogLength { len } => EventView::LogLength { len },
            Event::LogText { text, bytes_read } => EventView::LogText { text: text@, bytes_read },
            Event::Pools { observed } => EventView::Pools { observed: observed.deep_view() },
            Event::Sent => EventView::Sent,
            Event::Failed => EventView::Failed,
        }
    }
}

/// What is to be done outside.
#[derive(Clone, Debug, PartialEq, Eq)]
pub enum Action {
    /// Open the log and report its length.
    OpenLog,
    /// Read the log from `offset` to its end and report the text.
    ReadLog { offset: u64 },
    /// List the pools and report them.
    ListPools,
    /// Send `text` as a notification and report that it was sent.
    Send { text: String },
    /// Sleep for `seconds` and report the end of the sleep.
    Sleep { seconds: u64 },
    /// Give up: end the process with the failure that was reported.
    Stop,
}

/// An `Action` with its string as a sequence of characters.
pub enum ActionView {
    OpenLog,
    ReadLog { offset: nat },
    ListPools,
    Send { text: Seq<char> },
    Sleep { seconds: u64 },
    Stop,
}

impl View for Action {
    type V = ActionView;

    open spec fn view(&self) -> ActionView {
        match *self {
            Action::OpenLog => ActionView::OpenLog,
            Action::ReadLog { offset } => ActionView::ReadLog { offset: offset as nat },
            Action::ListPools => ActionView::ListPools,
            Action::Send { text } => ActionView::Send { text: text@ },
            Action::Sleep { seconds } => ActionView::Sleep { seconds },
            Action::Stop => ActionView::Stop,
        }
    }
}

/// The texts for those of `events` that the settings want reported, in the
/// order of the events.
pub open spec fn login_alerts(events: Seq<LoginEventView>, config: ConfigView) -> Seq<Seq<char>>
    decreases events.len(),
{
    if events.len() == 0 {
        Seq::empty()
    } else {
        let before = login_alerts(events.drop_last(), config);
        match events.last() {
            LoginEventView::NewLogin { line, .. } => if config.notifications.reports_new_logins() {
                before.push(new_login_text(config.telegram.hostname, line))
            } else {
                before
            },
            LoginEventView::FailedLogin { line } => if config.notifications.reports_failed_logins() {
                before.push(failed_login_text(config.telegram.hostname, line))
            } else {
                before
            },
        }
    }
}

/// The texts for what `lines` report, line by line.
pub open spec fn log_alerts(lines: Seq<Seq<char>>, config: ConfigView) -> Seq<Seq<char>>
    decreases lines.len(),
{
    if lines.len() == 0 {
        Seq::empty()
    } else {
        log_alerts(lines.drop_last(), config) + login_alerts(
            events_of(lines.last(), config.notifications.known()),
            config,
        )
    }
}

/// The texts for the changes `changes`, one for each, in their order.
pub open spec fn pool_alerts(changes: Seq<PoolStatusView>) -> Seq<Seq<char>>
    decreases changes.len(),
{
    if changes.len() == 0 {
        Seq::empty()
    } else {
        pool_alerts(changes.drop_last()).push(
            pool_health_text(changes.last().name, changes.last().health),
        )
    }
}

/// Appends to `out` the texts for those of `events` that the settings want
/// reported.
fn append_login_messages(out: &mut Vec<String>, events: &Vec<LoginEvent>, config: &Config)
    ensures
        final(out).deep_view() == old(out).deep_view() + login_alerts(events.deep_view(), config@),
{
    let ghost start = out.deep_view();
    let mut i: usize = 0;
    while i < events.len()
        invariant
            i <= events.len(),
            out.deep_view() == start + login_alerts(events.deep_view().take(i as int), config@),
        decreases events.len() - i,
    {
        let ghost before = out.deep_view();
        let ghost alerts = login_alerts(events.deep_view().take(i as int), config@);
        assert(events.deep_view().take(i + 1).drop_last() =~= events.deep_view().take(i as int));
        match &events[i] {
            LoginEvent::NewLogin { line, .. } => {
                if config.notifications.reports_new_logins() {
                    let text = new_login_message(config.telegram.hostname.as_str(), line.as_str());
                    out.push(text);
                    assert(before.push(text@) =~= start + alerts.push(text@));
                }
            },
            LoginEvent::FailedLogin { line } => {
                if config.notifications.reports_failed_logins() {
                    let text = failed_login_message(
                        config.telegram.hostname.as_str(),
                        line.as_str(),
                    );
                    out.push(text);
                    assert(before.push(text@) =~= start + alerts.push(text@));
                }
            },
        }
        i += 1;
    }
    assert(events.deep_view().take(events.len() as int) =~= events.deep_view());
}

/// Writes the texts for what the lines of `text` report.
pub fn log_messages(text: &str, config: &Config) -> (out: Vec<String>)
    ensures
        out.deep_view() == log_alerts(lines_of(text@), config@),
{
    let none: Vec<String> = Vec::new();
    let known: &Vec<String> = match &config.notifications.known_ips {
        Some(ips) => ips,
        None => &none,
    };
    let all = lines(text);
    let mut out: Vec<String> = Vec::new();
    let mut i: usize = 0;
    while i < all.len()
        invariant
            i <= all.len(),
            known.deep_view() == config@.notifications.known(),
            out.deep_view() == log_alerts(all.deep_view().take(i as int), config@),
        decreases all.len() - i,
    {
        assert(all.deep_view().take(i + 1).drop_last() =~= all.deep_view().take(i as int));
        let events = classify(all[i].as_str(), known);
        append_login_messages(&mut out, &events, config);
        i += 1;
    }
    assert(all.deep_view().take(all.len() as int) =~= all.deep_view());
    out
}

/// Writes the texts for the changes `changes`.
pub fn pool_messages(changes: &Vec<HealthChanged>) -> (out: Vec<String>)
    ensures
        out.deep_view() == pool_alerts(changes.deep_view()),
{
    let mut out: Vec<String> = Vec::new();
    let mut i: usize = 0;
    while i < changes.len()
        invariant
            i <= changes.len(),
            out.deep_view() == pool_alerts(changes.deep_view().take(i as int)),
        decreases changes.len() - i,
    {
        assert(changes.deep_view().take(i + 1).drop_last() =~= changes.deep_view().take(i as int));
        out.push(pool_health_message(changes[i].name.as_str(), changes[i].health));
        i += 1;
    }
    assert(changes.deep_view().take(changes.len() as int) =~= changes.deep_view());
    out
}

/// The monitor: its settings, how far the log has been read, the health in
/// which each pool was last seen, what it is waiting for, and the
/// notifications of this round that are still to be sent.
pub struct NasNotifier {
    config: Config,
    cursor: TailCursor,
    zpools_health: PoolHealthMap,
    phase: Phase,
    outbox: Vec<String>,
}

/// A `NasNotifier` as plain values.
pub struct NotifierView {
    pub config: ConfigView,
    pub cursor: TailView,
    pub pools: Map<Seq<char>, Health>,
    pub phase: Phase,
    /// The texts still to be sent, the next one first.
    pub pending: Seq<Seq<char>>,
}

impl NotifierView {
    /// The monitor before anything has happened.
    pub open spec fn initial(config: ConfigView) -> NotifierView {
        NotifierView {
            config,
            cursor: TailView::initial(),
            pools: Map::empty(),
            phase: Phase::Ready,
            pending: Seq::empty(),
        }
    }

    /// Goes to sleep.
    pub open spec fn to_sleep(self) -> (NotifierView, ActionView) {
        (
            NotifierView { phase: Phase::Sleeping, ..self },
            ActionView::Sleep { seconds: self.config.poll_duration_seconds },
        )
    }

    /// Turns to the pools: lists them if their health is to be reported, and
    /// goes to sleep otherwise.
    pub open spec fn to_pools(self) -> (NotifierView, ActionView) {
        if self.config.notifications.reports_pool_health() {
            (NotifierView { phase: Phase::ListingPools, ..self }, ActionView::ListPools)
        } else {
            self.to_sleep()
        }
    }

    /// Begins a round: opens the log if logins are to be reported, and turns
    /// to the pools otherwise.
    pub open spec fn begin_round(self) -> (NotifierView, ActionView) {
        if self.config.notifications.reads_log() {
            (NotifierView { phase: Phase::OpeningLog, ..self }, ActionView::OpenLog)
        } else {
            self.to_pools()
        }
    }

    /// Sends the next text about the log, or turns to the pools when none
    /// is left.
    pub open spec fn report_logins(self) -> (NotifierView, ActionView) {
        if self.pending.len() > 0 {
            (
                NotifierView {
                    phase: Phase::ReportingLogins,
                    pending: self.pending.drop_first(),
                    ..self
                },
                ActionView::Send { text: self.pending[0] },
            )
        } else {
            self.to_pools()
        }
    }

    /// Sends the next text about the pools, or goes to sleep when none is
    /// left.
    pub open spec fn report_pools(self) -> (NotifierView, ActionView) {
        if self.pending.len() > 0 {
            (
                NotifierView {
                    phase: Phase::ReportingPools,
                    pending: self.pending.drop_first(),
                    ..self
                },
                ActionView::Send { text: self.pending[0] },
            )
        } else {
            self.to_sleep()
        }
    }

    /// Whether the monitor has asked for something that can fail, and is
    /// waiting for what came of it.
    pub open spec fn at_work(self) -> bool {
        match self.phase {
            Phase::OpeningLog => true,
            Phase::ReadingLog { .. } => true,
            Phase::ReportingLogins => true,
            Phase::ListingPools => true,
            Phase::ReportingPools => true,
            _ => false,
        }
    }

    /// Gives up.
    pub open spec fn stop(self) -> (NotifierView, ActionView) {
        (NotifierView { phase: Phase::Stopped, ..self }, ActionView::Stop)
    }

    /// What `event` leads to: the monitor after it, and what is to be done
    /// next; or nothing, if the monitor is not waiting for `event`. A text
    /// of the log whose bytes would carry the cursor beyond what 64 bits
    /// count is not waited for.
    pub open spec fn next(self, event: EventView) -> Option<(NotifierView, ActionView)> {
        match (self.phase, event) {
            (_, EventView::Failed) => if self.at_work() {
                Some(self.stop())
            } else {
                None
            },
            (Phase::Ready, EventView::Wake) => Some(self.begin_round()),
            (Phase::Sleeping, EventView::Wake) => Some(self.begin_round()),
            (Phase::OpeningLog, EventView::LogLength { len }) => Some(
                (
                    NotifierView { phase: Phase::ReadingLog { file_len: len }, ..self },
                    ActionView::ReadLog { offset: self.cursor.start(len as nat) },
                ),
            ),
            (Phase::ReadingLog { file_len }, EventView::LogText { text, bytes_read }) => {
                let poll = Poll { file_len: file_len as nat, bytes_read: bytes_read as nat };
                if self.cursor.polled(poll).position <= u64::MAX {
                    Some(
                        NotifierView {
                            cursor: self.cursor.polled(poll),
                            pending: log_alerts(lines_of(text), self.config),
                            ..self
                        }.report_logins(),
                    )
                } else {
                    None
                }
            },
            (Phase::ReportingLogins, EventView::Sent) => Some(self.report_logins()),
            (Phase::ListingPools, EventView::Pools { observed }) => Some(
                NotifierView {
                    pools: healths_after(self.pools, observed),
                    pending: pool_alerts(changes(self.pools, observed)),
                    ..self
                }.report_pools(),
            ),
            (Phase::ReportingPools, EventView::Sent) => Some(self.report_pools()),
            _ => None,
        }
    }

    /// The monitor after the events `events`, one after the other, and what
    /// it asked for on the way. An event that it was not waiting for changes
    /// nothing and asks for nothing.
    pub open spec fn run(self, events: Seq<EventView>) -> (NotifierView, Seq<ActionView>)
        decreases events.len(),
    {
        if events.len() == 0 {
            (self, Seq::empty())
        } else {
            let (state, asked) = self.run(events.drop_last());
            match state.next(events.last()) {
                Some((after, todo)) => (after, asked.push(todo)),
                None => (state, asked),
            }
        }
    }

    /// Whether the monitor is between two rounds.
    pub open spec fn resting(self) -> bool {
        self.phase == Phase::Ready || self.phase == Phase::Sleeping
    }
}

/// The first round passes over what the log already holds: the monitor asks
/// for the log from its end on, and when that read returns nothing, as it
/// must, the cursor stands at the length of the log and nothing is sent.
pub proof fn lemma_first_round_skips_history(config: ConfigView, len: u64)
    requires
        config.notifications.reads_log(),
    ensures
        ({
            let events = seq![
                EventView::Wake,
                EventView::LogLength { len },
                EventView::LogText { text: Seq::empty(), bytes_read: 0 },
            ];
            let (state, asked) = NotifierView::initial(config).run(events);
            &&& asked.len() == 3
            &&& asked[0] == ActionView::OpenLog
            &&& asked[1] == ActionView::ReadLog { offset: len as nat }
            &&& !(asked[2] is Send)
            &&& state.cursor == TailView { position: len as nat, first_read: false }
            &&& state.pending.len() == 0
        }),
{
    let start = NotifierView::initial(config);
    let wake = seq![EventView::Wake];
    let opened = wake.push(EventView::LogLength { len });
    let read = opened.push(EventView::LogText { text: Seq::empty(), bytes_read: 0 });
    assert(wake.drop_last() =~= Seq::<EventView>::empty());
    assert(opened.drop_last() =~= wake);
    assert(read.drop_last() =~= opened);
    assert(start.run(Seq::<EventView>::empty()) == (start, Seq::<ActionView>::empty()));
    assert(start.run(wake).1 =~= seq![ActionView::OpenLog]);
    assert(start.run(opened).1 =~= seq![
        ActionView::OpenLog,
        ActionView::ReadLog { offset: len as nat },
    ]);
    assert(read =~= seq![
        EventView::Wake,
        EventView::LogLength { len },
        EventView::LogText { text: Seq::empty(), bytes_read: 0 },
    ]);
}

/// Whatever happens, the settings stay as they are, no pool leaves the
/// record, and the cursor stays where it is unless a text of the log is taken
/// in, which moves it as one poll does.
pub proof fn lemma_step_keeps_what_is_known(state: NotifierView, event: EventView)
    requires
        state.next(event) is Some,
    ensures
        ({
            let (after, todo) = state.next(event).unwrap();
            &&& after.config == state.config
            &&& forall|name: Seq<char>|
                state.pools.contains_key(name) ==> #[trigger] after.pools.contains_key(name)
            &&& match (state.phase, event) {
                (Phase::ReadingLog { file_len }, EventView::LogText { bytes_read, .. }) =>
                    after.cursor == state.cursor.polled(
                        Poll { file_len: file_len as nat, bytes_read: bytes_read as nat },
                    ),
                _ => after.cursor == state.cursor,
            }
        }),
{
    match (state.phase, event) {
        (Phase::ListingPools, EventView::Pools { observed }) => {
            assert forall|name: Seq<char>| state.pools.contains_key(name) implies healths_after(
                state.pools,
                observed,
            ).contains_key(name) by {
                lemma_pools_stay_recorded(state.pools, observed, name);
            }
        },
        _ => {},
    }
}

/// However long the monitor runs, the settings stay as they are and no pool
/// leaves the record.
pub proof fn lemma_run_keeps_what_is_known(state: NotifierView, events: Seq<EventView>)
    ensures
        state.run(events).0.config == state.config,
        forall|name: Seq<char>|
            state.pools.contains_key(name) ==> #[trigger] state.run(events).0.pools.contains_key(
                name,
            ),
    decreases events.len(),
{
    if events.len() > 0 {
        lemma_run_keeps_what_is_known(state, events.drop_last());
        let before = state.run(events.drop_last()).0;
        if before.next(events.last()) is Some {
            lemma_step_keeps_what_is_known(before, events.last());
        }
    }
}

/// Whatever fails, the monitor gives up at once: it asks for the process to
/// end, keeps what it knew, and tries nothing again.
pub proof fn lemma_failure_stops(state: NotifierView)
    requires
        state.at_work(),
    ensures
        state.next(EventView::Failed) == Some(
            (NotifierView { phase: Phase::Stopped, ..state }, ActionView::Stop),
        ),
{
}

/// A monitor that has given up asks for nothing any more, whatever happens.
pub proof fn lemma_stopped_stays_stopped(state: NotifierView, events: Seq<EventView>)
    requires
        state.phase == Phase::Stopped,
    ensures
        state.run(events) == (state, Seq::<ActionView>::empty()),
    decreases events.len(),
{
    if events.len() > 0 {
        lemma_stopped_stays_stopped(state, events.drop_last());
    }
}

/// A monitor whose switches are all off, when it is between two rounds,
/// answers whatever happens with sleep, or not at all, and is between two
/// rounds again.
pub proof fn lemma_silent_step_sleeps(state: NotifierView, event: EventView)
    requires
        state.config.notifications.silent(),
        state.resting(),
    ensures
        match state.next(event) {
            Some((after, todo)) => todo == (ActionView::Sleep {
                seconds: state.config.poll_duration_seconds,
            }) && after.resting() && after.config == state.config,
            None => true,
        },
{
}

/// A monitor whose switches are all off never asks for the log, for the
/// pools or for a notification, whatever happens and however long it runs:
/// all it ever asks for is sleep.
pub proof fn lemma_silent_monitor_only_sleeps(config: ConfigView, events: Seq<EventView>)
    requires
        config.notifications.silent(),
    ensures
        forall|i: int|
            0 <= i < NotifierView::initial(config).run(events).1.len() ==> (
            #[trigger] NotifierView::initial(config).run(events).1[i]) is Sleep,
        NotifierView::initial(config).run(events).0.resting(),
        NotifierView::initial(config).run(events).0.config == config,
    decreases events.len(),
{
    if events.len() > 0 {
        lemma_silent_monitor_only_sleeps(config, events.drop_last());
        let (state, asked) = NotifierView::initial(config).run(events.drop_last());
        lemma_silent_step_sleeps(state, events.last());
    }
}

impl View for NasNotifier {
    type V = NotifierView;

    closed spec fn view(&self) -> NotifierView {
        NotifierView {
            config: self.config@,
            cursor: self.cursor@,
            pools: self.zpools_health@,
            phase: self.phase,
            pending: self.outbox.deep_view(),
        }
    }
}

impl Default for NasNotifier {
    /// A monitor that reports nothing and sleeps thirty seconds a round.
    fn default() -> (notifier: NasNotifier)
        ensures
            notifier@.config.poll_duration_seconds == 30,
            notifier@.config.telegram.user_id == 0,
            notifier@.config.telegram.hostname == Seq::<char>::empty(),
            notifier@.config.telegram.api_key == Seq::<char>::empty(),
            notifier@.config.notifications.new_login_ip == None::<bool>,
            notifier@.config.notifications.known_ips == None::<Seq<Seq<char>>>,
            notifier@.config.notifications.failed_login == None::<bool>,
            notifier@.config.notifications.pool_health == None::<bool>,
            notifier@ == NotifierView::initial(notifier@.config),
    {
        NasNotifier::new(
            Config {
                poll_duration_seconds: 30,
                telegram: TelegramConfig {
                    user_id: 0,
                    hostname: String::new(),
                    api_key: String::new(),
                },
                notifications: NotificationsConfig {
                    new_login_ip: None,
                    known_ips: None,
                    failed_login: None,
                    pool_health: None,
                },
            },
        )
    }
}

impl NasNotifier {
    /// A monitor with the settings `config`, before anything has happened.
    pub fn new(config: Config) -> (notifier: NasNotifier)
        ensures
            notifier@ == NotifierView::initial(config@),
    {
        let notifier = NasNotifier {
            config,
            cursor: TailCursor::new(),
            zpools_health: PoolHealthMap::new(),
            phase: Phase::Ready,
            outbox: Vec::new(),
        };
        assert(notifier.outbox.deep_view() =~= Seq::<Seq<char>>::empty());
        notifier
    }

    /// The settings.
    pub fn config(&self) -> (config: &Config)
        ensures
            config@ == self@.config,
    {
        &self.config
    }

    /// How far the log has been read.
    pub fn cursor(&self) -> (cursor: &TailCursor)
        ensures
            cursor@ == self@.cursor,
    {
        &self.cursor
    }

    /// The health in which each pool was last seen.
    pub fn zpools_health(&self) -> (pools: &PoolHealthMap)
        ensures
            pools@ == self@.pools,
    {
        &self.zpools_health
    }

    /// What the monitor is waiting for.
    pub fn phase(&self) -> (phase: Phase)
        ensures
            phase == self@.phase,
    {
        self.phase
    }

    /// The number of notifications of this round that are still to be sent.
    pub fn pending(&self) -> (count: usize)
        ensures
            count == self@.pending.len(),
    {
        self.outbox.len()
    }

    /// Goes to sleep.
    fn to_sleep(&mut self) -> (action: Action)
        ensures
            (final(self)@, action@) == old(self)@.to_sleep(),
    {
        self.phase = Phase::Sleeping;
        Action::Sleep { seconds: self.config.poll_duration_seconds }
    }

    /// Turns to the pools, or goes to sleep if they are not looked at.
    fn to_pools(&mut self) -> (action: Action)
        ensures
            (final(self)@, action@) == old(self)@.to_pools(),
    {
        if self.config.notifications.reports_pool_health() {
            self.phase = Phase::ListingPools;
            Action::ListPools
        } else {
            self.to_sleep()
        }
    }

    /// Begins a round with the log, or with the pools if the log is not read.
    fn begin_round(&mut self) -> (action: Action)
        ensures
            (final(self)@, action@) == old(self)@.begin_round(),
    {
        if self.config.notifications.reads_log() {
            self.phase = Phase::OpeningLog;
            Action::OpenLog
        } else {
            self.to_pools()
        }
    }

    /// Sends the next text about the log, or turns to the pools.
    fn report_logins(&mut self) -> (action: Action)
        ensures
            (final(self)@, action@) == old(self)@.report_logins(),
    {
        if self.outbox.len() > 0 {
            let text = self.outbox.remove(0);
            self.phase = Phase::ReportingLogins;
            assert(self.outbox.deep_view() =~= old(self).outbox.deep_view().drop_first());
            Action::Send { text }
        } else {
            self.to_pools()
        }
    }

    /// Sends the next text about the pools, or goes to sleep.
    fn report_pools(&mut self) -> (action: Action)
        ensures
            (final(self)@, action@) == old(self)@.report_pools(),
    {
        if self.outbox.len() > 0 {
            let text = self.outbox.remove(0);
            self.phase = Phase::ReportingPools;
            assert(self.outbox.deep_view() =~= old(self).outbox.deep_view().drop_first());
            Action::Send { text }
        } else {
            self.to_sleep()
        }
    }

    /// Takes in `event` and says what is to be done next. An event that the
    /// monitor is not waiting for is refused: the answer is `None`, and the
    /// monitor stays as it was.
    pub fn step(&mut self, event: Event) -> (action: Option<Action>)
        ensures
            match (old(self)@.next(event@), action) {
                (Some((state, todo)), Some(action)) => final(self)@ == state && action@ == todo,
                (None, None) => final(self)@ == old(self)@,
                _ => false,
            },
    {
        match event {
            Event::Wake => match self.phase {
                Phase::Ready | Phase::Sleeping => Some(self.begin_round()),
                _ => None,
            },
            Event::LogLength { len } => match self.phase {
                Phase::OpeningLog => {
                    self.phase = Phase::ReadingLog { file_len: len };
                    Some(Action::ReadLog { offset: self.cursor.start(len) })
                },
                _ => None,
            },
            Event::LogText { text, bytes_read } => match self.phase {
                Phase::ReadingLog { file_len } => {
                    if bytes_read <= u64::MAX - self.cursor.start(file_len) {
                        self.cursor.advance(file_len, bytes_read);
                        self.outbox = log_messages(text.as_str(), &self.config);
                        Some(self.report_logins())
                    } else {
                        None
                    }
                },
                _ => None,
            },
            Event::Pools { observed } => match self.phase {
                Phase::ListingPools => {
                    let changed = self.zpools_health.reconcile(&observed);
                    self.outbox = pool_messages(&changed);
                    Some(self.report_pools())
                },
                _ => None,
            },
            Event::Sent => match self.phase {
                Phase::ReportingLogins => Some(self.report_logins()),
                Phase::ReportingPools => Some(self.report_pools()),
                _ => None,
            },
            Event::Failed => match self.phase {
                Phase::OpeningLog
                | Phase::ReadingLog { .. }
                | Phase::ReportingLogins
                | Phase::ListingPools
                | Phase::ReportingPools => {
                    self.phase = Phase::Stopped;
                    Some(Action::Stop)
                },
                _ => None,
            },
        }
    }
}

} // verus!
