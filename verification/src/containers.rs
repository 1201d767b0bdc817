//! Containers: their state, health, statistics and the actions that they allow.
use crate::assoc::MapKey;
use crate::outside;
use crate::outside::Timestamp;
use crate::text;
use crate::text::{contains_text, same_text};
use std::str::FromStr;
use vstd::prelude::*;

verus! {

/// Host identifier for tracking which Docker host a container belongs to
pub type HostId = String;

/// Container state as reported by Docker
#[derive(Clone, Copy, Debug, PartialEq, Eq, Structural)]
pub enum ContainerState {
    Running,
    Paused,
    Restarting,
    Removing,
    Exited,
    Dead,
    Created,
    Unknown,
}

/// The state that a text in lower case names; any other text is `Unknown`.
pub open spec fn state_named(s: Seq<char>) -> ContainerState {
    if s == "running"@ {
        ContainerState::Running
    } else if s == "paused"@ {
        ContainerState::Paused
    } else if s == "restarting"@ {
        ContainerState::Restarting
    } else if s == "removing"@ {
        ContainerState::Removing
    } else if s == "exited"@ {
        ContainerState::Exited
    } else if s == "dead"@ {
        ContainerState::Dead
    } else if s == "created"@ {
        ContainerState::Created
    } else {
        ContainerState::Unknown
    }
}

impl ContainerState {
    /// The text of the state's name.
    pub open spec fn name_text(self) -> Seq<char> {
        match self {
            ContainerState::Running => "Running"@,
            ContainerState::Paused => "Paused"@,
            ContainerState::Restarting => "Restarting"@,
            ContainerState::Removing => "Removing"@,
            ContainerState::Exited => "Exited"@,
            ContainerState::Dead => "Dead"@,
            ContainerState::Created => "Created"@,
            ContainerState::Unknown => "Unknown"@,
        }
    }

    /// The state's name, by which the status column is sorted.
    pub fn name(self) -> (r: &'static str)
        ensures
            r@ == self.name_text(),
    {
        match self {
            ContainerState::Running => "Running",
            ContainerState::Paused => "Paused",
            ContainerState::Restarting => "Restarting",
            ContainerState::Removing => "Removing",
            ContainerState::Exited => "Exited",
            ContainerState::Dead => "Dead",
            ContainerState::Created => "Created",
            ContainerState::Unknown => "Unknown",
        }
    }

    /// Reads a state from a text in lower case.
    pub fn from_lowercase(s: &str) -> (r: ContainerState)
        ensures
            r == state_named(s@),
    {
        if same_text(s, "running") {
            ContainerState::Running
        } else if same_text(s, "paused") {
            ContainerState::Paused
        } else if same_text(s, "restarting") {
            ContainerState::Restarting
        } else if same_text(s, "removing") {
            ContainerState::Removing
        } else if same_text(s, "exited") {
            ContainerState::Exited
        } else if same_text(s, "dead") {
            ContainerState::Dead
        } else if same_text(s, "created") {
            ContainerState::Created
        } else {
            ContainerState::Unknown
        }
    }
}

impl FromStr for ContainerState {
    type Err = ();

    /// Reads a state without regard to case. Every text names a state.
    fn from_str(s: &str) -> (r: Result<Self, ()>)
        ensures
            r == Ok::<ContainerState, ()>(state_named(outside::lowercase(s@))),
    {
        let lower = s.to_lowercase();
        Ok(ContainerState::from_lowercase(lower.as_str()))
    }
}

/// Container health status from Docker health checks
#[derive(Clone, Copy, Debug, PartialEq, Eq, Structural)]
pub enum HealthStatus {
    Healthy,
    Unhealthy,
    Starting,
}

/// The health that a text in lower case speaks of.
pub open spec fn health_in(s: Seq<char>) -> Option<HealthStatus> {
    if text::occurs(s, "unhealthy"@) {
        Some(HealthStatus::Unhealthy)
    } else if text::occurs(s, "healthy"@) {
        Some(HealthStatus::Healthy)
    } else if text::occurs(s, "starting"@) {
        Some(HealthStatus::Starting)
    } else {
        None
    }
}

impl HealthStatus {
    /// Reads a health status from a text in lower case.
    pub fn from_lowercase(s: &str) -> (r: Option<HealthStatus>)
        ensures
            r == health_in(s@),
    {
        if contains_text(s, "healthy") && !contains_text(s, "unhealthy") {
            Some(HealthStatus::Healthy)
        } else if contains_text(s, "unhealthy") {
            Some(HealthStatus::Unhealthy)
        } else if contains_text(s, "starting") {
            Some(HealthStatus::Starting)
        } else {
            None
        }
    }

    /// Reads a health status without regard to case, if the text speaks of one.
    pub fn parse(s: &str) -> (r: Option<HealthStatus>)
        ensures
            r == health_in(outside::lowercase(s@)),
    {
        let lower = s.to_lowercase();
        HealthStatus::from_lowercase(lower.as_str())
    }
}

impl FromStr for HealthStatus {
    type Err = ();

    /// Reads a health status without regard to case. A text that speaks of none
    /// is an error.
    fn from_str(s: &str) -> (r: Result<Self, ()>)
        ensures
            r == match health_in(outside::lowercase(s@)) {
                Some(h) => Ok::<HealthStatus, ()>(h),
                None => Err(()),
            },
    {
        match HealthStatus::parse(s) {
            Some(health) => Ok(health),
            None => Err(()),
        }
    }
}

/// The name of a state reads back as the state, whatever its case.
pub proof fn law_state_name_reads_back(state: ContainerState, s: Seq<char>)
    requires
        text::same_letters(s, state.name_text()),
    ensures
        state_named(outside::lowercase(s)) == state,
{
    text::lemma_same_letters(s, state.name_text());
    reveal_strlit("running");
    reveal_strlit("paused");
    reveal_strlit("restarting");
    reveal_strlit("removing");
    reveal_strlit("exited");
    reveal_strlit("dead");
    reveal_strlit("created");
    reveal_strlit("Running");
    reveal_strlit("Paused");
    reveal_strlit("Restarting");
    reveal_strlit("Removing");
    reveal_strlit("Exited");
    reveal_strlit("Dead");
    reveal_strlit("Created");
    reveal_strlit("Unknown");
    assert("running"@[0] == 'r' && "created"@[0] == 'c');
    assert("paused"@[0] == 'p' && "exited"@[0] == 'e');
    let lower = outside::lowercase(state.name_text());
    match state {
        ContainerState::Running => assert(lower =~= "running"@),
        ContainerState::Paused => assert(lower =~= "paused"@),
        ContainerState::Restarting => assert(lower =~= "restarting"@),
        ContainerState::Removing => assert(lower =~= "removing"@),
        ContainerState::Exited => assert(lower =~= "exited"@),
        ContainerState::Dead => assert(lower =~= "dead"@),
        ContainerState::Created => assert(lower =~= "created"@),
        ContainerState::Unknown => {
            assert(lower[0] == 'u');
        },
    }
}

/// A text that says "unhealthy" is never read as healthy, although it says
/// "healthy" too.
pub proof fn law_unhealthy_is_not_healthy(s: Seq<char>)
    requires
        text::occurs(s, "unhealthy"@),
    ensures
        text::occurs(s, "healthy"@),
        health_in(s) == Some(HealthStatus::Unhealthy),
{
    reveal_strlit("unhealthy");
    reveal_strlit("healthy");
    let i = choose|i: int| #[trigger] text::occurs_at(s, "unhealthy"@, i);
    let word = s.subrange(i, i + 9);
    assert(word == "unhealthy"@);
    assert(s.subrange(i + 2, i + 9) =~= word.subrange(2, 9));
    assert(word.subrange(2, 9) =~= "healthy"@);
    assert(text::occurs_at(s, "healthy"@, i + 2));
}

/// A measurement, held as the bits of an IEEE 754 double.
#[derive(Clone, Copy, Debug, PartialEq, Eq, Structural)]
pub struct Metric {
    pub bits: u64,
}

/// How heavily a resource is used.
#[derive(Clone, Copy, Debug, PartialEq, Eq, Structural)]
pub enum UsageLevel {
    Low,
    Medium,
    High,
}

/// The bits of the double 50.
pub const FIFTY_BITS: u64 = 0x4049_0000_0000_0000;

/// The bits of the double 80.
pub const EIGHTY_BITS: u64 = 0x4054_0000_0000_0000;

/// The bits of positive infinity. Above them, among the bits without the sign,
/// are those that stand for no number.
pub const INFINITY_BITS: u64 = 0x7ff0_0000_0000_0000;

/// The sign bit of a double.
pub const SIGN_BIT: u64 = 0x8000_0000_0000_0000;

impl Metric {
    /// The place of the measurement in the total order of doubles: negative
    /// values mirror the positive ones below zero, and what is no number stands
    /// beyond the infinities.
    pub open spec fn order(self) -> int {
        if self.bits < SIGN_BIT {
            self.bits as int
        } else {
            SIGN_BIT - 1 - self.bits
        }
    }

    /// Whether the measurement is a number above the positive number with the
    /// given bits: the bits of positive doubles grow with their value.
    pub open spec fn exceeds(self, bits: u64) -> bool {
        bits < self.bits <= INFINITY_BITS
    }

    /// The usage level of a percentage: high above 80, medium above 50.
    pub open spec fn level(self) -> UsageLevel {
        if self.exceeds(EIGHTY_BITS) {
            UsageLevel::High
        } else if self.exceeds(FIFTY_BITS) {
            UsageLevel::Medium
        } else {
            UsageLevel::Low
        }
    }

    /// The place of the measurement in the total order of doubles.
    pub fn order_key(self) -> (r: i128)
        ensures
            r == self.order(),
    {
        if self.bits < SIGN_BIT {
            self.bits as i128
        } else {
            (SIGN_BIT as i128) - 1 - (self.bits as i128)
        }
    }

    /// The usage level of a percentage.
    pub fn usage_level(self) -> (r: UsageLevel)
        ensures
            r == self.level(),
    {
        if self.bits > EIGHTY_BITS && self.bits <= INFINITY_BITS {
            UsageLevel::High
        } else if self.bits > FIFTY_BITS && self.bits <= INFINITY_BITS {
            UsageLevel::Medium
        } else {
            UsageLevel::Low
        }
    }
}

/// Container runtime statistics (updated frequently)
#[derive(Clone, Copy, Debug, PartialEq, Eq, Structural)]
pub struct ContainerStats {
    pub cpu: Metric,
    pub memory: Metric,
    /// Memory used in bytes
    pub memory_used_bytes: u64,
    /// Memory limit in bytes
    pub memory_limit_bytes: u64,
    /// Network transmit rate in bytes per second
    pub network_tx_bytes_per_sec: Metric,
    /// Network receive rate in bytes per second
    pub network_rx_bytes_per_sec: Metric,
    /// Disk read rate in bytes per second
    pub disk_read_bytes_per_sec: Metric,
    /// Disk write rate in bytes per second
    pub disk_write_bytes_per_sec: Metric,
    /// Current number of PIDs (processes/threads) in the container's cgroup
    pub pids_current: u64,
    /// Hard limit on the number of PIDs (0 means no limit)
    pub pids_limit: u64,
}

impl ContainerStats {
    /// The statistics of a container that has not reported any.
    pub open spec fn zero() -> ContainerStats {
        let none = Metric { bits: 0 };
        ContainerStats {
            cpu: none,
            memory: none,
            memory_used_bytes: 0,
            memory_limit_bytes: 0,
            network_tx_bytes_per_sec: none,
            network_rx_bytes_per_sec: none,
            disk_read_bytes_per_sec: none,
            disk_write_bytes_per_sec: none,
            pids_current: 0,
            pids_limit: 0,
        }
    }
}

impl Default for ContainerStats {
    fn default() -> (r: Self)
        ensures
            r == ContainerStats::zero(),
    {
        let none = Metric { bits: 0 };
        ContainerStats {
            cpu: none,
            memory: none,
            memory_used_bytes: 0,
            memory_limit_bytes: 0,
            network_tx_bytes_per_sec: none,
            network_rx_bytes_per_sec: none,
            disk_read_bytes_per_sec: none,
            disk_write_bytes_per_sec: none,
            pids_current: 0,
            pids_limit: 0,
        }
    }
}

/// Container metadata (static information)
#[derive(Debug)]
pub struct Container {
    pub id: String,
    pub name: String,
    pub state: ContainerState,
    /// None if container has no health check configured
    pub health: Option<HealthStatus>,
    /// When the container was created
    pub created: Option<Timestamp>,
    pub stats: ContainerStats,
    pub host_id: HostId,
    pub dozzle_url: Option<String>,
    pub restart_count: Option<i64>,
    /// Dozzle group, Coolify project, or Compose project
    pub compose_project: Option<String>,
    /// Image the container was created from, as referenced
    pub image: Option<String>,
}

/// A copy of a text that may be absent.
pub fn copy_text(s: &Option<String>) -> (r: Option<String>)
    ensures
        r == *s,
{
    match s {
        Some(t) => Some(t.clone()),
        None => None,
    }
}

impl Clone for Container {
    fn clone(&self) -> (r: Self)
        ensures
            r == *self,
    {
        Container {
            id: self.id.clone(),
            name: self.name.clone(),
            state: self.state,
            health: self.health,
            created: self.created,
            stats: self.stats,
            host_id: self.host_id.clone(),
            dozzle_url: copy_text(&self.dozzle_url),
            restart_count: self.restart_count,
            compose_project: copy_text(&self.compose_project),
            image: copy_text(&self.image),
        }
    }
}

/// Unique key for identifying containers across multiple hosts
#[derive(Debug, Hash, Eq, PartialEq)]
pub struct ContainerKey {
    pub host_id: HostId,
    pub container_id: String,
}

impl View for ContainerKey {
    type V = (Seq<char>, Seq<char>);

    open spec fn view(&self) -> (Seq<char>, Seq<char>) {
        (self.host_id@, self.container_id@)
    }
}

impl Clone for ContainerKey {
    fn clone(&self) -> (r: Self)
        ensures
            r == *self,
    {
        ContainerKey { host_id: self.host_id.clone(), container_id: self.container_id.clone() }
    }
}

impl MapKey for ContainerKey {
    fn same_key(&self, other: &ContainerKey) -> (r: bool) {
        same_text(self.host_id.as_str(), other.host_id.as_str()) && same_text(
            self.container_id.as_str(),
            other.container_id.as_str(),
        )
    }
}

impl ContainerKey {
    pub fn new(host_id: HostId, container_id: String) -> (r: Self)
        ensures
            r.host_id == host_id,
            r.container_id == container_id,
            r@ == (host_id@, container_id@),
    {
        ContainerKey { host_id, container_id }
    }
}

/// Available actions for containers
#[derive(Clone, Copy, Debug, PartialEq, Eq, Structural)]
pub enum ContainerAction {
    Start,
    Stop,
    Restart,
    Remove,
    Shell,
}

/// The actions that a container in a given state allows, in menu order.
pub open spec fn actions_for(state: ContainerState) -> Seq<ContainerAction> {
    match state {
        ContainerState::Running => seq![
            ContainerAction::Shell,
            ContainerAction::Stop,
            ContainerAction::Restart,
            ContainerAction::Remove,
        ],
        ContainerState::Paused => seq![ContainerAction::Stop, ContainerAction::Remove],
        ContainerState::Exited | ContainerState::Created | ContainerState::Dead => seq![
            ContainerAction::Start,
            ContainerAction::Remove,
        ],
        ContainerState::Restarting | ContainerState::Removing | ContainerState::Unknown => seq![],
    }
}

impl ContainerAction {
    /// The text of the action's display name.
    pub open spec fn display_text(self) -> Seq<char> {
        match self {
            ContainerAction::Start => "Start"@,
            ContainerAction::Stop => "Stop"@,
            ContainerAction::Restart => "Restart"@,
            ContainerAction::Remove => "Remove"@,
            ContainerAction::Shell => "Shell"@,
        }
    }

    /// Returns the display name for this action
    pub fn display_name(self) -> (r: &'static str)
        ensures
            r@ == self.display_text(),
    {
        match self {
            ContainerAction::Start => "Start",
            ContainerAction::Stop => "Stop",
            ContainerAction::Restart => "Restart",
            ContainerAction::Remove => "Remove",
            ContainerAction::Shell => "Shell",
        }
    }

    /// Returns all available actions for a given container state
    pub fn available_for_state(state: &ContainerState) -> (r: Vec<ContainerAction>)
        ensures
            r@ == actions_for(*state),
    {
        match state {
            ContainerState::Running => vec![
                ContainerAction::Shell,
                ContainerAction::Stop,
                ContainerAction::Restart,
                ContainerAction::Remove,
            ],
            ContainerState::Paused => vec![ContainerAction::Stop, ContainerAction::Remove],
            ContainerState::Exited | ContainerState::Created | ContainerState::Dead => vec![
                ContainerAction::Start,
                ContainerAction::Remove,
            ],
            ContainerState::Restarting | ContainerState::Removing => vec![],
            ContainerState::Unknown => vec![],
        }
    }
}

/// No action is offered twice, a container is never offered both to start and to
/// stop, a container that can be acted on can be removed, and a shell or a
/// restart needs a running container.
pub proof fn law_actions_are_consistent(state: ContainerState)
    ensures
        actions_for(state).no_duplicates(),
        !(actions_for(state).contains(ContainerAction::Start) && actions_for(state).contains(
            ContainerAction::Stop,
        )),
        actions_for(state).len() > 0 ==> actions_for(state).last() == ContainerAction::Remove,
        actions_for(state).contains(ContainerAction::Shell) <==> state == ContainerState::Running,
        actions_for(state).contains(ContainerAction::Restart) <==> state == ContainerState::Running,
{
    let actions = actions_for(state);
    if state == ContainerState::Running {
        assert(actions[0] == ContainerAction::Shell);
        assert(actions[2] == ContainerAction::Restart);
    }
}

/// A higher percentage never has a lower usage level.
pub proof fn law_usage_grows_with_the_percentage(a: Metric, b: Metric)
    requires
        a.order() <= b.order() <= INFINITY_BITS,
    ensures
        a.level() == UsageLevel::High ==> b.level() == UsageLevel::High,
        a.level() == UsageLevel::Medium ==> b.level() != UsageLevel::Low,
{
}

/// Measurements are ordered as their values are: among those without a sign more
/// bits are more, among those with one more bits are less, and those with a sign
/// come first.
pub proof fn law_measurements_are_ordered_by_value(a: Metric, b: Metric)
    ensures
        a.bits < b.bits && b.bits < 0x8000_0000_0000_0000 ==> a.order() < b.order(),
        0x8000_0000_0000_0000 <= a.bits && a.bits < b.bits ==> a.order() > b.order(),
        a.bits < 0x8000_0000_0000_0000 && 0x8000_0000_0000_0000 <= b.bits ==> b.order()
            < a.order(),
        a.order() == b.order() ==> a == b,
{
}

/// A text says how healthy a container is by one of three words. It is unhealthy
/// wherever that word stands, healthy where only that one does, starting where
/// neither does, and else the text does not say.
pub proof fn law_health_is_told_by_words(s: Seq<char>)
    ensures
        text::occurs(s, "unhealthy"@) ==> health_in(s) == Some(HealthStatus::Unhealthy),
        text::occurs(s, "healthy"@) && !text::occurs(s, "unhealthy"@) ==> health_in(s) == Some(
            HealthStatus::Healthy,
        ),
        text::occurs(s, "starting"@) && !text::occurs(s, "healthy"@) ==> health_in(s) == Some(
            HealthStatus::Starting,
        ),
        !text::occurs(s, "starting"@) && !text::occurs(s, "healthy"@) ==> health_in(s) is None,
{
    if text::occurs(s, "unhealthy"@) {
        law_unhealthy_is_not_healthy(s);
    }
}

/// A word that names no state is read as unknown.
pub proof fn law_other_words_name_no_state(s: Seq<char>)
    requires
        s != "running"@,
        s != "paused"@,
        s != "restarting"@,
        s != "removing"@,
        s != "exited"@,
        s != "dead"@,
        s != "created"@,
    ensures
        state_named(s) == ContainerState::Unknown,
{
}

/// A container that runs, is paused or has ended can be removed; one that ended or
/// was only created can be started; one that runs or is paused can be stopped; one
/// that is on its way to another state, or in none that is known, can be left
/// alone only.
pub proof fn law_actions_follow_the_state(state: ContainerState)
    ensures
        actions_for(state).contains(ContainerAction::Start) <==> state == ContainerState::Exited
            || state == ContainerState::Created || state == ContainerState::Dead,
        actions_for(state).contains(ContainerAction::Stop) <==> state == ContainerState::Running
            || state == ContainerState::Paused,
        actions_for(state).contains(ContainerAction::Remove) <==> state == ContainerState::Running
            || state == ContainerState::Paused || state == ContainerState::Exited || state
            == ContainerState::Created || state == ContainerState::Dead,
        state == ContainerState::Restarting || state == ContainerState::Removing || state
            == ContainerState::Unknown ==> actions_for(state).len() == 0,
        state == ContainerState::Running ==> actions_for(state)[0] == ContainerAction::Shell
            && actions_for(state)[1] == ContainerAction::Stop,
{
    let actions = actions_for(state);
    if actions.len() > 0 {
        assert(actions[0] == actions[0]);
        assert(actions[1] == actions[1]);
    }
    if state == ContainerState::Running {
        assert(actions[3] == ContainerAction::Remove);
    }
}

/// The usage level of a percentage goes by its value: a double with the exponent
/// `e` and the fraction `f` of its significand has the value of one and the
/// fraction, so many times two as the exponent is above its bias. It is high above
/// 80 and medium above 50.
pub proof fn law_usage_levels_go_by_value(percentage: Metric, e: int, f: int)
    requires
        1 <= e <= 2046,
        0 <= f < 0x10_0000_0000_0000,
        percentage.bits == e * 0x10_0000_0000_0000 + f,
    ensures
        e < 1023 ==> percentage.level() == UsageLevel::Low,
        e >= 1023 ==> {
            let value = (0x10_0000_0000_0000 + f) * vstd::arithmetic::power2::pow2((e - 1023) as nat);
            &&& percentage.level() == UsageLevel::High <==> value > 80 * 0x10_0000_0000_0000
            &&& percentage.level() == UsageLevel::Low <==> value <= 50 * 0x10_0000_0000_0000
        },
{
    if e >= 1023 {
        let k = (e - 1023) as nat;
        let one: int = 0x10_0000_0000_0000 + f;
        let power = vstd::arithmetic::power2::pow2(k) as int;
        vstd::arithmetic::power2::lemma2_to64();
        if k < 5 {
            if k < 4 {
                vstd::arithmetic::power2::lemma_pow2_strictly_increases(k, 4);
            }
            assert(one * power <= 50 * 0x10_0000_0000_0000) by (nonlinear_arith)
                requires
                    0 < one < 0x20_0000_0000_0000,
                    power <= 16,
            ;
        } else if k == 5 {
            assert(one * power == 32 * one) by (nonlinear_arith)
                requires
                    power == 32,
            ;
        } else if k == 6 {
            assert(one * power == 64 * one) by (nonlinear_arith)
                requires
                    power == 64,
            ;
        } else {
            if k > 7 {
                vstd::arithmetic::power2::lemma_pow2_strictly_increases(7, k);
            }
            assert(one * power > 80 * 0x10_0000_0000_0000) by (nonlinear_arith)
                requires
                    one >= 0x10_0000_0000_0000,
                    power >= 128,
            ;
        }
    }
}

/// Infinity is a high usage; zero, numbers too small for a full significand,
/// negative numbers and what is no number are low.
pub proof fn law_usage_levels_of_special_values(percentage: Metric)
    ensures
        percentage.bits == 0x7ff0_0000_0000_0000 ==> percentage.level() == UsageLevel::High,
        percentage.bits > 0x7ff0_0000_0000_0000 ==> percentage.level() == UsageLevel::Low,
        percentage.bits < 0x10_0000_0000_0000 ==> percentage.level() == UsageLevel::Low,
{
}

} // verus!
