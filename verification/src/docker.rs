//! A Docker host, and how what it answers becomes containers.
use crate::assoc::TextMap;
use crate::containers;
use crate::containers::{
    copy_text, Container, ContainerKey, ContainerState, ContainerStats, HealthStatus, HostId,
};
use crate::events::AppEvent;
use crate::outside;
use crate::outside::{copy_connection, from_unix_seconds, Timestamp};
use crate::text;
use crate::text::{is_blank, trim_start_of};
use bollard::Docker;
use std::str::FromStr;
use vstd::prelude::*;
use vstd::string::*;

verus! {

/// Docker container IDs are 64-char hex strings; like the Docker CLI we track
/// and display only the first 12 characters.
pub const SHORT_ID_LEN: usize = 12;

/// The first [`SHORT_ID_LEN`] characters of a container ID, or the whole ID if it
/// is shorter.
pub open spec fn short(id: Seq<char>) -> Seq<char> {
    if id.len() <= SHORT_ID_LEN {
        id
    } else {
        id.take(SHORT_ID_LEN as int)
    }
}

/// Returns the first [`SHORT_ID_LEN`] characters of a container ID, or the whole
/// ID if it is shorter.
pub fn short_id(id: &str) -> (r: &str)
    ensures
        r@ == short(id@),
{
    if id.unicode_len() <= SHORT_ID_LEN {
        id
    } else {
        assert(id@.subrange(0, SHORT_ID_LEN as int) == id@.take(SHORT_ID_LEN as int));
        id.substring_char(0, SHORT_ID_LEN)
    }
}

/// A short ID is at most 12 characters long, begins the ID, and is its own short
/// ID: short and full IDs of one container lead to the same key.
pub proof fn law_short_ids(id: Seq<char>)
    ensures
        short(id).len() <= SHORT_ID_LEN,
        text::begins_with(id, short(id)),
        short(short(id)) == short(id),
{
    assert(id.subrange(0, short(id).len() as int) =~= short(id));
}

/// The labels of a container.
pub type Labels = TextMap<String>;

/// What a label says, if it is set to more than white space.
pub open spec fn label_text(labels: Option<&Labels>, key: Seq<char>) -> Option<Seq<char>> {
    match labels {
        Some(m) => if m@.contains_key(key) && !text::blank(m@[key]@) {
            Some(m@[key]@)
        } else {
            None
        },
        None => None,
    }
}

/// The first of two values that is there.
pub open spec fn either(first: Option<Seq<char>>, second: Option<Seq<char>>) -> Option<Seq<char>> {
    match first {
        Some(_) => first,
        None => second,
    }
}

/// The name under which a container is shown: a label if there is one, else
/// Docker's name without the slashes in front.
pub open spec fn shown_name(docker_name: Seq<char>, labels: Option<&Labels>) -> Seq<char> {
    match either(
        label_text(labels, "dev.dozzle.name"@),
        label_text(labels, "coolify.serviceName"@),
    ) {
        Some(name) => name,
        None => text::without_leading(docker_name, '/'),
    }
}

/// The project that a container belongs to, as its labels say.
pub open spec fn shown_project(labels: Option<&Labels>) -> Option<Seq<char>> {
    either(
        either(
            label_text(labels, "dev.dozzle.group"@),
            label_text(labels, "coolify.projectName"@),
        ),
        label_text(labels, "com.docker.compose.project"@),
    )
}

/// Whether the labels are a map, if there are any.
pub open spec fn labels_wf(labels: Option<&Labels>) -> bool {
    labels matches Some(m) ==> m.wf()
}

/// What a label says, if it is set to more than white space.
fn label(labels: Option<&Labels>, key: &str) -> (r: Option<String>)
    requires
        labels_wf(labels),
    ensures
        text::text_of(r) == label_text(labels, key@),
{
    match labels {
        Some(m) => match m.get_text(key) {
            Some(value) => if is_blank(value.as_str()) {
                None
            } else {
                Some(value.clone())
            },
            None => None,
        },
        None => None,
    }
}

/// The first of two values that is there.
fn first_of(first: Option<String>, second: Option<String>) -> (r: Option<String>)
    ensures
        text::text_of(r) == either(text::text_of(first), text::text_of(second)),
{
    match first {
        Some(_) => first,
        None => second,
    }
}

/// Resolve display metadata consistently for list and inspect responses.
pub fn display_metadata(docker_name: &str, labels: Option<&Labels>) -> (r: (String, Option<String>))
    requires
        labels_wf(labels),
    ensures
        r.0@ == shown_name(docker_name@, labels),
        text::text_of(r.1) == shown_project(labels),
{
    let named = first_of(label(labels, "dev.dozzle.name"), label(labels, "coolify.serviceName"));
    let name = match named {
        Some(name) => name,
        None => trim_start_of(docker_name, '/').to_owned(),
    };
    let project = first_of(
        first_of(label(labels, "dev.dozzle.group"), label(labels, "coolify.projectName")),
        label(labels, "com.docker.compose.project"),
    );
    (name, project)
}

/// Represents a Docker host connection with its identifier
#[derive(Debug)]
pub struct DockerHost {
    pub host_id: HostId,
    pub docker: Docker,
    pub dozzle_url: Option<String>,
    /// The filters that the user set for this host
    pub filters: TextMap<Vec<String>>,
}

/// A copy of a host's filters.
fn copy_filters(filters: &TextMap<Vec<String>>) -> (r: TextMap<Vec<String>>)
    ensures
        r.entries@.len() == filters.entries@.len(),
        forall|i: int|
            0 <= i < r.entries@.len() ==> {
                &&& (#[trigger] r.entries@[i]).0@ == filters.entries@[i].0@
                &&& r.entries@[i].1@ == filters.entries@[i].1@
            },
{
    let mut entries: Vec<(String, Vec<String>)> = Vec::new();
    let mut i: usize = 0;
    while i < filters.entries.len()
        invariant
            i <= filters.entries@.len(),
            entries@.len() == i,
            forall|j: int|
                0 <= j < i ==> {
                    &&& (#[trigger] entries@[j]).0@ == filters.entries@[j].0@
                    &&& entries@[j].1@ == filters.entries@[j].1@
                },
        decreases filters.entries@.len() - i,
    {
        let values = filters.entries[i].1.clone();
        assert(values@ =~= filters.entries@[i as int].1@);
        entries.push((filters.entries[i].0.clone(), values));
        i = i + 1;
    }
    TextMap { entries }
}

impl Clone for DockerHost {
    fn clone(&self) -> (r: Self)
        ensures
            r.host_id == self.host_id,
            r.dozzle_url == self.dozzle_url,
            r.filters.entries@.len() == self.filters.entries@.len(),
            forall|i: int|
                0 <= i < r.filters.entries@.len() ==> {
                    &&& (#[trigger] r.filters.entries@[i]).0@ == self.filters.entries@[i].0@
                    &&& r.filters.entries@[i].1@ == self.filters.entries@[i].1@
                },
    {
        DockerHost {
            host_id: self.host_id.clone(),
            docker: copy_connection(&self.docker),
            dozzle_url: copy_text(&self.dozzle_url),
            filters: copy_filters(&self.filters),
        }
    }
}

impl DockerHost {
    pub fn new(
        host_id: HostId,
        docker: Docker,
        dozzle_url: Option<String>,
        filters: TextMap<Vec<String>>,
    ) -> (r: Self)
        ensures
            r == (DockerHost { host_id, docker, dozzle_url, filters }),
    {
        DockerHost { host_id, docker, dozzle_url, filters }
    }
}

/// What Docker's container list says of a container, with its state as a word.
#[derive(Debug)]
pub struct ContainerSummary {
    pub id: Option<String>,
    pub names: Option<Vec<String>>,
    pub labels: Option<Labels>,
    pub state: Option<String>,
    /// When the container was created, in seconds since 1970
    pub created: Option<i64>,
    /// A line on how the container fares, such as "Up 2 hours (healthy)"
    pub status: Option<String>,
    pub image: Option<String>,
}

/// What inspecting a container says of it, with its health as a word.
#[derive(Debug)]
pub struct ContainerDetails {
    pub name: Option<String>,
    pub labels: Option<Labels>,
    pub health: Option<String>,
    /// When the container was created, as RFC 3339 writes it
    pub created: Option<String>,
    pub restart_count: Option<i64>,
    pub image: Option<String>,
}

/// The state that a word names; unknown where there is no word.
pub open spec fn reported_state(word: Option<String>) -> ContainerState {
    match word {
        Some(s) => containers::state_named(outside::lowercase(s@)),
        None => ContainerState::Unknown,
    }
}

/// The health that a text speaks of.
pub open spec fn reported_health(status: Option<String>) -> Option<HealthStatus> {
    match status {
        Some(s) => containers::health_in(outside::lowercase(s@)),
        None => None,
    }
}

/// The point in time that a number of seconds since 1970 denotes, if a date can
/// hold it.
pub open spec fn unix_time(secs: Option<i64>) -> Option<Timestamp> {
    match secs {
        Some(n) => if outside::MIN_UNIX_SECOND <= n <= outside::MAX_UNIX_SECOND {
            Some(Timestamp { secs: n, nanos: 0 })
        } else {
            None
        },
        None => None,
    }
}

/// The point in time that a text in RFC 3339 denotes.
pub open spec fn rfc3339_time(s: Option<String>) -> Option<Timestamp> {
    match s {
        Some(t) => match outside::rfc3339_instant(t@) {
            Some((secs, nanos)) => Some(Timestamp { secs, nanos }),
            None => None,
        },
        None => None,
    }
}

/// A text, or an empty one where there is none.
pub open spec fn or_empty(s: Option<String>) -> Seq<char> {
    match s {
        Some(t) => t@,
        None => Seq::empty(),
    }
}

/// The state that a word names; unknown where there is no word.
pub fn read_state(word: &Option<String>) -> (r: ContainerState)
    ensures
        r == reported_state(*word),
{
    match word {
        Some(s) => match ContainerState::from_str(s.as_str()) {
            Ok(state) => state,
            Err(_) => ContainerState::Unknown,
        },
        None => ContainerState::Unknown,
    }
}

/// The health that a text speaks of.
pub fn read_health(status: &Option<String>) -> (r: Option<HealthStatus>)
    ensures
        r == reported_health(*status),
{
    match status {
        Some(s) => HealthStatus::parse(s.as_str()),
        None => None,
    }
}

impl ContainerSummary {
    /// The labels are a map, if there are any.
    pub open spec fn wf(self) -> bool {
        self.labels matches Some(m) ==> m.wf()
    }

    /// The labels, if there are any.
    pub open spec fn label_map(&self) -> Option<&Labels> {
        match self.labels {
            Some(m) => Some(&m),
            None => None,
        }
    }

    /// The full ID; empty where there is none.
    pub open spec fn full_id(self) -> Seq<char> {
        or_empty(self.id)
    }

    /// The first of the names; empty where there is none.
    pub open spec fn docker_name(self) -> Seq<char> {
        match self.names {
            Some(names) => if names@.len() > 0 {
                names@[0]@
            } else {
                Seq::empty()
            },
            None => Seq::empty(),
        }
    }

    /// Whether a container is what this entry of a host's list describes. It has
    /// no statistics yet, and the list does not tell how often it was restarted.
    pub open spec fn describes(self, host: DockerHost, c: Container) -> bool {
        &&& c.id@ == short(self.full_id())
        &&& c.name@ == shown_name(self.docker_name(), self.label_map())
        &&& c.state == reported_state(self.state)
        &&& c.health == reported_health(self.status)
        &&& c.created == unix_time(self.created)
        &&& c.stats == ContainerStats::zero()
        &&& c.host_id@ == host.host_id@
        &&& text::text_of(c.dozzle_url) == text::text_of(host.dozzle_url)
        &&& c.restart_count is None
        &&& text::text_of(c.compose_project) == shown_project(self.label_map())
        &&& text::text_of(c.image) == text::text_of(self.image)
    }
}

impl ContainerDetails {
    /// The labels are a map, if there are any.
    pub open spec fn wf(self) -> bool {
        self.labels matches Some(m) ==> m.wf()
    }

    /// The labels, if there are any.
    pub open spec fn label_map(&self) -> Option<&Labels> {
        match self.labels {
            Some(m) => Some(&m),
            None => None,
        }
    }

    /// Whether a container is what inspecting the container with the given ID
    /// told, right after it started and given when it was created.
    pub open spec fn describes(
        self,
        host: DockerHost,
        container_id: Seq<char>,
        created: Option<Timestamp>,
        c: Container,
    ) -> bool {
        &&& c.id@ == short(container_id)
        &&& c.name@ == shown_name(or_empty(self.name), self.label_map())
        &&& c.state == ContainerState::Running
        &&& c.health == reported_health(self.health)
        &&& c.created == created
        &&& c.stats == ContainerStats::zero()
        &&& c.host_id@ == host.host_id@
        &&& text::text_of(c.dozzle_url) == text::text_of(host.dozzle_url)
        &&& c.restart_count == self.restart_count
        &&& text::text_of(c.compose_project) == shown_project(self.label_map())
        &&& text::text_of(c.image) == text::text_of(self.image)
    }
}

/// The entries of a container list that have an ID.
pub open spec fn identified(list: Seq<ContainerSummary>) -> Seq<ContainerSummary>
    decreases list.len(),
{
    if list.len() == 0 {
        Seq::empty()
    } else if list.last().full_id().len() == 0 {
        identified(list.drop_last())
    } else {
        identified(list.drop_last()).push(list.last())
    }
}

/// The IDs of the containers that are running.
pub open spec fn running_ids(list: Seq<Container>) -> Seq<Seq<char>>
    decreases list.len(),
{
    if list.len() == 0 {
        Seq::empty()
    } else if list.last().state == ContainerState::Running {
        running_ids(list.drop_last()).push(list.last().id@)
    } else {
        running_ids(list.drop_last())
    }
}

/// What a host's container list amounts to.
#[derive(Debug)]
pub struct InitialListing {
    /// The containers of the host, in the order of the list
    pub containers: Vec<Container>,
    /// The full and the short IDs of the containers, whose restart counts the
    /// list does not tell
    pub pending_restart_counts: Vec<(String, String)>,
    /// The short IDs of the containers whose statistics are to be followed
    pub monitored: Vec<String>,
}

impl DockerHost {
    /// The filters for listing containers, if the user set any.
    pub fn list_filters(&self) -> (r: Option<&TextMap<Vec<String>>>)
        ensures
            r == if self.filters.entries@.len() == 0 {
                None
            } else {
                Some(&self.filters)
            },
    {
        if self.filters.len() == 0 {
            None
        } else {
            Some(&self.filters)
        }
    }

    /// The container that an entry of this host's list describes.
    fn listed_container(&self, entry: &ContainerSummary) -> (r: Container)
        requires
            entry.wf(),
        ensures
            entry.describes(*self, r),
    {
        let id = match &entry.id {
            Some(id) => short_id(id.as_str()).to_owned(),
            None => String::new(),
        };
        let labels = match &entry.labels {
            Some(labels) => Some(labels),
            None => None,
        };
        let docker_name = match &entry.names {
            Some(names) => if names.len() > 0 {
                names[0].clone()
            } else {
                String::new()
            },
            None => String::new(),
        };
        let (name, compose_project) = display_metadata(docker_name.as_str(), labels);
        let created = match entry.created {
            Some(secs) => from_unix_seconds(secs),
            None => None,
        };
        Container {
            id,
            name,
            state: read_state(&entry.state),
            health: read_health(&entry.status),
            created,
            stats: ContainerStats::default(),
            host_id: self.host_id.clone(),
            dozzle_url: copy_text(&self.dozzle_url),
            restart_count: None,
            compose_project,
            image: copy_text(&entry.image),
        }
    }

    /// What this host's container list amounts to. Entries without an ID are
    /// skipped; only running containers are monitored.
    pub fn initial_containers(&self, list: &Vec<ContainerSummary>) -> (r: InitialListing)
        requires
            forall|i: int| 0 <= i < list@.len() ==> (#[trigger] list@[i]).wf(),
        ensures
            r.containers@.len() == identified(list@).len(),
            r.pending_restart_counts@.len() == identified(list@).len(),
            forall|i: int|
                0 <= i < r.containers@.len() ==> {
                    &&& identified(list@)[i].describes(*self, #[trigger] r.containers@[i])
                    &&& r.pending_restart_counts@[i].0@ == identified(list@)[i].full_id()
                    &&& r.pending_restart_counts@[i].1@ == r.containers@[i].id@
                },
            text::texts_of(r.monitored@) == running_ids(r.containers@),
    {
        let mut containers: Vec<Container> = Vec::new();
        let mut pending: Vec<(String, String)> = Vec::new();
        let mut monitored: Vec<String> = Vec::new();
        let mut i: usize = 0;
        proof {
            assert(text::texts_of(monitored@) =~= running_ids(containers@));
        }
        while i < list.len()
            invariant
                forall|k: int| 0 <= k < list@.len() ==> (#[trigger] list@[k]).wf(),
                i <= list@.len(),
                containers@.len() == identified(list@.take(i as int)).len(),
                pending@.len() == containers@.len(),
                forall|k: int|
                    0 <= k < containers@.len() ==> {
                        &&& identified(list@.take(i as int))[k].describes(
                            *self,
                            #[trigger] containers@[k],
                        )
                        &&& pending@[k].0@ == identified(list@.take(i as int))[k].full_id()
                        &&& pending@[k].1@ == containers@[k].id@
                    },
                text::texts_of(monitored@) == running_ids(containers@),
            decreases list@.len() - i,
        {
            let entry = &list[i];
            assert(list@.take(i + 1).drop_last() == list@.take(i as int));
            assert(list@.take(i + 1).last() == *entry);
            let full_id = match &entry.id {
                Some(id) => id.clone(),
                None => String::new(),
            };
            if full_id.as_str().unicode_len() > 0 {
                let container = self.listed_container(entry);
                pending.push((full_id, container.id.clone()));
                let ghost before = containers@;
                let ghost ids = monitored@;
                if container.state == ContainerState::Running {
                    monitored.push(container.id.clone());
                }
                containers.push(container);
                proof {
                    assert(containers@.drop_last() == before);
                    assert(text::texts_of(monitored@) =~= running_ids(containers@));
                }
            }
            i = i + 1;
        }
        assert(list@.take(i as int) == list@);
        InitialListing { containers, pending_restart_counts: pending, monitored }
    }

    /// The event that hands a host's containers over. An empty list is handed
    /// over too, so that listing anew after a reconnect clears out stale
    /// containers.
    pub fn list_event(&self, containers: Vec<Container>) -> (r: AppEvent)
        ensures
            r == AppEvent::InitialContainerList(self.host_id, containers),
    {
        AppEvent::InitialContainerList(self.host_id.clone(), containers)
    }

    /// The event that tells how often a container was restarted, if inspecting it
    /// told.
    pub fn restart_count_event(&self, truncated_id: String, restart_count: Option<i64>) -> (r: Option<
        AppEvent,
    >)
        ensures
            match restart_count {
                Some(n) => r matches Some(AppEvent::ContainerRestartCount(key, m)) && m == n && key@
                    == (self.host_id@, truncated_id@),
                None => r is None,
            },
    {
        match restart_count {
            Some(n) => {
                let key = ContainerKey::new(self.host_id.clone(), truncated_id);
                Some(AppEvent::ContainerRestartCount(key, n))
            },
            None => None,
        }
    }
}

/// The IDs of the running containers are those of the containers that run, and
/// no others.
pub proof fn law_exactly_the_running_are_monitored(list: Seq<Container>)
    ensures
        forall|i: int|
            0 <= i < list.len() && (#[trigger] list[i]).state == ContainerState::Running
                ==> running_ids(list).contains(list[i].id@),
        forall|k: int|
            0 <= k < running_ids(list).len() ==> exists|i: int|
                {
                    &&& 0 <= i < list.len()
                    &&& (#[trigger] list[i]).state == ContainerState::Running
                    &&& list[i].id@ == #[trigger] running_ids(list)[k]
                },
    decreases list.len(),
{
    if list.len() > 0 {
        let rest = list.drop_last();
        let ids = running_ids(rest);
        law_exactly_the_running_are_monitored(rest);
        assert forall|i: int|
            0 <= i < list.len() && (#[trigger] list[i]).state
                == ContainerState::Running implies running_ids(list).contains(list[i].id@) by {
            if i < rest.len() {
                assert(rest[i] == list[i]);
                let k = ids.index_of(list[i].id@);
                assert(running_ids(list)[k] == ids[k]);
            } else {
                assert(running_ids(list)[ids.len() as int] == list[i].id@);
            }
        }
        assert forall|k: int| 0 <= k < running_ids(list).len() implies exists|i: int|
            {
                &&& 0 <= i < list.len()
                &&& (#[trigger] list[i]).state == ContainerState::Running
                &&& list[i].id@ == #[trigger] running_ids(list)[k]
            } by {
            if k < ids.len() {
                assert(running_ids(list)[k] == ids[k]);
                let i = choose|i: int|
                    {
                        &&& 0 <= i < rest.len()
                        &&& (#[trigger] rest[i]).state == ContainerState::Running
                        &&& rest[i].id@ == ids[k]
                    };
                assert(list[i] == rest[i]);
            } else {
                assert(list[list.len() - 1].id@ == running_ids(list)[k]);
            }
        }
    }
}

/// The short ID has exactly the first twelve characters of the ID, as far as there
/// are so many.
pub proof fn law_short_ids_have_twelve_characters(front: Seq<char>, back: Seq<char>)
    ensures
        front.len() == 12 ==> short(front + back) == front,
        front.len() <= 12 ==> short(front) == front,
{
    if front.len() == 12 {
        assert((front + back).take(12) =~= front);
        if back.len() == 0 {
            assert(front + back =~= front);
        }
    }
}

/// A listed container is in the state whose name the list gives, whatever its
/// case. A word that names no state, or none at all, leaves the state unknown.
pub proof fn law_listed_state_is_read_by_name(
    entry: ContainerSummary,
    host: DockerHost,
    c: Container,
    state: ContainerState,
    word: String,
)
    requires
        entry.describes(host, c),
    ensures
        entry.state == Some(word) && text::same_letters(word@, state.name_text()) ==> c.state
            == state,
        entry.state is None ==> c.state == ContainerState::Unknown,
        entry.state == Some(word) && outside::lowercase(word@) != "running"@ && outside::lowercase(
            word@,
        ) != "paused"@ && outside::lowercase(word@) != "restarting"@ && outside::lowercase(word@)
            != "removing"@ && outside::lowercase(word@) != "exited"@ && outside::lowercase(word@)
            != "dead"@ && outside::lowercase(word@) != "created"@ ==> c.state
            == ContainerState::Unknown,
{
    if entry.state == Some(word) && text::same_letters(word@, state.name_text()) {
        containers::law_state_name_reads_back(state, word@);
    }
}

/// What a text says of the health: unhealthy where it says so, else healthy where
/// it says that, else starting, and nothing where it says none of these.
pub proof fn law_health_is_read_by_words(status: String)
    ensures
        ({
            let said = outside::lowercase(status@);
            let read = reported_health(Some(status));
            let says = |word: Seq<char>| exists|before: Seq<char>, after: Seq<char>|
                said == #[trigger] before.add(word).add(after);
            &&& says("unhealthy"@) ==> read == Some(HealthStatus::Unhealthy)
            &&& says("healthy"@) && !says("unhealthy"@) ==> read == Some(HealthStatus::Healthy)
            &&& says("starting"@) && !says("healthy"@) ==> read == Some(HealthStatus::Starting)
            &&& !says("starting"@) && !says("healthy"@) ==> read is None
        }),
        reported_health(None) is None,
{
    let said = outside::lowercase(status@);
    text::law_occurs_is_containment(said, "unhealthy"@);
    text::law_occurs_is_containment(said, "healthy"@);
    text::law_occurs_is_containment(said, "starting"@);
    containers::law_health_is_told_by_words(said);
}

/// What a list says of a container goes to its place in the container: the short
/// ID, the time in whole seconds where a date can hold it, the host and its Dozzle
/// URL, and the image. A listed container has no statistics and no restart count.
pub proof fn law_listed_containers_hold_what_the_list_says(
    entry: ContainerSummary,
    host: DockerHost,
    c: Container,
    id: String,
    labels: Labels,
    names: Vec<String>,
)
    requires
        entry.describes(host, c),
    ensures
        entry.labels == Some(labels) && entry.names == Some(names) && names@.len() > 0 ==> c.name@
            == shown_name(names@[0]@, Some(&labels)),
        entry.labels is None && entry.names == Some(names) && names@.len() > 0 ==> c.name@
            == shown_name(names@[0]@, None),
        entry.labels == Some(labels) && entry.names is None ==> c.name@ == shown_name(
            Seq::empty(),
            Some(&labels),
        ),
        entry.labels == Some(labels) ==> text::text_of(c.compose_project) == shown_project(
            Some(&labels),
        ),
        entry.labels is None ==> c.compose_project is None,
        entry.id == Some(id) && id@.len() >= 12 ==> c.id@ == id@.take(12),
        entry.id == Some(id) && id@.len() < 12 ==> c.id@ == id@,
        c.health == reported_health(entry.status),
        c.created matches Some(t) ==> entry.created == Some(t.secs) && t.nanos == 0,
        entry.created matches Some(secs) && outside::MIN_UNIX_SECOND <= secs
            <= outside::MAX_UNIX_SECOND ==> c.created is Some,
        c.host_id@ == host.host_id@,
        text::text_of(c.dozzle_url) == text::text_of(host.dozzle_url),
        text::text_of(c.image) == text::text_of(entry.image),
        c.restart_count is None,
        c.stats.cpu.bits == 0 && c.stats.memory.bits == 0 && c.stats.pids_current == 0,
        c.stats.network_tx_bytes_per_sec.bits == 0 && c.stats.network_rx_bytes_per_sec.bits == 0,
        c.stats.disk_read_bytes_per_sec.bits == 0 && c.stats.disk_write_bytes_per_sec.bits == 0,
        c.stats.memory_used_bytes == 0 && c.stats.memory_limit_bytes == 0 && c.stats.pids_limit
            == 0,
{
    assert(id@.take(id@.len() as int) =~= id@);
}

/// A container that was inspected when it started runs, and has the health, the
/// restart count and the image that inspecting it told.
pub proof fn law_started_containers_hold_what_inspecting_says(
    details: ContainerDetails,
    host: DockerHost,
    container_id: Seq<char>,
    created: Option<Timestamp>,
    c: Container,
    labels: Labels,
    name: String,
)
    requires
        details.describes(host, container_id, created, c),
    ensures
        details.labels == Some(labels) && details.name == Some(name) ==> c.name@ == shown_name(
            name@,
            Some(&labels),
        ),
        details.labels is None && details.name == Some(name) ==> c.name@ == shown_name(
            name@,
            None,
        ),
        details.labels == Some(labels) && details.name is None ==> c.name@ == shown_name(
            Seq::empty(),
            Some(&labels),
        ),
        details.labels == Some(labels) ==> text::text_of(c.compose_project) == shown_project(
            Some(&labels),
        ),
        details.labels is None ==> c.compose_project is None,
        container_id.len() >= 12 ==> c.id@ == container_id.take(12),
        container_id.len() < 12 ==> c.id@ == container_id,
        c.state == ContainerState::Running,
        c.health == reported_health(details.health),
        c.created == created,
        c.host_id@ == host.host_id@,
        text::text_of(c.dozzle_url) == text::text_of(host.dozzle_url),
        text::text_of(c.image) == text::text_of(details.image),
        c.restart_count == details.restart_count,
        c.stats.cpu.bits == 0 && c.stats.memory.bits == 0 && c.stats.pids_current == 0,
        c.stats.network_tx_bytes_per_sec.bits == 0 && c.stats.network_rx_bytes_per_sec.bits == 0,
        c.stats.disk_read_bytes_per_sec.bits == 0 && c.stats.disk_write_bytes_per_sec.bits == 0,
        c.stats.memory_used_bytes == 0 && c.stats.memory_limit_bytes == 0 && c.stats.pids_limit
            == 0,
{
    assert(container_id.take(container_id.len() as int) =~= container_id);
}

/// A container is shown under the name that Dozzle's label gives it, else under
/// Coolify's, else under its own name without the slashes in front. A label that is
/// blank counts as none.
pub proof fn law_names_go_by_labels(labels: Labels, slashes: Seq<char>, name: Seq<char>)
    requires
        forall|i: int| 0 <= i < slashes.len() ==> #[trigger] slashes[i] == '/',
        name.len() > 0 ==> name[0] != '/',
    ensures
        ({
            let set = |key: Seq<char>| labels@.contains_key(key) && !text::blank(labels@[key]@);
            let shown = shown_name(slashes + name, Some(&labels));
            &&& set("dev.dozzle.name"@) ==> shown == labels@["dev.dozzle.name"@]@
            &&& !set("dev.dozzle.name"@) && set("coolify.serviceName"@) ==> shown
                == labels@["coolify.serviceName"@]@
            &&& !set("dev.dozzle.name"@) && !set("coolify.serviceName"@) ==> shown == name
        }),
        shown_name(slashes + name, None) == name,
{
    let all = slashes + name;
    let rest = text::without_leading(all, '/');
    text::law_leading_run_is_taken_away(all, '/');
    let n = all.len() - rest.len();
    assert(n == slashes.len()) by {
        if n < slashes.len() {
            assert(all[n] == slashes[n]);
            assert(rest[0] == all[n]);
        }
        if n > slashes.len() {
            assert(all[slashes.len() as int] == name[0]);
        }
    }
    assert(rest =~= name);
}

/// A container belongs to the project that Dozzle's label gives it, else to
/// Coolify's, else to that of Docker Compose. A label that is blank counts as none.
pub proof fn law_projects_go_by_labels(labels: Labels)
    ensures
        ({
            let set = |key: Seq<char>| labels@.contains_key(key) && !text::blank(labels@[key]@);
            let shown = shown_project(Some(&labels));
            &&& set("dev.dozzle.group"@) ==> shown == Some(labels@["dev.dozzle.group"@]@)
            &&& !set("dev.dozzle.group"@) && set("coolify.projectName"@) ==> shown == Some(
                labels@["coolify.projectName"@]@,
            )
            &&& !set("dev.dozzle.group"@) && !set("coolify.projectName"@) && set(
                "com.docker.compose.project"@,
            ) ==> shown == Some(labels@["com.docker.compose.project"@]@)
            &&& !set("dev.dozzle.group"@) && !set("coolify.projectName"@) && !set(
                "com.docker.compose.project"@,
            ) ==> shown is None
        }),
        shown_project(None) is None,
{
}

/// Of a list in two parts the entries with an ID are those of the first and then
/// those of the second; an entry has one where its ID is there and not empty.
pub proof fn law_entries_with_an_id_are_kept(
    first: Seq<ContainerSummary>,
    second: Seq<ContainerSummary>,
    entry: ContainerSummary,
)
    ensures
        identified(first + second) == identified(first) + identified(second),
        (entry.id matches Some(id) && id@.len() > 0) ==> identified(seq![entry]) == seq![entry],
        !(entry.id matches Some(id) && id@.len() > 0) ==> identified(seq![entry]).len() == 0,
    decreases second.len(),
{
    assert(seq![entry].drop_last() =~= Seq::<ContainerSummary>::empty());
    reveal_with_fuel(identified, 2);
    assert(identified(seq![entry]) =~= if entry.full_id().len() == 0 {
        Seq::empty()
    } else {
        seq![entry]
    });
    if second.len() == 0 {
        assert(first + second =~= first);
        assert(identified(first) + identified(second) =~= identified(first));
    } else {
        let rest = second.drop_last();
        law_entries_with_an_id_are_kept(first, rest, entry);
        assert((first + second).drop_last() =~= first + rest);
        assert(identified(first + second) =~= identified(first) + identified(second));
    }
}

/// The running among two lists of containers are those of the first and then those
/// of the second, each by its ID.
pub proof fn law_running_containers_in_order(
    first: Seq<Container>,
    second: Seq<Container>,
    c: Container,
)
    ensures
        running_ids(first + second) == running_ids(first) + running_ids(second),
        c.state == ContainerState::Running ==> running_ids(seq![c]) == seq![c.id@],
        c.state != ContainerState::Running ==> running_ids(seq![c]).len() == 0,
    decreases second.len(),
{
    assert(seq![c].drop_last() =~= Seq::<Container>::empty());
    reveal_with_fuel(running_ids, 2);
    assert(running_ids(seq![c]) =~= if c.state == ContainerState::Running {
        seq![c.id@]
    } else {
        Seq::empty()
    });
    if second.len() == 0 {
        assert(first + second =~= first);
        assert(running_ids(first) + running_ids(second) =~= running_ids(first));
    } else {
        let rest = second.drop_last();
        law_running_containers_in_order(first, rest, c);
        assert((first + second).drop_last() =~= first + rest);
        assert(running_ids(first + second) =~= running_ids(first) + running_ids(second));
    }
}

/// The time that a text in RFC 3339 denotes is taken as it is, and a text that
/// denotes none gives none.
pub proof fn law_written_times_are_read(s: String, secs: i64, nanos: u32)
    ensures
        outside::rfc3339_instant(s@) == Some((secs, nanos)) <==> rfc3339_time(Some(s)) == Some(
            Timestamp { secs, nanos },
        ),
        outside::rfc3339_instant(s@) is None <==> rfc3339_time(Some(s)) is None,
        rfc3339_time(None) is None,
{
}

} // verus!
