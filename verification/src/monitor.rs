//! Following a Docker daemon: which events to ask for, what an event means, and
//! which stats task belongs to which container.
use crate::assoc::{AssocMap, TextMap};
use crate::containers::{
    copy_text, Container, ContainerKey, ContainerState, ContainerStats, HealthStatus,
};
use crate::containers;
use crate::docker;
use crate::docker::{display_metadata, read_health, short_id, ContainerDetails, DockerHost, Labels};
use crate::events::AppEvent;
use crate::outside;
use crate::outside::{parse_rfc3339, Timestamp};
use crate::text;
use crate::text::{same_text, starts_with};
use vstd::prelude::*;
use vstd::string::*;

verus! {

/// What becomes of a filter of the user's when events are asked for.
#[derive(Clone, Copy, Debug, PartialEq, Eq, Structural)]
pub enum FilterUse {
    /// The filter works for events as it is.
    Direct,
    /// The filter names containers, which events know by another filter.
    Container,
    /// The filter is not supported for events. It only applies to container
    /// listing.
    ListOnly,
}

/// What becomes of a filter when events are asked for.
pub open spec fn filter_use(key: Seq<char>) -> FilterUse {
    if key == "container"@ || key == "label"@ || key == "image"@ || key == "network"@ || key
        == "volume"@ || key == "daemon"@ || key == "scope"@ || key == "node"@ || key == "service"@
        || key == "secret"@ || key == "config"@ || key == "plugin"@ {
        FilterUse::Direct
    } else if key == "id"@ || key == "name"@ {
        FilterUse::Container
    } else {
        FilterUse::ListOnly
    }
}

/// What becomes of a filter when events are asked for.
pub fn event_filter_use(key: &str) -> (r: FilterUse)
    ensures
        r == filter_use(key@),
{
    if same_text(key, "container") || same_text(key, "label") || same_text(key, "image")
        || same_text(key, "network") || same_text(key, "volume") || same_text(key, "daemon")
        || same_text(key, "scope") || same_text(key, "node") || same_text(key, "service")
        || same_text(key, "secret") || same_text(key, "config") || same_text(key, "plugin") {
        FilterUse::Direct
    } else if same_text(key, "id") || same_text(key, "name") {
        FilterUse::Container
    } else {
        FilterUse::ListOnly
    }
}

/// The values of filters, by the filters' keys.
pub type FilterTexts = Map<Seq<char>, Seq<Seq<char>>>;

/// The filters with their values as texts.
pub open spec fn filter_texts(filters: Map<Seq<char>, Vec<String>>) -> FilterTexts {
    filters.map_values(|values: Vec<String>| text::texts_of(values@))
}

/// The filters that every request for events has: containers only, and the kinds
/// of events that matter here.
pub open spec fn base_filters() -> FilterTexts {
    Map::<Seq<char>, Seq<Seq<char>>>::empty().insert("type"@, seq!["container"@]).insert(
        "event"@,
        seq!["start"@, "die"@, "stop"@, "destroy"@, "health_status"@],
    )
}

/// The filters after one more of the user's has been merged in: it takes its
/// place where events support it, or its values are added to the containers to
/// look for.
pub open spec fn merged(filters: FilterTexts, key: Seq<char>, values: Seq<Seq<char>>) -> FilterTexts {
    match filter_use(key) {
        FilterUse::Direct => filters.insert(key, values),
        FilterUse::Container => filters.insert(
            "container"@,
            if filters.contains_key("container"@) {
                filters["container"@] + values
            } else {
                values
            },
        ),
        FilterUse::ListOnly => filters,
    }
}

/// The filters for events: the base and the user's, merged in one by one.
pub open spec fn event_filter_texts(entries: Seq<(String, Vec<String>)>) -> FilterTexts
    decreases entries.len(),
{
    if entries.len() == 0 {
        base_filters()
    } else {
        merged(
            event_filter_texts(entries.drop_last()),
            entries.last().0@,
            text::texts_of(entries.last().1@),
        )
    }
}

/// Merges one of the user's filters into those for events.
fn merge_filter(filters: &mut TextMap<Vec<String>>, key: &String, values: &Vec<String>)
    requires
        old(filters).wf(),
    ensures
        final(filters).wf(),
        filter_texts(final(filters)@) == merged(
            filter_texts(old(filters)@),
            key@,
            text::texts_of(values@),
        ),
{
    let ghost before = filters@;
    match event_filter_use(key.as_str()) {
        FilterUse::Direct => {
            let copy = values.clone();
            assert(copy@ =~= values@);
            let _ = filters.insert(key.clone(), copy);
            assert(filter_texts(filters@) =~= filter_texts(before).insert(
                key@,
                text::texts_of(values@),
            ));
        },
        FilterUse::Container => {
            let name = "container".to_owned();
            let mut all: Vec<String> = match filters.remove(&name) {
                Some(found) => found,
                None => Vec::new(),
            };
            let ghost found = all@;
            let mut i: usize = 0;
            while i < values.len()
                invariant
                    i <= values@.len(),
                    all@ == found + values@.take(i as int),
                decreases values@.len() - i,
            {
                all.push(values[i].clone());
                assert(values@.take(i + 1) == values@.take(i as int).push(values@[i as int]));
                i = i + 1;
            }
            assert(values@.take(i as int) == values@);
            let ghost texts = text::texts_of(all@);
            assert(texts =~= text::texts_of(found) + text::texts_of(values@));
            assert(!before.contains_key(name@) ==> texts =~= text::texts_of(values@));
            let _ = filters.insert(name, all);
            assert(filter_texts(filters@) =~= filter_texts(before).insert("container"@, texts));
        },
        FilterUse::ListOnly => {},
    }
}

/// A list of one or more texts.
fn owned(texts: &[&str]) -> (r: Vec<String>)
    ensures
        r@.len() == texts@.len(),
        forall|i: int| 0 <= i < r@.len() ==> (#[trigger] r@[i])@ == texts@[i]@,
{
    let mut r: Vec<String> = Vec::new();
    let mut i: usize = 0;
    while i < texts.len()
        invariant
            i <= texts@.len(),
            r@.len() == i,
            forall|j: int| 0 <= j < i ==> (#[trigger] r@[j])@ == texts@[j]@,
        decreases texts@.len() - i,
    {
        r.push(texts[i].to_owned());
        i = i + 1;
    }
    r
}

impl DockerHost {
    /// The filters for the events that this host is asked for.
    pub fn event_filters(&self) -> (r: TextMap<Vec<String>>)
        ensures
            r.wf(),
            filter_texts(r@) == event_filter_texts(self.filters.entries@),
    {
        let mut filters: TextMap<Vec<String>> = AssocMap::new();
        let types = owned(&["container"]);
        let kinds = owned(&["start", "die", "stop", "destroy", "health_status"]);
        proof {
            assert(text::texts_of(types@) =~= seq!["container"@]);
            assert(text::texts_of(kinds@) =~= seq![
                "start"@,
                "die"@,
                "stop"@,
                "destroy"@,
                "health_status"@,
            ]);
        }
        let _ = filters.insert("type".to_owned(), types);
        let _ = filters.insert("event".to_owned(), kinds);
        assert(filter_texts(filters@) =~= base_filters());
        let ghost entries = self.filters.entries@;
        let mut i: usize = 0;
        while i < self.filters.entries.len()
            invariant
                entries == self.filters.entries@,
                i <= entries.len(),
                filters.wf(),
                filter_texts(filters@) == event_filter_texts(entries.take(i as int)),
            decreases entries.len() - i,
        {
            merge_filter(&mut filters, &self.filters.entries[i].0, &self.filters.entries[i].1);
            assert(entries.take(i + 1).drop_last() == entries.take(i as int));
            i = i + 1;
        }
        assert(entries.take(i as int) == entries);
        filters
    }
}

/// The keys of the base filters are none that a user's filter can touch.
proof fn lemma_base_keys_are_apart()
    ensures
        filter_use("type"@) == FilterUse::ListOnly,
        filter_use("event"@) == FilterUse::ListOnly,
        filter_use("container"@) == FilterUse::Direct,
        "type"@ != "event"@,
        "type"@ != "container"@,
        "event"@ != "container"@,
{
    reveal_strlit("type");
    reveal_strlit("event");
    reveal_strlit("container");
    reveal_strlit("label");
    reveal_strlit("image");
    reveal_strlit("network");
    reveal_strlit("volume");
    reveal_strlit("daemon");
    reveal_strlit("scope");
    reveal_strlit("node");
    reveal_strlit("service");
    reveal_strlit("secret");
    reveal_strlit("config");
    reveal_strlit("plugin");
    reveal_strlit("id");
    reveal_strlit("name");
    assert("type"@[0] == 't' && "event"@[0] == 'e');
    assert("label"@[0] == 'l' && "image"@[0] == 'i' && "scope"@[0] == 's');
    assert("node"@[0] == 'n' && "name"@[0] == 'n');
}

/// Whatever the user's filters are, events are asked for containers only and for
/// the kinds that matter here only.
pub proof fn law_base_filters_stay(entries: Seq<(String, Vec<String>)>)
    ensures
        event_filter_texts(entries).contains_key("type"@),
        event_filter_texts(entries)["type"@] == seq!["container"@],
        event_filter_texts(entries).contains_key("event"@),
        event_filter_texts(entries)["event"@] == seq![
            "start"@,
            "die"@,
            "stop"@,
            "destroy"@,
            "health_status"@,
        ],
    decreases entries.len(),
{
    lemma_base_keys_are_apart();
    if entries.len() > 0 {
        law_base_filters_stay(entries.drop_last());
    }
}

/// A filter that works for events is used with its own values; one for
/// containers, whether under its own name or by ID or name, has all of its values
/// looked for. The exception are filters by ID or name beside one for containers,
/// which takes the place of those before it.
pub proof fn law_user_filters_take_effect(filters: TextMap<Vec<String>>, i: int)
    requires
        filters.wf(),
        0 <= i < filters.entries@.len(),
    ensures
        ({
            let key = filters.entries@[i].0@;
            let values = text::texts_of(filters.entries@[i].1@);
            let texts = event_filter_texts(filters.entries@);
            &&& filter_use(key) == FilterUse::Direct && key != "container"@ ==> {
                &&& texts.contains_key(key)
                &&& texts[key] == values
            }
            &&& key == "container"@ || (filter_use(key) == FilterUse::Container
                && !filters@.contains_key("container"@)) ==> {
                &&& texts.contains_key("container"@)
                &&& forall|v: Seq<char>| #[trigger]
                    values.contains(v) ==> texts["container"@].contains(v)
            }
        }),
{
    lemma_filters_take_effect(filters.entries@, i);
    assert forall|j: int| 0 <= j < filters.entries@.len() && j != i implies (
    #[trigger] filters.entries@[j]).0@ != filters.entries@[i].0@ by {
        assert(filters.keys()[j] != filters.keys()[i]);
    }
    if !filters@.contains_key("container"@) {
        assert forall|j: int| 0 <= j < filters.entries@.len() implies (
        #[trigger] filters.entries@[j]).0@ != "container"@ by {
            filters.lemma_entry(j);
        }
    }
}

/// What a list of filters makes of its entry `i`.
proof fn lemma_filters_take_effect(entries: Seq<(String, Vec<String>)>, i: int)
    requires
        0 <= i < entries.len(),
    ensures
        ({
            let key = entries[i].0@;
            let values = text::texts_of(entries[i].1@);
            let texts = event_filter_texts(entries);
            let once = forall|j: int|
                0 <= j < entries.len() && j != i ==> (#[trigger] entries[j]).0@ != key;
            let by_id_only = forall|j: int|
                0 <= j < entries.len() ==> (#[trigger] entries[j]).0@ != "container"@;
            &&& once && filter_use(key) == FilterUse::Direct && key != "container"@ ==> {
                &&& texts.contains_key(key)
                &&& texts[key] == values
            }
            &&& (once && key == "container"@) || (by_id_only && filter_use(key)
                == FilterUse::Container) ==> {
                &&& texts.contains_key("container"@)
                &&& forall|v: Seq<char>| #[trigger]
                    values.contains(v) ==> texts["container"@].contains(v)
            }
        }),
    decreases entries.len(),
{
    lemma_base_keys_are_apart();
    let rest = entries.drop_last();
    let before = event_filter_texts(rest);
    let last = entries.last();
    let key = entries[i].0@;
    let values = text::texts_of(entries[i].1@);
    let texts = event_filter_texts(entries);
    if i < entries.len() - 1 {
        lemma_filters_take_effect(rest, i);
        assert(rest[i] == entries[i]);
        assert forall|j: int| 0 <= j < rest.len() implies #[trigger] rest[j] == entries[j] by {}
        assert(entries[entries.len() - 1] == last);
        if before.contains_key("container"@) {
            let more = before["container"@] + text::texts_of(last.1@);
            assert forall|v: Seq<char>| before["container"@].contains(v) implies more.contains(
                v,
            ) by {
                let k = before["container"@].index_of(v);
                assert(more[k] == v);
            }
        }
    } else if before.contains_key("container"@) {
        let more = before["container"@] + values;
        assert forall|v: Seq<char>| values.contains(v) implies more.contains(v) by {
            let k = values.index_of(v);
            assert(more[before["container"@].len() + k] == v);
        }
    }
}

/// Whom an event of the daemon is about.
#[derive(Debug)]
pub struct EventActor {
    pub id: Option<String>,
    pub attributes: Option<Labels>,
}

/// An event of the daemon.
#[derive(Debug)]
pub struct DaemonEvent {
    pub actor: Option<EventActor>,
    pub action: Option<String>,
}

/// What an event of the daemon means for a container.
#[derive(Clone, Copy, Debug, PartialEq, Eq, Structural)]
pub enum ContainerEvent {
    Start,
    Stop,
    Destroy,
    Health,
}

/// The event that an action stands for. Docker appends the new status to the
/// action that tells of a container's health.
pub open spec fn event_named(action: Seq<char>) -> Option<ContainerEvent> {
    if action == "start"@ {
        Some(ContainerEvent::Start)
    } else if action == "die"@ || action == "stop"@ {
        Some(ContainerEvent::Stop)
    } else if action == "destroy"@ {
        Some(ContainerEvent::Destroy)
    } else if text::begins_with(action, "health_status"@) {
        Some(ContainerEvent::Health)
    } else {
        None
    }
}

impl DaemonEvent {
    /// The ID of the container that the event is about; empty where there is
    /// none.
    pub open spec fn container_id(self) -> Seq<char> {
        match self.actor {
            Some(actor) => docker::or_empty(actor.id),
            None => Seq::empty(),
        }
    }

    /// What the event means, if it is about a container and of a kind that
    /// matters here.
    pub open spec fn meaning(self) -> Option<ContainerEvent> {
        if self.container_id().len() == 0 {
            None
        } else {
            event_named(docker::or_empty(self.action))
        }
    }

    /// What the event means and the ID of the container that it is about.
    pub fn container_event(&self) -> (r: Option<(ContainerEvent, String)>)
        ensures
            match r {
                Some((event, id)) => self.meaning() == Some(event) && id@ == self.container_id(),
                None => self.meaning() is None,
            },
    {
        let id = match &self.actor {
            Some(actor) => match &actor.id {
                Some(id) => id.clone(),
                None => String::new(),
            },
            None => String::new(),
        };
        if id.as_str().unicode_len() == 0 {
            return None;
        }
        let action = match &self.action {
            Some(action) => action.clone(),
            None => String::new(),
        };
        let action = action.as_str();
        if same_text(action, "start") {
            Some((ContainerEvent::Start, id))
        } else if same_text(action, "die") || same_text(action, "stop") {
            Some((ContainerEvent::Stop, id))
        } else if same_text(action, "destroy") {
            Some((ContainerEvent::Destroy, id))
        } else if starts_with(action, "health_status") {
            Some((ContainerEvent::Health, id))
        } else {
            None
        }
    }
}

/// The health that an event tells: in its action, or else in an attribute of its
/// actor.
pub open spec fn told_health(action: Seq<char>, attributes: Option<&Labels>) -> Option<
    HealthStatus,
> {
    match containers::health_in(outside::lowercase(action)) {
        Some(health) => Some(health),
        None => match attributes {
            Some(m) => if m@.contains_key("health_status"@) {
                containers::health_in(outside::lowercase(m@["health_status"@]@))
            } else if m@.contains_key("HealthStatus"@) {
                containers::health_in(outside::lowercase(m@["HealthStatus"@]@))
            } else {
                None
            },
            None => None,
        },
    }
}

/// What is to be done about an event that tells of a container's health.
#[derive(Debug)]
pub enum HealthStep {
    /// Hand the event on.
    Report(AppEvent),
    /// The event does not tell the health: inspect the container.
    Inspect,
}

/// What a stats task of a container that is monitored anew displaces.
pub open spec fn displaced<H>(tasks: Map<Seq<char>, H>, id: Seq<char>) -> Option<H> {
    if tasks.contains_key(id) {
        Some(tasks[id])
    } else {
        None
    }
}

impl DockerHost {
    /// The key of a container of this host.
    pub open spec fn key_of(self, container_id: Seq<char>) -> (Seq<char>, Seq<char>) {
        (self.host_id@, docker::short(container_id))
    }

    /// The key of a container of this host.
    fn container_key(&self, container_id: &str) -> (r: ContainerKey)
        ensures
            r@ == self.key_of(container_id@),
    {
        ContainerKey::new(self.host_id.clone(), short_id(container_id).to_owned())
    }

    /// Records the stats task of a container and hands back the one that it
    /// displaces, which has to be aborted: it would go on streaming stats for the
    /// same container forever, with no handle left to stop it.
    pub fn start_container_monitoring<H>(
        truncated_id: &str,
        handle: H,
        active_containers: &mut TextMap<H>,
    ) -> (previous: Option<H>)
        requires
            old(active_containers).wf(),
        ensures
            final(active_containers).wf(),
            final(active_containers)@ == old(active_containers)@.insert(truncated_id@, handle),
            previous == displaced(old(active_containers)@, truncated_id@),
    {
        active_containers.insert(truncated_id.to_owned(), handle)
    }

    /// Whether a stats task for this container is still alive.
    ///
    /// A finished task leaves its handle behind — the map is only pruned by
    /// stop/die/destroy events — so `contains_key` alone would report a container
    /// as monitored long after its stats stream gave up, and nothing would ever
    /// re-arm it.
    pub fn is_monitored<H, F: Fn(&H) -> bool>(
        truncated_id: &str,
        active_containers: &TextMap<H>,
        is_finished: F,
    ) -> (r: bool)
        requires
            active_containers.wf(),
            forall|handle: &H| call_requires(is_finished, (handle,)),
        ensures
            if active_containers@.contains_key(truncated_id@) {
                call_ensures(is_finished, (&active_containers@[truncated_id@],), !r)
            } else {
                !r
            },
    {
        match active_containers.get_text(truncated_id) {
            Some(handle) => !is_finished(handle),
            None => false,
        }
    }

    /// The container that inspecting a container told of, right after it started,
    /// given when it was created.
    pub fn started_container(
        &self,
        container_id: &str,
        inspect: &ContainerDetails,
        created: Option<Timestamp>,
    ) -> (r: Container)
        requires
            inspect.wf(),
        ensures
            inspect.describes(*self, container_id@, created, r),
    {
        let labels = match &inspect.labels {
            Some(labels) => Some(labels),
            None => None,
        };
        let docker_name = match &inspect.name {
            Some(name) => name.clone(),
            None => String::new(),
        };
        let (name, compose_project) = display_metadata(docker_name.as_str(), labels);
        Container {
            id: short_id(container_id).to_owned(),
            name,
            // Inspecting can still report "restarting" right after the start.
            state: ContainerState::Running,
            health: read_health(&inspect.health),
            created,
            stats: ContainerStats::default(),
            host_id: self.host_id.clone(),
            dozzle_url: copy_text(&self.dozzle_url),
            restart_count: inspect.restart_count,
            compose_project,
            image: copy_text(&inspect.image),
        }
    }

    /// Handles a container start event, given what inspecting the container told
    /// and whether it is monitored. Returns the event to hand on and, for a
    /// container that is not monitored yet, the ID under which to monitor it.
    pub fn handle_container_start(
        &self,
        container_id: &str,
        inspect: Option<&ContainerDetails>,
        monitored: bool,
    ) -> (r: Option<(AppEvent, Option<String>)>)
        requires
            inspect matches Some(details) ==> details.wf(),
        ensures
            match inspect {
                Some(details) => if monitored {
                    &&& r matches Some((AppEvent::ContainerStateChanged(key, state), None))
                    &&& key@ == self.key_of(container_id@)
                    &&& state == ContainerState::Running
                } else {
                    &&& r matches Some((AppEvent::ContainerCreated(c), Some(id)))
                    &&& details.describes(
                        *self,
                        container_id@,
                        docker::rfc3339_time(details.created),
                        c,
                    )
                    &&& c.created matches Some(t) ==> t.valid()
                    &&& id@ == docker::short(container_id@)
                },
                None => r is None,
            },
    {
        match inspect {
            Some(details) => if monitored {
                // Already monitored: just update the state
                let key = self.container_key(container_id);
                Some((AppEvent::ContainerStateChanged(key, ContainerState::Running), None))
            } else {
                let created = match &details.created {
                    Some(s) => parse_rfc3339(s.as_str()),
                    None => None,
                };
                let container = self.started_container(container_id, details, created);
                let id = container.id.clone();
                Some((AppEvent::ContainerCreated(container), Some(id)))
            },
            None => None,
        }
    }

    /// Handles a container stop/die event. A container that is monitored stays in
    /// the list; its stats task is handed back to be aborted.
    pub fn handle_container_stop<H>(
        &self,
        container_id: &str,
        active_containers: &mut TextMap<H>,
    ) -> (r: Option<(H, AppEvent)>)
        requires
            old(active_containers).wf(),
        ensures
            final(active_containers).wf(),
            final(active_containers)@ == old(active_containers)@.remove(
                docker::short(container_id@),
            ),
            match displaced(old(active_containers)@, docker::short(container_id@)) {
                Some(task) => {
                    &&& r matches Some((handle, AppEvent::ContainerStateChanged(key, state)))
                    &&& handle == task
                    &&& key@ == self.key_of(container_id@)
                    &&& state == ContainerState::Exited
                },
                None => r is None,
            },
    {
        let id = short_id(container_id).to_owned();
        match active_containers.remove(&id) {
            Some(handle) => {
                let key = self.container_key(container_id);
                Some((handle, AppEvent::ContainerStateChanged(key, ContainerState::Exited)))
            },
            None => None,
        }
    }

    /// Handles a container destroy event (when container is actually removed).
    /// Its stats task, if there is one, is handed back to be aborted.
    pub fn handle_container_destroy<H>(
        &self,
        container_id: &str,
        active_containers: &mut TextMap<H>,
    ) -> (r: (Option<H>, AppEvent))
        requires
            old(active_containers).wf(),
        ensures
            final(active_containers).wf(),
            final(active_containers)@ == old(active_containers)@.remove(
                docker::short(container_id@),
            ),
            r.0 == displaced(old(active_containers)@, docker::short(container_id@)),
            r.1 matches AppEvent::ContainerDestroyed(key) && key@ == self.key_of(container_id@),
    {
        let id = short_id(container_id).to_owned();
        let handle = active_containers.remove(&id);
        (handle, AppEvent::ContainerDestroyed(self.container_key(container_id)))
    }

    /// Handles a health_status event. Docker emits actions like
    /// "health_status: healthy"; where neither the action nor the attributes tell
    /// the status, the container has to be inspected.
    pub fn handle_health_status_change(
        &self,
        container_id: &str,
        action: &str,
        attributes: Option<&Labels>,
    ) -> (r: HealthStep)
        requires
            docker::labels_wf(attributes),
        ensures
            match told_health(action@, attributes) {
                Some(told) => {
                    &&& r matches HealthStep::Report(AppEvent::ContainerHealthChanged(key, health))
                    &&& key@ == self.key_of(container_id@)
                    &&& health == told
                },
                None => r is Inspect,
            },
    {
        let health = match HealthStatus::parse(action) {
            Some(health) => Some(health),
            None => match attributes {
                Some(attributes) => match attributes.get_text("health_status") {
                    Some(status) => HealthStatus::parse(status.as_str()),
                    None => match attributes.get_text("HealthStatus") {
                        Some(status) => HealthStatus::parse(status.as_str()),
                        None => None,
                    },
                },
                None => None,
            },
        };
        match health {
            Some(health) => HealthStep::Report(
                AppEvent::ContainerHealthChanged(self.container_key(container_id), health),
            ),
            None => HealthStep::Inspect,
        }
    }

    /// The event that tells a container's health as inspecting it told, if it
    /// did.
    pub fn inspected_health_event(&self, container_id: &str, status: &Option<String>) -> (r: Option<
        AppEvent,
    >)
        ensures
            match docker::reported_health(*status) {
                Some(told) => {
                    &&& r matches Some(AppEvent::ContainerHealthChanged(key, health))
                    &&& key@ == self.key_of(container_id@)
                    &&& health == told
                },
                None => r is None,
            },
    {
        match read_health(status) {
            Some(health) => Some(
                AppEvent::ContainerHealthChanged(self.container_key(container_id), health),
            ),
            None => None,
        }
    }
}

/// Monitoring a container, whether anew or again, leaves every stats task either
/// recorded or handed back: none goes on without a handle to stop it.
pub proof fn law_no_stats_task_is_lost<H>(tasks: Map<Seq<char>, H>, id: Seq<char>, handle: H)
    ensures
        tasks.insert(id, handle)[id] == handle,
        forall|k: Seq<char>| #[trigger]
            tasks.contains_key(k) ==> (tasks.insert(id, handle).contains_key(k) && tasks.insert(
                id,
                handle,
            )[k] == tasks[k]) || displaced(tasks, id) == Some(tasks[k]),
        forall|k: Seq<char>| #[trigger]
            tasks.contains_key(k) ==> (tasks.remove(id).contains_key(k) && tasks.remove(id)[k]
                == tasks[k]) || displaced(tasks, id) == Some(tasks[k]),
{
}

/// Events of one container lead to one key, whether they give its full or its
/// short ID.
pub proof fn law_short_and_full_ids_share_a_key(host: DockerHost, container_id: Seq<char>)
    ensures
        host.key_of(docker::short(container_id)) == host.key_of(container_id),
{
    docker::law_short_ids(container_id);
}

/// What the action says of the health counts, whatever the attributes say: it is
/// unhealthy where the action says so, else healthy where it says that, else
/// starting.
pub proof fn law_action_tells_the_health(action: Seq<char>, attributes: Option<&Labels>)
    ensures
        ({
            let says = |word: Seq<char>| exists|before: Seq<char>, after: Seq<char>|
                outside::lowercase(action) == #[trigger] before.add(word).add(after);
            let told = told_health(action, attributes);
            &&& says("unhealthy"@) ==> told == Some(HealthStatus::Unhealthy)
            &&& says("healthy"@) && !says("unhealthy"@) ==> told == Some(HealthStatus::Healthy)
            &&& says("starting"@) && !says("healthy"@) ==> told == Some(HealthStatus::Starting)
        }),
{
    let said = outside::lowercase(action);
    text::law_occurs_is_containment(said, "unhealthy"@);
    text::law_occurs_is_containment(said, "healthy"@);
    text::law_occurs_is_containment(said, "starting"@);
    containers::law_health_is_told_by_words(said);
}

/// Where the action says nothing of the health, the attribute `health_status`
/// tells it, and where there is none, the attribute `HealthStatus`; without either
/// the event does not tell the health.
pub proof fn law_attributes_tell_the_health(action: Seq<char>, attributes: Labels, status: String)
    requires
        !text::occurs(outside::lowercase(action), "healthy"@),
        !text::occurs(outside::lowercase(action), "starting"@),
    ensures
        told_health(action, None) is None,
        !attributes@.contains_key("health_status"@) && !attributes@.contains_key("HealthStatus"@)
            ==> told_health(action, Some(&attributes)) is None,
        (attributes@.contains_key("health_status"@) && attributes@["health_status"@] == status) || (
        !attributes@.contains_key("health_status"@) && attributes@.contains_key("HealthStatus"@)
            && attributes@["HealthStatus"@] == status) ==> {
            let said = outside::lowercase(status@);
            let told = told_health(action, Some(&attributes));
            &&& text::occurs(said, "unhealthy"@) ==> told == Some(HealthStatus::Unhealthy)
            &&& text::occurs(said, "healthy"@) && !text::occurs(said, "unhealthy"@) ==> told == Some(
                HealthStatus::Healthy,
            )
            &&& text::occurs(said, "starting"@) && !text::occurs(said, "healthy"@) ==> told == Some(
                HealthStatus::Starting,
            )
            &&& !text::occurs(said, "starting"@) && !text::occurs(said, "healthy"@) ==> told is None
        },
{
    containers::law_health_is_told_by_words(outside::lowercase(action));
    containers::law_health_is_told_by_words(outside::lowercase(status@));
}

/// What an event means goes by its action: a start, a die or stop, a destroy, and
/// whatever follows `health_status`. No other action means anything, and neither
/// does an event without a container.
pub proof fn law_actions_name_events(event: DaemonEvent, tail: Seq<char>)
    requires
        event.actor matches Some(actor) && actor.id matches Some(id) && id@.len() > 0,
    ensures
        text::text_of(event.action) == Some("start"@) <==> event.meaning() == Some(
            ContainerEvent::Start,
        ),
        text::text_of(event.action) == Some("die"@) || text::text_of(event.action) == Some("stop"@)
            <==> event.meaning() == Some(ContainerEvent::Stop),
        text::text_of(event.action) == Some("destroy"@) <==> event.meaning() == Some(
            ContainerEvent::Destroy,
        ),
        text::text_of(event.action) == Some("health_status"@ + tail) ==> event.meaning() == Some(
            ContainerEvent::Health,
        ),
        event.meaning() == Some(ContainerEvent::Health) ==> event.action is Some
            && text::begins_with(event.action->0@, "health_status"@),
        event.action is None ==> event.meaning() is None,
        event.container_id() == event.actor->0.id->0@,
{
    reveal_strlit("start");
    reveal_strlit("die");
    reveal_strlit("stop");
    reveal_strlit("destroy");
    reveal_strlit("health_status");
    assert("start"@.len() == 5 && "die"@.len() == 3 && "stop"@.len() == 4);
    assert("destroy"@.len() == 7 && "health_status"@.len() == 13);
    text::law_begins_with_is_a_prefix("health_status"@ + tail, "health_status"@);
    assert("health_status"@ + tail == "health_status"@.add(tail));
    assert(text::begins_with("health_status"@ + tail, "health_status"@));
}

/// An event without a container, or with one whose ID is empty, means nothing.
pub proof fn law_events_without_a_container_mean_nothing(event: DaemonEvent)
    requires
        event.actor matches Some(actor) ==> (actor.id matches Some(id) ==> id@.len() == 0),
    ensures
        event.meaning() is None,
{
}

/// What one more filter of the user's does to those for events: one that events
/// know sets its own key, one by ID or name adds to the containers to look for, and
/// every other changes nothing. The keys that it does not name stay as they are.
pub proof fn law_one_more_filter(
    entries: Seq<(String, Vec<String>)>,
    key: String,
    values: Vec<String>,
    other: Seq<char>,
)
    ensures
        ({
            let before = event_filter_texts(entries);
            let after = event_filter_texts(entries.push((key, values)));
            let texts = text::texts_of(values@);
            let known = key@ == "container"@ || key@ == "label"@ || key@ == "image"@ || key@
                == "network"@ || key@ == "volume"@ || key@ == "daemon"@ || key@ == "scope"@ || key@
                == "node"@ || key@ == "service"@ || key@ == "secret"@ || key@ == "config"@ || key@
                == "plugin"@;
            let by_id = key@ == "id"@ || key@ == "name"@;
            &&& known ==> after.contains_key(key@) && after[key@] == texts
            &&& by_id ==> after.contains_key("container"@) && after["container"@] == (
            if before.contains_key("container"@) {
                before["container"@]
            } else {
                Seq::empty()
            }) + texts
            &&& !known && !by_id ==> after == before
            &&& other != key@ && other != "container"@ ==> {
                &&& after.contains_key(other) <==> before.contains_key(other)
                &&& before.contains_key(other) ==> after[other] == before[other]
            }
        }),
        event_filter_texts(Seq::empty()).dom() == set!["type"@, "event"@],
{
    let all = entries.push((key, values));
    let before = event_filter_texts(entries);
    let after = event_filter_texts(all);
    let texts = text::texts_of(values@);
    assert(all.drop_last() =~= entries);
    assert(after == merged(before, key@, texts));
    assert(Seq::<Seq<char>>::empty() + texts =~= texts);
    reveal_strlit("container");
    reveal_strlit("label");
    reveal_strlit("image");
    reveal_strlit("network");
    reveal_strlit("volume");
    reveal_strlit("daemon");
    reveal_strlit("scope");
    reveal_strlit("node");
    reveal_strlit("service");
    reveal_strlit("secret");
    reveal_strlit("config");
    reveal_strlit("plugin");
    reveal_strlit("id");
    reveal_strlit("name");
    assert("id"@.len() == 2 && "name"@.len() == 4 && "node"@.len() == 4);
    assert("node"@[1] == 'o' && "name"@[1] == 'a');
    assert(filter_use("id"@) == FilterUse::Container);
    assert(filter_use("name"@) == FilterUse::Container);
    assert(event_filter_texts(Seq::empty()).dom() =~= set!["type"@, "event"@]);
}

/// The key of a container is the host's name and the first twelve characters of
/// the container's ID.
pub proof fn law_keys_hold_short_ids(host: DockerHost, container_id: Seq<char>)
    ensures
        host.key_of(container_id).0 == host.host_id@,
        container_id.len() >= 12 ==> host.key_of(container_id).1 == container_id.take(12),
        container_id.len() < 12 ==> host.key_of(container_id).1 == container_id,
{
    assert(container_id.take(container_id.len() as int) =~= container_id);
}

/// A stats task is displaced exactly where one is recorded for the container, and
/// then it is that one.
pub proof fn law_recorded_tasks_are_displaced<H>(tasks: Map<Seq<char>, H>, id: Seq<char>)
    ensures
        !tasks.contains_key(id) <==> displaced(tasks, id) is None,
        tasks.contains_key(id) ==> displaced(tasks, id) == Some(tasks[id]),
{
}

/// The filters as texts have the keys of the filters, and under each key all of its
/// values, in order.
pub proof fn law_filters_are_told_by_their_texts(
    filters: Map<Seq<char>, Vec<String>>,
    key: Seq<char>,
    i: int,
)
    ensures
        filter_texts(filters).contains_key(key) <==> filters.contains_key(key),
        filters.contains_key(key) ==> {
            &&& filter_texts(filters)[key].len() == filters[key]@.len()
            &&& 0 <= i < filters[key]@.len() ==> filter_texts(filters)[key][i] == filters[key]@[i]@
        },
{
}

} // verus!
