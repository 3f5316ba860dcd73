//! The registration store: which loaded plugin handles which event kind,
//! application command, custom id, scheduled job and dependency function.

use vstd::prelude::*;

use crate::permissions::{Capability, Permissions};

verus! {

/// An application command a plugin asked for: its internal id and the
/// encoded command descriptor.
pub struct PluginRegistrationRequestsApplicationCommand {
    pub plugin_id: String,
    pub id: String,
    pub data: Vec<u8>,
}

/// A message component custom id a plugin asked for.
pub struct PluginRegistrationRequestsMessageComponent {
    pub plugin_id: String,
    pub id: String,
}

/// A modal custom id a plugin asked for.
pub struct PluginRegistrationRequestsModal {
    pub plugin_id: String,
    pub id: String,
}

/// A timer a plugin asked for: its internal id and cron expressions.
pub struct PluginRegistrationRequestsScheduledJob {
    pub plugin_id: String,
    pub id: String,
    pub crons: Vec<String>,
}

pub struct PluginRegistrationRequestsInteractionCreate {
    pub application_commands: Vec<PluginRegistrationRequestsApplicationCommand>,
    pub message_component: Vec<PluginRegistrationRequestsMessageComponent>,
    pub modals: Vec<PluginRegistrationRequestsModal>,
}

/// What the initialization pass gathers for the chat-service client and the
/// cron engine.
pub struct PluginRegistrationRequests {
    pub discord_event_interaction_create: PluginRegistrationRequestsInteractionCreate,
    pub scheduled_jobs: Vec<PluginRegistrationRequestsScheduledJob>,
}

/// What one plugin's initialization export asks for.
pub struct RegistrationResponse {
    pub message_create: bool,
    pub thread_create: bool,
    pub thread_delete: bool,
    pub thread_list_sync: bool,
    pub thread_member_update: bool,
    pub thread_members_update: bool,
    pub thread_update: bool,
    /// (internal id, encoded command descriptor)
    pub application_commands: Vec<(String, Vec<u8>)>,
    pub message_components: Vec<String>,
    pub modals: Vec<String>,
    /// (internal id, cron expressions)
    pub scheduled_jobs: Vec<(String, Vec<String>)>,
    pub dependency_functions: Vec<String>,
}

/// An event kind that plugins subscribe to as a whole.
#[derive(Clone, Copy, Debug, PartialEq, Eq, Structural)]
pub enum EventKind {
    MessageCreate,
    ThreadCreate,
    ThreadDelete,
    ThreadListSync,
    ThreadMemberUpdate,
    ThreadMembersUpdate,
    ThreadUpdate,
}

/// The capability that subscribing to an event kind needs.
pub open spec fn capability_for(k: EventKind) -> Capability {
    match k {
        EventKind::MessageCreate => Capability::MessageCreate,
        EventKind::ThreadCreate => Capability::ThreadCreate,
        EventKind::ThreadDelete => Capability::ThreadDelete,
        EventKind::ThreadListSync => Capability::ThreadListSync,
        EventKind::ThreadMemberUpdate => Capability::ThreadMemberUpdate,
        EventKind::ThreadMembersUpdate => Capability::ThreadMembersUpdate,
        EventKind::ThreadUpdate => Capability::ThreadUpdate,
    }
}

pub fn capability_for_kind(k: EventKind) -> (r: Capability)
    ensures
        r == capability_for(k),
{
    match k {
        EventKind::MessageCreate => Capability::MessageCreate,
        EventKind::ThreadCreate => Capability::ThreadCreate,
        EventKind::ThreadDelete => Capability::ThreadDelete,
        EventKind::ThreadListSync => Capability::ThreadListSync,
        EventKind::ThreadMemberUpdate => Capability::ThreadMemberUpdate,
        EventKind::ThreadMembersUpdate => Capability::ThreadMembersUpdate,
        EventKind::ThreadUpdate => Capability::ThreadUpdate,
    }
}

impl RegistrationResponse {
    /// Whether the plugin asked for events of kind `k`.
    pub open spec fn declares(&self, k: EventKind) -> bool {
        match k {
            EventKind::MessageCreate => self.message_create,
            EventKind::ThreadCreate => self.thread_create,
            EventKind::ThreadDelete => self.thread_delete,
            EventKind::ThreadListSync => self.thread_list_sync,
            EventKind::ThreadMemberUpdate => self.thread_member_update,
            EventKind::ThreadMembersUpdate => self.thread_members_update,
            EventKind::ThreadUpdate => self.thread_update,
        }
    }

    pub fn declares_kind(&self, k: EventKind) -> (r: bool)
        ensures
            r == self.declares(k),
    {
        match k {
            EventKind::MessageCreate => self.message_create,
            EventKind::ThreadCreate => self.thread_create,
            EventKind::ThreadDelete => self.thread_delete,
            EventKind::ThreadListSync => self.thread_list_sync,
            EventKind::ThreadMemberUpdate => self.thread_member_update,
            EventKind::ThreadMembersUpdate => self.thread_members_update,
            EventKind::ThreadUpdate => self.thread_update,
        }
    }
}

/// The ids of a list of plugin ids.
pub open spec fn ids(v: Seq<String>) -> Seq<Seq<char>> {
    v.map_values(|s: String| s@)
}

/// A list with every occurrence of `id` taken out.
pub open spec fn without(s: Seq<Seq<char>>, id: Seq<char>) -> Seq<Seq<char>> {
    s.filter(|x: Seq<char>| x != id)
}

/// What a subscriber list becomes when a plugin is recorded.
pub open spec fn recorded_subscribers(
    before: Seq<Seq<char>>,
    id: Seq<char>,
    declared: bool,
    permitted: bool,
) -> Seq<Seq<char>> {
    if declared && permitted {
        before.push(id)
    } else {
        before
    }
}

/// Custom id to plugin id, last writer wins: `put` replaces the entry of
/// that key, or adds one at the end.
pub open spec fn put(
    m: Seq<(Seq<char>, Seq<char>)>,
    k: Seq<char>,
    v: Seq<char>,
) -> Seq<(Seq<char>, Seq<char>)> {
    if exists|i: int| 0 <= i < m.len() && m[i].0 == k {
        let i = choose|i: int| 0 <= i < m.len() && m[i].0 == k;
        m.update(i, (k, v))
    } else {
        m.push((k, v))
    }
}

/// The plugin a custom id leads to.
pub open spec fn get(m: Seq<(Seq<char>, Seq<char>)>, k: Seq<char>) -> Option<Seq<char>> {
    if exists|i: int| 0 <= i < m.len() && m[i].0 == k {
        let i = choose|i: int| 0 <= i < m.len() && m[i].0 == k;
        Some(m[i].1)
    } else {
        None
    }
}

pub open spec fn keys_unique(m: Seq<(Seq<char>, Seq<char>)>) -> bool {
    forall|i: int, j: int| 0 <= i < m.len() && 0 <= j < m.len() && m[i].0 == m[j].0 ==> i == j
}

/// No two entries share a command id.
pub open spec fn unique_command_ids(c: Seq<(u64, String, String)>) -> bool {
    forall|i: int, j: int| 0 <= i < c.len() && 0 <= j < c.len() && c[i].0 == c[j].0 ==> i == j
}

pub open spec fn pairs(v: Seq<(String, String)>) -> Seq<(Seq<char>, Seq<char>)> {
    v.map_values(|e: (String, String)| (e.0@, e.1@))
}

/// `s` with later repeats left out.
pub open spec fn distinct(s: Seq<Seq<char>>) -> Seq<Seq<char>>
    decreases s.len(),
{
    if s.len() == 0 {
        s
    } else {
        let d = distinct(s.drop_last());
        if d.contains(s.last()) {
            d
        } else {
            d.push(s.last())
        }
    }
}

/// Dependency functions as (plugin id, function names).
pub open spec fn dep_view(v: Seq<(String, Vec<String>)>) -> Seq<(Seq<char>, Seq<Seq<char>>)> {
    v.map_values(|e: (String, Vec<String>)| (e.0@, ids(e.1@)))
}

pub open spec fn dep_keys(d: Seq<(Seq<char>, Seq<Seq<char>>)>) -> Seq<Seq<char>> {
    d.map_values(|e: (Seq<char>, Seq<Seq<char>>)| e.0)
}

/// Each plugin has at most one entry, only loaded plugins have one, and
/// each names a function once.
pub open spec fn deps_ok(loaded: Seq<Seq<char>>, d: Seq<(Seq<char>, Seq<Seq<char>>)>) -> bool {
    &&& dep_keys(d).no_duplicates()
    &&& forall|i: int| 0 <= i < d.len() ==> #[trigger] entry_ok(loaded, d[i])
}

pub open spec fn entry_ok(loaded: Seq<Seq<char>>, e: (Seq<char>, Seq<Seq<char>>)) -> bool {
    loaded.contains(e.0) && e.1.no_duplicates()
}

/// `d` without the entry of plugin `id`.
pub open spec fn drop_key(d: Seq<(Seq<char>, Seq<Seq<char>>)>, id: Seq<char>) -> Seq<
    (Seq<char>, Seq<Seq<char>>),
>
    decreases d.len(),
{
    if d.len() == 0 {
        d
    } else {
        let r = drop_key(d.drop_last(), id);
        if d.last().0 != id {
            r.push(d.last())
        } else {
            r
        }
    }
}

/// The dependency-function entry recorded for a plugin, if any.
pub open spec fn deps_added(
    id: Seq<char>,
    permissions: Permissions,
    response: RegistrationResponse,
) -> Seq<(Seq<char>, Seq<Seq<char>>)> {
    if permissions.spec_has(Capability::DependencyFunctions)
        && response.dependency_functions@.len() > 0 {
        seq![(id, distinct(ids(response.dependency_functions@)))]
    } else {
        Seq::empty()
    }
}

proof fn lemma_distinct(s: Seq<Seq<char>>)
    ensures
        distinct(s).no_duplicates(),
        forall|x: Seq<char>| distinct(s).contains(x) == s.contains(x),
    decreases s.len(),
{
    if s.len() > 0 {
        let d0 = s.drop_last();
        lemma_distinct(d0);
        let d = distinct(d0);
        assert forall|x: Seq<char>| distinct(s).contains(x) == s.contains(x) by {
            if s.contains(x) && x != s.last() {
                let t = choose|t: int| 0 <= t < s.len() && s[t] == x;
                assert(d0[t] == x);
            }
            if d0.contains(x) {
                let t = choose|t: int| 0 <= t < d0.len() && d0[t] == x;
                assert(s[t] == x);
            }
            if !d.contains(s.last()) {
                if d.push(s.last()).contains(x) && x != s.last() {
                    let t = choose|t: int| 0 <= t < d.len() + 1 && d.push(s.last())[t] == x;
                    assert(d[t] == x);
                }
                if d.contains(x) {
                    let t = choose|t: int| 0 <= t < d.len() && d[t] == x;
                    assert(d.push(s.last())[t] == x);
                }
                assert(d.push(s.last())[d.len() as int] == s.last());
            }
        }
        if !d.contains(s.last()) {
            assert forall|a: int, b: int|
                0 <= a < d.len() + 1 && 0 <= b < d.len() + 1 && a != b implies d.push(s.last())[a]
                != d.push(s.last())[b] by {
                if a == d.len() {
                    assert(d.contains(d[b]));
                } else if b == d.len() {
                    assert(d.contains(d[a]));
                }
            }
        }
    }
}

/// Whether `v` holds `x`.
pub fn contains_id(v: &Vec<String>, x: &str) -> (r: bool)
    ensures
        r == ids(v@).contains(x@),
{
    let n = v.len();
    let mut i: usize = 0;
    while i < n
        invariant
            n == v@.len(),
            i <= n,
            forall|j: int| 0 <= j < i ==> v@[j]@ != x@,
        decreases n - i,
    {
        if crate::permissions::str_equals(v[i].as_str(), x) {
            assert(ids(v@)[i as int] == x@);
            return true;
        }
        i = i + 1;
    }
    proof {
        if ids(v@).contains(x@) {
            let j = choose|j: int| 0 <= j < ids(v@).len() && ids(v@)[j] == x@;
            assert(v@[j]@ == x@);
        }
    }
    false
}

/// `v` with later repeats left out.
pub fn dedup_names(v: Vec<String>) -> (r: Vec<String>)
    ensures
        ids(r@) == distinct(ids(v@)),
{
    let ghost orig = ids(v@);
    let mut out: Vec<String> = Vec::new();
    let n = v.len();
    let mut i: usize = 0;
    while i < n
        invariant
            n == v@.len(),
            orig == ids(v@),
            i <= n,
            ids(out@) == distinct(orig.subrange(0, i as int)),
        decreases n - i,
    {
        assert(orig.subrange(0, i + 1).drop_last() =~= orig.subrange(0, i as int));
        assert(orig.subrange(0, i + 1).last() == v@[i as int]@);
        if !contains_id(&out, v[i].as_str()) {
            let ghost before = ids(out@);
            out.push(v[i].clone());
            assert(ids(out@) =~= before.push(v@[i as int]@));
        }
        i = i + 1;
    }
    assert(orig.subrange(0, n as int) =~= orig);
    out
}

/// Application-command requests as (plugin id, internal id, descriptor).
pub open spec fn cmd_view(s: Seq<PluginRegistrationRequestsApplicationCommand>) -> Seq<
    (Seq<char>, Seq<char>, Seq<u8>),
> {
    s.map_values(
        |e: PluginRegistrationRequestsApplicationCommand| (e.plugin_id@, e.id@, e.data@),
    )
}

/// Timer requests as (plugin id, internal id, cron expressions).
pub open spec fn job_view(s: Seq<PluginRegistrationRequestsScheduledJob>) -> Seq<
    (Seq<char>, Seq<char>, Seq<Seq<char>>),
> {
    s.map_values(|e: PluginRegistrationRequestsScheduledJob| (e.plugin_id@, e.id@, ids(e.crons@)))
}

/// The application-command requests recorded for a plugin.
pub open spec fn commands_added(
    id: Seq<char>,
    permissions: Permissions,
    response: RegistrationResponse,
) -> Seq<(Seq<char>, Seq<char>, Seq<u8>)> {
    if permissions.spec_has(Capability::InteractionCreate) {
        response.application_commands@.map_values(|c: (String, Vec<u8>)| (id, c.0@, c.1@))
    } else {
        Seq::empty()
    }
}

/// The timer requests recorded for a plugin.
pub open spec fn jobs_added(id: Seq<char>, response: RegistrationResponse) -> Seq<
    (Seq<char>, Seq<char>, Seq<Seq<char>>),
> {
    response.scheduled_jobs@.map_values(|j: (String, Vec<String>)| (id, j.0@, ids(j.1@)))
}

/// Routes for interactions: application commands by server-assigned id,
/// message components and modals by custom id.
pub struct PluginRegistrationsInteractionCreate {
    /// (command id, plugin id, internal id)
    pub application_commands: Vec<(u64, String, String)>,
    /// (custom id, plugin id)
    pub message_components: Vec<(String, String)>,
    /// (custom id, plugin id)
    pub modals: Vec<(String, String)>,
}

/// Subscriber lists, in initialization order.
pub struct PluginRegistrationsDiscordEvents {
    pub interaction_create: PluginRegistrationsInteractionCreate,
    pub message_create: Vec<String>,
    pub thread_create: Vec<String>,
    pub thread_delete: Vec<String>,
    pub thread_list_sync: Vec<String>,
    pub thread_member_update: Vec<String>,
    pub thread_members_update: Vec<String>,
    pub thread_update: Vec<String>,
}

/// The registration store.
pub struct PluginRegistrations {
    /// The plugins currently loaded, in initialization order.
    pub plugins: Vec<String>,
    pub discord_events: PluginRegistrationsDiscordEvents,
    /// (timer uuid, plugin id, internal id)
    pub scheduled_jobs: Vec<(u128, String, String)>,
    /// (plugin id, exported function names)
    pub dependency_functions: Vec<(String, Vec<String>)>,
}

/// Which interaction routing table a custom id belongs to.
#[derive(Clone, Copy, Debug, PartialEq, Eq, Structural)]
pub enum CustomIdKind {
    MessageComponent,
    Modal,
}

impl PluginRegistrations {
    pub open spec fn loaded(&self) -> Seq<Seq<char>> {
        ids(self.plugins@)
    }

    pub open spec fn subscribers(&self, k: EventKind) -> Seq<Seq<char>> {
        let e = self.discord_events;
        ids(
            match k {
                EventKind::MessageCreate => e.message_create@,
                EventKind::ThreadCreate => e.thread_create@,
                EventKind::ThreadDelete => e.thread_delete@,
                EventKind::ThreadListSync => e.thread_list_sync@,
                EventKind::ThreadMemberUpdate => e.thread_member_update@,
                EventKind::ThreadMembersUpdate => e.thread_members_update@,
                EventKind::ThreadUpdate => e.thread_update@,
            },
        )
    }

    pub open spec fn custom_ids(&self, k: CustomIdKind) -> Seq<(Seq<char>, Seq<char>)> {
        match k {
            CustomIdKind::MessageComponent => pairs(
                self.discord_events.interaction_create.message_components@,
            ),
            CustomIdKind::Modal => pairs(self.discord_events.interaction_create.modals@),
        }
    }

    pub open spec fn commands(&self) -> Seq<(u64, String, String)> {
        self.discord_events.interaction_create.application_commands@
    }

    /// The store's invariant: loaded plugins are distinct, every subscriber
    /// is loaded, and command ids, timer uuids and custom ids each identify
    /// one entry.
    pub open spec fn wf(&self) -> bool {
        &&& self.loaded().no_duplicates()
        &&& forall|k: EventKind, i: int|
            0 <= i < self.subscribers(k).len() ==> self.loaded().contains(
                #[trigger] self.subscribers(k)[i],
            )
        &&& unique_command_ids(self.commands())
        &&& forall|i: int, j: int|
            0 <= i < self.scheduled_jobs@.len() && 0 <= j < self.scheduled_jobs@.len()
                && self.scheduled_jobs@[i].0 == self.scheduled_jobs@[j].0 ==> i == j
        &&& forall|k: CustomIdKind| keys_unique(#[trigger] self.custom_ids(k))
        &&& deps_ok(self.loaded(), dep_view(self.dependency_functions@))
    }

    /// An empty store.
    pub fn new() -> (r: PluginRegistrations)
        ensures
            r.wf(),
            r.plugins@.len() == 0,
            forall|k: EventKind| (#[trigger] r.subscribers(k)).len() == 0,
            forall|k: CustomIdKind| (#[trigger] r.custom_ids(k)).len() == 0,
            r.commands().len() == 0,
            r.scheduled_jobs@.len() == 0,
            r.dependency_functions@.len() == 0,
    {
        let r = PluginRegistrations {
            plugins: Vec::new(),
            discord_events: PluginRegistrationsDiscordEvents {
                interaction_create: PluginRegistrationsInteractionCreate {
                    application_commands: Vec::new(),
                    message_components: Vec::new(),
                    modals: Vec::new(),
                },
                message_create: Vec::new(),
                thread_create: Vec::new(),
                thread_delete: Vec::new(),
                thread_list_sync: Vec::new(),
                thread_member_update: Vec::new(),
                thread_members_update: Vec::new(),
                thread_update: Vec::new(),
            },
            scheduled_jobs: Vec::new(),
            dependency_functions: Vec::new(),
        };
        assert forall|k: CustomIdKind| (#[trigger] r.custom_ids(k)).len() == 0 by {}
        assert forall|k: EventKind| (#[trigger] r.subscribers(k)).len() == 0 by {}
        r
    }
}

/// `put` of each key of `keys` in turn, all to `v`.
pub open spec fn put_all(
    m: Seq<(Seq<char>, Seq<char>)>,
    keys: Seq<Seq<char>>,
    v: Seq<char>,
) -> Seq<(Seq<char>, Seq<char>)>
    decreases keys.len(),
{
    if keys.len() == 0 {
        m
    } else {
        put(put_all(m, keys.drop_last(), v), keys.last(), v)
    }
}

/// Whether giving custom id `k` to plugin `v` takes it from another plugin.
pub open spec fn overwritten(m: Seq<(Seq<char>, Seq<char>)>, k: Seq<char>, v: Seq<char>) -> bool {
    get(m, k) matches Some(p) && p != v
}

proof fn lemma_put_keeps_unique(m: Seq<(Seq<char>, Seq<char>)>, k: Seq<char>, v: Seq<char>)
    requires
        keys_unique(m),
    ensures
        keys_unique(put(m, k, v)),
        get(put(m, k, v), k) == Some(v),
        forall|k2: Seq<char>| k2 != k ==> get(put(m, k, v), k2) == get(m, k2),
{
    let r = put(m, k, v);
    if exists|i: int| 0 <= i < m.len() && m[i].0 == k {
        let i = choose|i: int| 0 <= i < m.len() && m[i].0 == k;
        assert(r[i].0 == k);
        assert forall|k2: Seq<char>| k2 != k implies get(r, k2) == get(m, k2) by {
            if exists|j: int| 0 <= j < m.len() && m[j].0 == k2 {
                let j = choose|j: int| 0 <= j < m.len() && m[j].0 == k2;
                assert(r[j].0 == k2);
            }
            if exists|j: int| 0 <= j < r.len() && r[j].0 == k2 {
                let j = choose|j: int| 0 <= j < r.len() && r[j].0 == k2;
                assert(m[j].0 == k2);
            }
        }
    } else {
        assert(r[m.len() as int].0 == k);
        assert forall|k2: Seq<char>| k2 != k implies get(r, k2) == get(m, k2) by {
            if exists|j: int| 0 <= j < m.len() && m[j].0 == k2 {
                let j = choose|j: int| 0 <= j < m.len() && m[j].0 == k2;
                assert(r[j].0 == k2);
            }
            if exists|j: int| 0 <= j < r.len() && r[j].0 == k2 {
                let j = choose|j: int| 0 <= j < r.len() && r[j].0 == k2;
                assert(j < m.len());
                assert(m[j].0 == k2);
            }
        }
    }
}

/// Where several plugins register one custom id, the last one wins: after
/// `a` and then `b` take the id `k`, `k` leads to `b`, and if `a` and `b`
/// differ, `b`'s write counts as an overwrite to warn about.
pub proof fn lemma_custom_id_last_writer_wins(
    m: Seq<(Seq<char>, Seq<char>)>,
    k: Seq<char>,
    a: Seq<char>,
    b: Seq<char>,
)
    requires
        keys_unique(m),
    ensures
        get(put(put(m, k, a), k, b), k) == Some(b),
        a != b ==> overwritten(put(m, k, a), k, b),
        keys_unique(put(put(m, k, a), k, b)),
{
    lemma_put_keeps_unique(m, k, a);
    lemma_put_keeps_unique(put(m, k, a), k, b);
}

/// Sets the entry of `key` to `value`, or adds one; hands back the earlier value.
fn put_pair(v: &mut Vec<(String, String)>, key: String, value: String) -> (prev: Option<String>)
    requires
        keys_unique(pairs(old(v)@)),
    ensures
        pairs(final(v)@) == put(pairs(old(v)@), key@, value@),
        keys_unique(pairs(final(v)@)),
        match get(pairs(old(v)@), key@) {
            Some(p) => prev matches Some(q) && q@ == p,
            None => prev is None,
        },
{
    let ghost m = pairs(v@);
    let n = v.len();
    let mut i: usize = 0;
    while i < n
        invariant
            n == v@.len(),
            i <= n,
            m == pairs(v@),
            keys_unique(m),
            v@ == old(v)@,
            forall|j: int| 0 <= j < i ==> m[j].0 != key@,
        decreases n - i,
    {
        if v[i].0 == key {
            let prev = v[i].1.clone();
            proof {
                assert(m[i as int].0 == key@);
                lemma_put_keeps_unique(m, key@, value@);
                let c = choose|j: int| 0 <= j < m.len() && m[j].0 == key@;
                assert(c == i);
            }
            v.set(i, (key, value));
            assert(pairs(v@) =~= put(m, key@, value@));
            return Some(prev);
        }
        i = i + 1;
    }
    proof {
        lemma_put_keeps_unique(m, key@, value@);
    }
    v.push((key, value));
    assert(pairs(v@) =~= put(m, key@, value@));
    None
}

/// The value of the entry keyed `key`.
fn get_pair(v: &Vec<(String, String)>, key: &str) -> (r: Option<String>)
    requires
        keys_unique(pairs(v@)),
    ensures
        match get(pairs(v@), key@) {
            Some(p) => r matches Some(q) && q@ == p,
            None => r is None,
        },
{
    let ghost m = pairs(v@);
    let n = v.len();
    let mut i: usize = 0;
    while i < n
        invariant
            n == v@.len(),
            i <= n,
            m == pairs(v@),
            keys_unique(m),
            forall|j: int| 0 <= j < i ==> m[j].0 != key@,
        decreases n - i,
    {
        if crate::permissions::str_equals(v[i].0.as_str(), key) {
            proof {
                assert(m[i as int].0 == key@);
                let c = choose|j: int| 0 <= j < m.len() && m[j].0 == key@;
                assert(c == i);
            }
            return Some(v[i].1.clone());
        }
        i = i + 1;
    }
    None
}

impl PluginRegistrationRequests {
    /// No requests yet.
    pub fn new() -> (r: PluginRegistrationRequests)
        ensures
            r.discord_event_interaction_create.application_commands@.len() == 0,
            r.discord_event_interaction_create.message_component@.len() == 0,
            r.discord_event_interaction_create.modals@.len() == 0,
            r.scheduled_jobs@.len() == 0,
    {
        PluginRegistrationRequests {
            discord_event_interaction_create: PluginRegistrationRequestsInteractionCreate {
                application_commands: Vec::new(),
                message_component: Vec::new(),
                modals: Vec::new(),
            },
            scheduled_jobs: Vec::new(),
        }
    }
}

/// Appends one request per application command of `commands`, tagged with `plugin_id`.
fn add_command_requests(
    out: &mut Vec<PluginRegistrationRequestsApplicationCommand>,
    plugin_id: &String,
    commands: Vec<(String, Vec<u8>)>,
)
    ensures
        cmd_view(final(out)@) == cmd_view(old(out)@) + commands@.map_values(
            |c: (String, Vec<u8>)| (plugin_id@, c.0@, c.1@),
        ),
{
    let ghost orig = commands@;
    let ghost start = cmd_view(out@);
    let mut rest = commands;
    let n = rest.len();
    let mut i: usize = 0;
    while i < n
        invariant
            n == orig.len(),
            i <= n,
            rest@ == orig.subrange(i as int, n as int),
            cmd_view(out@) == start + orig.subrange(0, i as int).map_values(
                |c: (String, Vec<u8>)| (plugin_id@, c.0@, c.1@),
            ),
        decreases n - i,
    {
        let ghost before = cmd_view(out@);
        let (id, data) = rest.remove(0);
        assert(rest@ =~= orig.subrange(i + 1, n as int));
        out.push(
            PluginRegistrationRequestsApplicationCommand { plugin_id: plugin_id.clone(), id, data },
        );
        assert(cmd_view(out@) =~= before.push((plugin_id@, orig[i as int].0@, orig[i as int].1@)));
        assert(orig.subrange(0, i + 1).map_values(|c: (String, Vec<u8>)| (plugin_id@, c.0@, c.1@))
            =~= orig.subrange(0, i as int).map_values(
            |c: (String, Vec<u8>)| (plugin_id@, c.0@, c.1@),
        ).push((plugin_id@, orig[i as int].0@, orig[i as int].1@)));
        i = i + 1;
    }
    assert(orig.subrange(0, n as int) =~= orig);
}

/// Appends one request per timer of `jobs`, tagged with `plugin_id`.
fn add_job_requests(
    out: &mut Vec<PluginRegistrationRequestsScheduledJob>,
    plugin_id: &String,
    jobs: Vec<(String, Vec<String>)>,
)
    ensures
        job_view(final(out)@) == job_view(old(out)@) + jobs@.map_values(
            |j: (String, Vec<String>)| (plugin_id@, j.0@, ids(j.1@)),
        ),
{
    let ghost orig = jobs@;
    let ghost start = job_view(out@);
    let mut rest = jobs;
    let n = rest.len();
    let mut i: usize = 0;
    while i < n
        invariant
            n == orig.len(),
            i <= n,
            rest@ == orig.subrange(i as int, n as int),
            job_view(out@) == start + orig.subrange(0, i as int).map_values(
                |j: (String, Vec<String>)| (plugin_id@, j.0@, ids(j.1@)),
            ),
        decreases n - i,
    {
        let ghost before = job_view(out@);
        let (id, crons) = rest.remove(0);
        assert(rest@ =~= orig.subrange(i + 1, n as int));
        out.push(PluginRegistrationRequestsScheduledJob { plugin_id: plugin_id.clone(), id, crons });
        assert(job_view(out@) =~= before.push((plugin_id@, orig[i as int].0@, ids(orig[i as int].1@))));
        assert(orig.subrange(0, i + 1).map_values(
            |j: (String, Vec<String>)| (plugin_id@, j.0@, ids(j.1@)),
        ) =~= orig.subrange(0, i as int).map_values(
            |j: (String, Vec<String>)| (plugin_id@, j.0@, ids(j.1@)),
        ).push((plugin_id@, orig[i as int].0@, ids(orig[i as int].1@))));
        i = i + 1;
    }
    assert(orig.subrange(0, n as int) =~= orig);
}

/// The keys of `keys` that already led somewhere when their turn came.
pub open spec fn collisions(
    m: Seq<(Seq<char>, Seq<char>)>,
    keys: Seq<Seq<char>>,
    v: Seq<char>,
) -> Seq<Seq<char>>
    decreases keys.len(),
{
    if keys.len() == 0 {
        Seq::empty()
    } else {
        let before = collisions(m, keys.drop_last(), v);
        if overwritten(put_all(m, keys.drop_last(), v), keys.last(), v) {
            before.push(keys.last())
        } else {
            before
        }
    }
}

impl PluginRegistrations {
    /// Whether plugin `id` is loaded.
    pub fn is_loaded(&self, id: &str) -> (r: bool)
        ensures
            r == self.loaded().contains(id@),
    {
        let n = self.plugins.len();
        let mut i: usize = 0;
        while i < n
            invariant
                n == self.plugins@.len(),
                i <= n,
                forall|j: int| 0 <= j < i ==> self.plugins@[j]@ != id@,
            decreases n - i,
        {
            if crate::permissions::str_equals(self.plugins[i].as_str(), id) {
                assert(self.loaded()[i as int] == id@);
                return true;
            }
            i = i + 1;
        }
        proof {
            if self.loaded().contains(id@) {
                let j = choose|j: int| 0 <= j < self.loaded().len() && self.loaded()[j] == id@;
                assert(self.plugins@[j]@ == id@);
            }
        }
        false
    }

    /// The subscribers of event kind `k`, in initialization order.
    pub fn subscriber_list(&self, k: EventKind) -> (r: &Vec<String>)
        ensures
            ids(r@) == self.subscribers(k),
    {
        match k {
            EventKind::MessageCreate => &self.discord_events.message_create,
            EventKind::ThreadCreate => &self.discord_events.thread_create,
            EventKind::ThreadDelete => &self.discord_events.thread_delete,
            EventKind::ThreadListSync => &self.discord_events.thread_list_sync,
            EventKind::ThreadMemberUpdate => &self.discord_events.thread_member_update,
            EventKind::ThreadMembersUpdate => &self.discord_events.thread_members_update,
            EventKind::ThreadUpdate => &self.discord_events.thread_update,
        }
    }

    fn subscribe(&mut self, k: EventKind, id: String)
        ensures
            final(self).subscribers(k) == old(self).subscribers(k).push(id@),
            forall|k2: EventKind| k2 != k ==> final(self).subscribers(k2) == old(self).subscribers(k2),
            final(self).plugins == old(self).plugins,
            final(self).discord_events.interaction_create == old(self).discord_events.interaction_create,
            final(self).scheduled_jobs == old(self).scheduled_jobs,
            final(self).dependency_functions == old(self).dependency_functions,
    {
        let ghost before = self.subscribers(k);
        match k {
            EventKind::MessageCreate => self.discord_events.message_create.push(id),
            EventKind::ThreadCreate => self.discord_events.thread_create.push(id),
            EventKind::ThreadDelete => self.discord_events.thread_delete.push(id),
            EventKind::ThreadListSync => self.discord_events.thread_list_sync.push(id),
            EventKind::ThreadMemberUpdate => self.discord_events.thread_member_update.push(id),
            EventKind::ThreadMembersUpdate => self.discord_events.thread_members_update.push(id),
            EventKind::ThreadUpdate => self.discord_events.thread_update.push(id),
        }
        assert(self.subscribers(k) =~= before.push(id@));
    }

    /// Points custom id `key` of kind `kind` at `plugin_id`; hands back the
    /// plugin it led to before, if any.
    pub fn set_custom_id(&mut self, kind: CustomIdKind, key: String, plugin_id: String) -> (prev:
        Option<String>)
        requires
            keys_unique(old(self).custom_ids(kind)),
        ensures
            final(self).custom_ids(kind) == put(old(self).custom_ids(kind), key@, plugin_id@),
            keys_unique(final(self).custom_ids(kind)),
            forall|k2: CustomIdKind| k2 != kind ==> final(self).custom_ids(k2) == old(self).custom_ids(k2),
            match get(old(self).custom_ids(kind), key@) {
                Some(p) => prev matches Some(q) && q@ == p,
                None => prev is None,
            },
            final(self).plugins == old(self).plugins,
            forall|k: EventKind| final(self).subscribers(k) == old(self).subscribers(k),
            final(self).commands() == old(self).commands(),
            final(self).scheduled_jobs == old(self).scheduled_jobs,
            final(self).dependency_functions == old(self).dependency_functions,
    {
        match kind {
            CustomIdKind::MessageComponent => put_pair(
                &mut self.discord_events.interaction_create.message_components,
                key,
                plugin_id,
            ),
            CustomIdKind::Modal => put_pair(
                &mut self.discord_events.interaction_create.modals,
                key,
                plugin_id,
            ),
        }
    }

    /// The plugin that custom id `key` of kind `kind` leads to.
    pub fn custom_id_target(&self, kind: CustomIdKind, key: &str) -> (r: Option<String>)
        requires
            self.wf(),
        ensures
            match get(self.custom_ids(kind), key@) {
                Some(p) => r matches Some(q) && q@ == p,
                None => r is None,
            },
    {
        assert(keys_unique(self.custom_ids(kind)));
        match kind {
            CustomIdKind::MessageComponent => get_pair(
                &self.discord_events.interaction_create.message_components,
                key,
            ),
            CustomIdKind::Modal => get_pair(&self.discord_events.interaction_create.modals, key),
        }
    }

    fn set_custom_ids(
        &mut self,
        kind: CustomIdKind,
        keys: Vec<String>,
        plugin_id: &String,
        warnings: &mut Vec<String>,
    )
        requires
            keys_unique(old(self).custom_ids(kind)),
        ensures
            final(self).custom_ids(kind) == put_all(old(self).custom_ids(kind), ids(keys@), plugin_id@),
            keys_unique(final(self).custom_ids(kind)),
            forall|k2: CustomIdKind| k2 != kind ==> final(self).custom_ids(k2) == old(self).custom_ids(k2),
            ids(final(warnings)@) == ids(old(warnings)@) + collisions(
                old(self).custom_ids(kind),
                ids(keys@),
                plugin_id@,
            ),
            final(self).plugins == old(self).plugins,
            forall|k: EventKind| final(self).subscribers(k) == old(self).subscribers(k),
            final(self).commands() == old(self).commands(),
            final(self).scheduled_jobs == old(self).scheduled_jobs,
            final(self).dependency_functions == old(self).dependency_functions,
    {
        let ghost m0 = self.custom_ids(kind);
        let ghost w0 = ids(warnings@);
        let ghost ks = ids(keys@);
        let ghost other = self.custom_ids(
            match kind {
                CustomIdKind::MessageComponent => CustomIdKind::Modal,
                CustomIdKind::Modal => CustomIdKind::MessageComponent,
            },
        );
        let ghost plugins0 = self.plugins;
        let ghost events0 = self.discord_events;
        let n = keys.len();
        let mut i: usize = 0;
        while i < n
            invariant
                n == keys@.len(),
                ks == ids(keys@),
                i <= n,
                self.custom_ids(kind) == put_all(m0, ks.subrange(0, i as int), plugin_id@),
                keys_unique(self.custom_ids(kind)),
                forall|k2: CustomIdKind| k2 != kind ==> self.custom_ids(k2) == old(self).custom_ids(k2),
                ids(warnings@) == w0 + collisions(m0, ks.subrange(0, i as int), plugin_id@),
                self.plugins == old(self).plugins,
                forall|k: EventKind| self.subscribers(k) == old(self).subscribers(k),
                self.commands() == old(self).commands(),
                self.scheduled_jobs == old(self).scheduled_jobs,
                self.dependency_functions == old(self).dependency_functions,
            decreases n - i,
        {
            let ghost before = self.custom_ids(kind);
            let ghost sub = ks.subrange(0, i + 1);
            assert(sub.drop_last() =~= ks.subrange(0, i as int));
            assert(sub.last() == keys@[i as int]@);
            let prev = self.set_custom_id(kind, keys[i].clone(), plugin_id.clone());
            let ghost wprev = ids(warnings@);
            match prev {
                Some(q) => {
                    if q != *plugin_id {
                        warnings.push(keys[i].clone());
                        assert(ids(warnings@) =~= wprev.push(keys@[i as int]@));
                    }
                },
                None => {},
            }
            assert(ids(warnings@) =~= w0 + collisions(m0, sub, plugin_id@));
            i = i + 1;
        }
        assert(ks.subrange(0, n as int) =~= ks);
    }

    /// Records the initialization response of plugin `plugin_id`, granted
    /// `permissions`: the plugin becomes loaded; it joins the subscriber list
    /// of each event kind it declares and may receive; its custom ids route to
    /// it (last writer wins, the overwritten ids are returned); its dependency
    /// functions are recorded; its application commands (if it may receive
    /// interactions) and timers are added to `requests`.
    /// Permissions are enforced here: what a plugin declares but lacks the
    /// capability for (an event kind, interactions, dependency functions) is
    /// not recorded; timers need no capability.
    pub fn record_plugin(
        &mut self,
        plugin_id: String,
        permissions: Permissions,
        response: RegistrationResponse,
        requests: &mut PluginRegistrationRequests,
    ) -> (overwritten: Vec<String>)
        requires
            old(self).wf(),
            !old(self).loaded().contains(plugin_id@),
        ensures
            final(self).wf(),
            final(self).loaded() == old(self).loaded().push(plugin_id@),
            forall|k: EventKind|
                #[trigger] final(self).subscribers(k) == recorded_subscribers(
                    old(self).subscribers(k),
                    plugin_id@,
                    response.declares(k),
                    permissions.spec_has(capability_for(k)),
                ),
            final(self).commands() == old(self).commands(),
            final(self).scheduled_jobs == old(self).scheduled_jobs,
            permissions.spec_has(Capability::InteractionCreate) ==> {
                &&& final(self).custom_ids(CustomIdKind::MessageComponent) == put_all(
                    old(self).custom_ids(CustomIdKind::MessageComponent),
                    ids(response.message_components@),
                    plugin_id@,
                )
                &&& final(self).custom_ids(CustomIdKind::Modal) == put_all(
                    old(self).custom_ids(CustomIdKind::Modal),
                    ids(response.modals@),
                    plugin_id@,
                )
                &&& ids(overwritten@) == collisions(
                    old(self).custom_ids(CustomIdKind::MessageComponent),
                    ids(response.message_components@),
                    plugin_id@,
                ) + collisions(
                    old(self).custom_ids(CustomIdKind::Modal),
                    ids(response.modals@),
                    plugin_id@,
                )
            },
            !permissions.spec_has(Capability::InteractionCreate) ==> {
                &&& forall|k: CustomIdKind|
                    #[trigger] final(self).custom_ids(k) == old(self).custom_ids(k)
                &&& overwritten@.len() == 0
            },
            dep_view(final(self).dependency_functions@) == dep_view(old(self).dependency_functions@)
                + deps_added(plugin_id@, permissions, response),
            cmd_view(final(requests).discord_event_interaction_create.application_commands@)
                == cmd_view(old(requests).discord_event_interaction_create.application_commands@)
                + commands_added(plugin_id@, permissions, response),
            job_view(final(requests).scheduled_jobs@) == job_view(old(requests).scheduled_jobs@)
                + jobs_added(plugin_id@, response),
            final(requests).discord_event_interaction_create.message_component
                == old(requests).discord_event_interaction_create.message_component,
            final(requests).discord_event_interaction_create.modals
                == old(requests).discord_event_interaction_create.modals,
    {
        let ghost old_loaded = self.loaded();
        self.plugins.push(plugin_id.clone());
        assert(self.loaded() =~= old_loaded.push(plugin_id@));
        let kinds: [EventKind; 7] = [
            EventKind::MessageCreate,
            EventKind::ThreadCreate,
            EventKind::ThreadDelete,
            EventKind::ThreadListSync,
            EventKind::ThreadMemberUpdate,
            EventKind::ThreadMembersUpdate,
            EventKind::ThreadUpdate,
        ];
        let mut i: usize = 0;
        while i < 7
            invariant
                i <= 7,
                kinds@ == seq![
                    EventKind::MessageCreate,
                    EventKind::ThreadCreate,
                    EventKind::ThreadDelete,
                    EventKind::ThreadListSync,
                    EventKind::ThreadMemberUpdate,
                    EventKind::ThreadMembersUpdate,
                    EventKind::ThreadUpdate,
                ],
                self.loaded() == old(self).loaded().push(plugin_id@),
                forall|j: int|
                    0 <= j < i ==> #[trigger] self.subscribers(kinds@[j]) == recorded_subscribers(
                        old(self).subscribers(kinds@[j]),
                        plugin_id@,
                        response.declares(kinds@[j]),
                        permissions.spec_has(capability_for(kinds@[j])),
                    ),
                forall|j: int|
                    i <= j < 7 ==> #[trigger] self.subscribers(kinds@[j]) == old(self).subscribers(
                        kinds@[j],
                    ),
                self.discord_events.interaction_create == old(self).discord_events.interaction_create,
                self.scheduled_jobs == old(self).scheduled_jobs,
                self.dependency_functions == old(self).dependency_functions,
            decreases 7 - i,
        {
            let k = kinds[i];
            if response.declares_kind(k) && permissions.has(capability_for_kind(k)) {
                self.subscribe(k, plugin_id.clone());
            }
            i = i + 1;
        }
        assert forall|k: EventKind|
            #[trigger] self.subscribers(k) == recorded_subscribers(
                old(self).subscribers(k),
                plugin_id@,
                response.declares(k),
                permissions.spec_has(capability_for(k)),
            ) by {
            match k {
                EventKind::MessageCreate => assert(kinds@[0] == k),
                EventKind::ThreadCreate => assert(kinds@[1] == k),
                EventKind::ThreadDelete => assert(kinds@[2] == k),
                EventKind::ThreadListSync => assert(kinds@[3] == k),
                EventKind::ThreadMemberUpdate => assert(kinds@[4] == k),
                EventKind::ThreadMembersUpdate => assert(kinds@[5] == k),
                EventKind::ThreadUpdate => assert(kinds@[6] == k),
            }
        }
        let RegistrationResponse {
            application_commands,
            message_components,
            modals,
            scheduled_jobs,
            dependency_functions,
            ..
        } = response;
        let mut warnings: Vec<String> = Vec::new();
        let interactions = permissions.has(Capability::InteractionCreate);
        if interactions {
            assert(keys_unique(old(self).custom_ids(CustomIdKind::MessageComponent)));
            assert(keys_unique(old(self).custom_ids(CustomIdKind::Modal)));
            assert(self.custom_ids(CustomIdKind::MessageComponent) == old(self).custom_ids(
                CustomIdKind::MessageComponent,
            ));
            self.set_custom_ids(
                CustomIdKind::MessageComponent,
                message_components,
                &plugin_id,
                &mut warnings,
            );
            assert(ids(warnings@) =~= collisions(
                old(self).custom_ids(CustomIdKind::MessageComponent),
                ids(response.message_components@),
                plugin_id@,
            ));
            assert(self.custom_ids(CustomIdKind::Modal) == old(self).custom_ids(
                CustomIdKind::Modal,
            ));
            self.set_custom_ids(CustomIdKind::Modal, modals, &plugin_id, &mut warnings);
            assert(keys_unique(self.custom_ids(CustomIdKind::MessageComponent)));
            assert(keys_unique(self.custom_ids(CustomIdKind::Modal)));
            add_command_requests(
                &mut requests.discord_event_interaction_create.application_commands,
                &plugin_id,
                application_commands,
            );
        }
        else {
            assert(keys_unique(old(self).custom_ids(CustomIdKind::MessageComponent)));
            assert(keys_unique(old(self).custom_ids(CustomIdKind::Modal)));
            assert(self.custom_ids(CustomIdKind::MessageComponent) == old(self).custom_ids(
                CustomIdKind::MessageComponent,
            ));
            assert(self.custom_ids(CustomIdKind::Modal) == old(self).custom_ids(
                CustomIdKind::Modal,
            ));
        }
        add_job_requests(&mut requests.scheduled_jobs, &plugin_id, scheduled_jobs);
        if permissions.has(Capability::DependencyFunctions) && dependency_functions.len() > 0 {
            self.add_dependency_functions(plugin_id.clone(), dependency_functions);
        }
        assert forall|k: EventKind|
            #[trigger] self.subscribers(k) == recorded_subscribers(
                old(self).subscribers(k),
                plugin_id@,
                response.declares(k),
                permissions.spec_has(capability_for(k)),
            ) by {}
        proof {
            assert forall|k: EventKind, j: int|
                0 <= j < self.subscribers(k).len() implies self.loaded().contains(
                #[trigger] self.subscribers(k)[j],
            ) by {
                if j < old(self).subscribers(k).len() {
                    assert(old(self).subscribers(k)[j] == self.subscribers(k)[j]);
                    let x = self.subscribers(k)[j];
                    assert(old(self).loaded().contains(x));
                    let t = choose|t: int|
                        0 <= t < old(self).loaded().len() && old(self).loaded()[t] == x;
                    assert(self.loaded()[t] == x);
                } else {
                    assert(self.loaded()[old(self).loaded().len() as int] == plugin_id@);
                }
            }
            assert forall|k: CustomIdKind| keys_unique(#[trigger] self.custom_ids(k)) by {
                match k {
                    CustomIdKind::MessageComponent => {},
                    CustomIdKind::Modal => {},
                }
            }
            Self::lemma_record_keeps_deps(
                old(self).loaded(),
                dep_view(old(self).dependency_functions@),
                plugin_id@,
                permissions,
                response,
            );
            assert(dep_view(self.dependency_functions@) =~= dep_view(
                old(self).dependency_functions@,
            ) + deps_added(plugin_id@, permissions, response));
            assert(self.loaded() == old(self).loaded().push(plugin_id@));
            assert(deps_ok(self.loaded(), dep_view(self.dependency_functions@)));
        }
        warnings
    }

    fn add_dependency_functions(&mut self, plugin_id: String, functions: Vec<String>)
        ensures
            dep_view(final(self).dependency_functions@) == dep_view(
                old(self).dependency_functions@,
            ).push((plugin_id@, distinct(ids(functions@)))),
            final(self).plugins == old(self).plugins,
            final(self).discord_events == old(self).discord_events,
            final(self).scheduled_jobs == old(self).scheduled_jobs,
            forall|k: EventKind| #[trigger] final(self).subscribers(k) == old(self).subscribers(k),
            forall|k: CustomIdKind| #[trigger] final(self).custom_ids(k) == old(self).custom_ids(k),
    {
        let ghost before = self.dependency_functions@;
        let names = dedup_names(functions);
        self.dependency_functions.push((plugin_id, names));
        assert(dep_view(self.dependency_functions@) =~= dep_view(before).push(
            (self.dependency_functions@.last().0@, ids(names@)),
        ));
    }

    proof fn lemma_record_keeps_deps(
        old_loaded: Seq<Seq<char>>,
        dv0: Seq<(Seq<char>, Seq<Seq<char>>)>,
        id: Seq<char>,
        permissions: Permissions,
        response: RegistrationResponse,
    )
        requires
            deps_ok(old_loaded, dv0),
            !old_loaded.contains(id),
        ensures
            deps_ok(old_loaded.push(id), dv0 + deps_added(id, permissions, response)),
    {
        let added = deps_added(id, permissions, response);
        let dv = dv0 + added;
        let nl = old_loaded.push(id);
        lemma_distinct(ids(response.dependency_functions@));
        assert forall|x: Seq<char>| old_loaded.contains(x) implies nl.contains(x) by {
            let t = choose|t: int| 0 <= t < old_loaded.len() && old_loaded[t] == x;
            assert(nl[t] == x);
        }
        assert(nl[old_loaded.len() as int] == id);
        assert forall|i: int| 0 <= i < dv.len() implies #[trigger] entry_ok(nl, dv[i]) by {
            if i < dv0.len() {
                assert(dv[i] == dv0[i]);
                assert(entry_ok(old_loaded, dv0[i]));
                assert(nl.contains(dv[i].0));
            } else {
                assert(dv[i] == added[i - dv0.len()]);
                assert(dv[i].0 == id);
                assert(nl.contains(id));
                assert(dv[i].1 == distinct(ids(response.dependency_functions@)));
            }
        }
        if added.len() > 0 {
            assert(dep_keys(dv) =~= dep_keys(dv0).push(id));
            assert(!dep_keys(dv0).contains(id)) by {
                if dep_keys(dv0).contains(id) {
                    let t = choose|t: int| 0 <= t < dep_keys(dv0).len() && dep_keys(dv0)[t] == id;
                    assert(dep_keys(dv0)[t] == dv0[t].0);
                    assert(entry_ok(old_loaded, dv0[t]));
                }
            }
            let k = dep_keys(dv0);
            assert forall|a: int, b: int|
                0 <= a < k.len() + 1 && 0 <= b < k.len() + 1 && a != b implies k.push(id)[a]
                != k.push(id)[b] by {
                if a == k.len() {
                    assert(k.contains(k[b]));
                } else if b == k.len() {
                    assert(k.contains(k[a]));
                }
            }
            assert(k.push(id).no_duplicates());
            assert(dep_keys(dv).no_duplicates());
        } else {
            assert(dv =~= dv0);
        }
        assert(dep_keys(dv).no_duplicates());
        assert(deps_ok(nl, dv));
    }

    /// Records the server-assigned id of a registered application command;
    /// an entry with the same id is replaced, so one id leads to one
    /// (plugin id, internal id).
    pub fn confirm_application_command(
        &mut self,
        command_id: u64,
        plugin_id: String,
        internal_id: String,
    )
        requires
            old(self).wf(),
        ensures
            final(self).wf(),
            exists|i: int|
                0 <= i < final(self).commands().len() && final(self).commands()[i] == (
                    command_id,
                    plugin_id,
                    internal_id,
                ),
            forall|i: int|
                0 <= i < old(self).commands().len() && old(self).commands()[i].0 != command_id
                    ==> final(self).commands().contains(old(self).commands()[i]),
            forall|i: int|
                0 <= i < final(self).commands().len() && final(self).commands()[i].0 != command_id
                    ==> old(self).commands().contains(final(self).commands()[i]),
            final(self).plugins == old(self).plugins,
            forall|k: EventKind| final(self).subscribers(k) == old(self).subscribers(k),
            forall|k: CustomIdKind| final(self).custom_ids(k) == old(self).custom_ids(k),
            final(self).scheduled_jobs == old(self).scheduled_jobs,
            final(self).dependency_functions == old(self).dependency_functions,
    {
        let ghost c0 = self.commands();
        let n = self.discord_events.interaction_create.application_commands.len();
        let mut i: usize = 0;
        while i < n
            invariant
                n == c0.len(),
                i <= n,
                self == old(self),
                old(self).wf(),
                c0 == old(self).commands(),
                forall|j: int| 0 <= j < i ==> c0[j].0 != command_id,
            decreases n - i,
        {
            if self.discord_events.interaction_create.application_commands[i].0 == command_id {
                self.discord_events.interaction_create.application_commands.set(
                    i,
                    (command_id, plugin_id, internal_id),
                );
                proof {
                    let c = self.commands();
                    assert(c[i as int].0 == command_id);
                    assert(c0[i as int].0 == command_id);
                    assert(unique_command_ids(c0));
                    assert forall|a: int, b: int|
                        0 <= a < c.len() && 0 <= b < c.len() && c[a].0 == c[b].0 implies a
                        == b by {
                        if a != i {
                            assert(c[a] == c0[a]);
                        }
                        if b != i {
                            assert(c[b] == c0[b]);
                        }
                        if a != i && b == i {
                            assert(c0[a].0 == c0[i as int].0);
                        }
                        if a == i && b != i {
                            assert(c0[b].0 == c0[i as int].0);
                        }
                    }
                    assert forall|a: int|
                        0 <= a < c0.len() && c0[a].0 != command_id implies c.contains(c0[a]) by {
                        assert(c[a] == c0[a]);
                    }
                    assert forall|a: int|
                        0 <= a < c.len() && c[a].0 != command_id implies c0.contains(c[a]) by {
                        assert(c[a] == c0[a]);
                    }
                    assert forall|k: CustomIdKind|
                        self.custom_ids(k) == old(self).custom_ids(k) by {
                        match k {
                            CustomIdKind::MessageComponent => {},
                            CustomIdKind::Modal => {},
                        }
                    }
                    assert forall|k: EventKind| self.subscribers(k) == old(self).subscribers(k) by {}
                }
                return;
            }
            i = i + 1;
        }
        self.discord_events.interaction_create.application_commands.push(
            (command_id, plugin_id, internal_id),
        );
        proof {
            let c = self.commands();
            assert(c[n as int].0 == command_id);
            assert forall|a: int| 0 <= a < c0.len() && c0[a].0 != command_id implies c.contains(
                c0[a],
            ) by {
                assert(c[a] == c0[a]);
            }
            assert forall|a: int| 0 <= a < c.len() && c[a].0 != command_id implies c0.contains(
                c[a],
            ) by {
                assert(c[a] == c0[a]);
            }
            assert forall|k: CustomIdKind| self.custom_ids(k) == old(self).custom_ids(k) by {
                match k {
                    CustomIdKind::MessageComponent => {},
                    CustomIdKind::Modal => {},
                }
            }
            assert forall|k: EventKind| self.subscribers(k) == old(self).subscribers(k) by {}
        }
    }
}

/// `v` without the ids equal to `id`, order kept.
fn remove_id(v: &mut Vec<String>, id: &str)
    ensures
        ids(final(v)@) == without(ids(old(v)@), id@),
{
    let ghost orig = ids(v@);
    let mut kept: Vec<String> = Vec::new();
    let n = v.len();
    let mut i: usize = 0;
    while i < n
        invariant
            n == v@.len(),
            i <= n,
            ids(v@) == orig,
            ids(kept@) == without(orig.subrange(0, i as int), id@),
        decreases n - i,
    {
        proof {
            reveal(Seq::filter);
            let sub = orig.subrange(0, i + 1);
            assert(sub.drop_last() =~= orig.subrange(0, i as int));
        }
        if !crate::permissions::str_equals(v[i].as_str(), id) {
            let ghost before = ids(kept@);
            kept.push(v[i].clone());
            assert(ids(kept@) =~= before.push(v@[i as int]@));
        }
        i = i + 1;
    }
    assert(orig.subrange(0, n as int) =~= orig);
    *v = kept;
}

impl PluginRegistrations {
    /// Records the uuid the cron engine gave a plugin's timer; an entry with
    /// the same uuid is replaced.
    pub fn insert_scheduled_job(&mut self, uuid: u128, plugin_id: String, internal_id: String)
        requires
            old(self).wf(),
        ensures
            final(self).wf(),
            exists|i: int|
                0 <= i < final(self).scheduled_jobs@.len() && final(self).scheduled_jobs@[i] == (
                    uuid,
                    plugin_id,
                    internal_id,
                ),
            forall|i: int|
                0 <= i < old(self).scheduled_jobs@.len() && old(self).scheduled_jobs@[i].0 != uuid
                    ==> final(self).scheduled_jobs@.contains(old(self).scheduled_jobs@[i]),
            forall|i: int|
                0 <= i < final(self).scheduled_jobs@.len() && final(self).scheduled_jobs@[i].0
                    != uuid ==> old(self).scheduled_jobs@.contains(final(self).scheduled_jobs@[i]),
            final(self).plugins == old(self).plugins,
            final(self).discord_events == old(self).discord_events,
            final(self).dependency_functions == old(self).dependency_functions,
    {
        let ghost c0 = self.scheduled_jobs@;
        let n = self.scheduled_jobs.len();
        let mut i: usize = 0;
        while i < n
            invariant
                n == c0.len(),
                i <= n,
                self == old(self),
                old(self).wf(),
                c0 == old(self).scheduled_jobs@,
                forall|j: int| 0 <= j < i ==> c0[j].0 != uuid,
            decreases n - i,
        {
            if self.scheduled_jobs[i].0 == uuid {
                self.scheduled_jobs.set(i, (uuid, plugin_id, internal_id));
                proof {
                    let c = self.scheduled_jobs@;
                    assert(c[i as int].0 == uuid);
                    assert(c0[i as int].0 == uuid);
                    assert forall|a: int, b: int|
                        0 <= a < c.len() && 0 <= b < c.len() && c[a].0 == c[b].0 implies a
                        == b by {
                        if a != i {
                            assert(c[a] == c0[a]);
                        }
                        if b != i {
                            assert(c[b] == c0[b]);
                        }
                        if a != i && b == i {
                            assert(c0[a].0 == c0[i as int].0);
                        }
                        if a == i && b != i {
                            assert(c0[b].0 == c0[i as int].0);
                        }
                    }
                    assert forall|a: int| 0 <= a < c0.len() && c0[a].0 != uuid implies c.contains(
                        c0[a],
                    ) by {
                        assert(c[a] == c0[a]);
                    }
                    assert forall|a: int| 0 <= a < c.len() && c[a].0 != uuid implies c0.contains(
                        c[a],
                    ) by {
                        assert(c[a] == c0[a]);
                    }
                    assert forall|k: CustomIdKind| keys_unique(#[trigger] self.custom_ids(k)) by {
                        assert(self.custom_ids(k) == old(self).custom_ids(k));
                    }
                    assert forall|k: EventKind| self.subscribers(k) == old(self).subscribers(k) by {}
                }
                return;
            }
            i = i + 1;
        }
        self.scheduled_jobs.push((uuid, plugin_id, internal_id));
        proof {
            let c = self.scheduled_jobs@;
            assert(c[n as int].0 == uuid);
            assert forall|a: int| 0 <= a < c0.len() && c0[a].0 != uuid implies c.contains(c0[a]) by {
                assert(c[a] == c0[a]);
            }
            assert forall|a: int| 0 <= a < c.len() && c[a].0 != uuid implies c0.contains(c[a]) by {
                assert(c[a] == c0[a]);
            }
            assert forall|k: CustomIdKind| keys_unique(#[trigger] self.custom_ids(k)) by {
                assert(self.custom_ids(k) == old(self).custom_ids(k));
            }
            assert forall|k: EventKind| self.subscribers(k) == old(self).subscribers(k) by {}
            assert forall|a: int, b: int|
                0 <= a < c.len() && 0 <= b < c.len() && c[a].0 == c[b].0 implies a == b by {
                if a < n && b < n {
                    assert(c[a] == c0[a]);
                    assert(c[b] == c0[b]);
                }
                if a < n {
                    assert(c[a] == c0[a]);
                }
                if b < n {
                    assert(c[b] == c0[b]);
                }
            }
        }
    }

    /// The (plugin id, internal id) that application command `command_id` leads to.
    pub fn command_target(&self, command_id: u64) -> (r: Option<(String, String)>)
        ensures
            match r {
                Some(t) => exists|i: int|
                    0 <= i < self.commands().len() && self.commands()[i] == (command_id, t.0, t.1),
                None => forall|i: int|
                    0 <= i < self.commands().len() ==> self.commands()[i].0 != command_id,
            },
    {
        let n = self.discord_events.interaction_create.application_commands.len();
        let mut i: usize = 0;
        while i < n
            invariant
                n == self.commands().len(),
                i <= n,
                forall|j: int| 0 <= j < i ==> self.commands()[j].0 != command_id,
            decreases n - i,
        {
            let e = &self.discord_events.interaction_create.application_commands[i];
            if e.0 == command_id {
                return Some((e.1.clone(), e.2.clone()));
            }
            i = i + 1;
        }
        None
    }

    /// The (plugin id, internal id) that timer `uuid` leads to.
    pub fn job_target(&self, uuid: u128) -> (r: Option<(String, String)>)
        ensures
            match r {
                Some(t) => exists|i: int|
                    0 <= i < self.scheduled_jobs@.len() && self.scheduled_jobs@[i] == (uuid, t.0, t.1),
                None => forall|i: int|
                    0 <= i < self.scheduled_jobs@.len() ==> self.scheduled_jobs@[i].0 != uuid,
            },
    {
        let n = self.scheduled_jobs.len();
        let mut i: usize = 0;
        while i < n
            invariant
                n == self.scheduled_jobs@.len(),
                i <= n,
                forall|j: int| 0 <= j < i ==> self.scheduled_jobs@[j].0 != uuid,
            decreases n - i,
        {
            let e = &self.scheduled_jobs[i];
            if e.0 == uuid {
                return Some((e.1.clone(), e.2.clone()));
            }
            i = i + 1;
        }
        None
    }

    /// Takes plugin `id` out of dispatch: it is no longer loaded and leaves
    /// every subscriber list; other entries lead to it no more than to any
    /// unloaded plugin.
    pub fn remove_plugin(&mut self, id: &str)
        requires
            old(self).wf(),
        ensures
            final(self).wf(),
            final(self).loaded() == without(old(self).loaded(), id@),
            forall|k: EventKind|
                #[trigger] final(self).subscribers(k) == without(old(self).subscribers(k), id@),
            final(self).commands() == old(self).commands(),
            forall|k: CustomIdKind| #[trigger] final(self).custom_ids(k) == old(self).custom_ids(k),
            final(self).scheduled_jobs == old(self).scheduled_jobs,
            dep_view(final(self).dependency_functions@) == drop_key(
                dep_view(old(self).dependency_functions@),
                id@,
            ),
    {
        remove_id(&mut self.plugins, id);
        remove_id(&mut self.discord_events.message_create, id);
        remove_id(&mut self.discord_events.thread_create, id);
        remove_id(&mut self.discord_events.thread_delete, id);
        remove_id(&mut self.discord_events.thread_list_sync, id);
        remove_id(&mut self.discord_events.thread_member_update, id);
        remove_id(&mut self.discord_events.thread_members_update, id);
        remove_id(&mut self.discord_events.thread_update, id);
        remove_deps(&mut self.dependency_functions, id);
        proof {
            let dv = dep_view(old(self).dependency_functions@);
            let nd = dep_view(self.dependency_functions@);
            lemma_drop_key(dv, id@);
            lemma_without_keeps_distinct(dep_keys(dv), id@);
            assert forall|i: int| 0 <= i < nd.len() implies #[trigger] entry_ok(
                self.loaded(),
                nd[i],
            ) by {
                let e = nd[i];
                assert(dv.contains(e));
                let t = choose|t: int| 0 <= t < dv.len() && dv[t] == e;
                assert(entry_ok(old(self).loaded(), dv[t]));
                assert(dep_keys(nd)[i] == e.0);
                lemma_without_members(dep_keys(dv), id@, e.0);
                assert(dep_keys(nd).contains(e.0));
                lemma_without_members(old(self).loaded(), id@, e.0);
            }
            assert forall|k: CustomIdKind| #[trigger] self.custom_ids(k) == old(self).custom_ids(
                k,
            ) by {}
            assert forall|k: EventKind|
                #[trigger] self.subscribers(k) == without(old(self).subscribers(k), id@) by {}
            lemma_without_keeps_distinct(old(self).loaded(), id@);
            assert forall|k: EventKind, j: int|
                0 <= j < self.subscribers(k).len() implies self.loaded().contains(
                #[trigger] self.subscribers(k)[j],
            ) by {
                let x = self.subscribers(k)[j];
                lemma_without_members(old(self).subscribers(k), id@, x);
                assert(self.subscribers(k).contains(x));
                let t = choose|t: int|
                    0 <= t < old(self).subscribers(k).len() && old(self).subscribers(k)[t] == x;
                assert(old(self).loaded().contains(x));
                lemma_without_members(old(self).loaded(), id@, x);
            }
        }
    }
}

proof fn lemma_drop_key(d: Seq<(Seq<char>, Seq<Seq<char>>)>, id: Seq<char>)
    ensures
        dep_keys(drop_key(d, id)) == without(dep_keys(d), id),
        forall|i: int|
            0 <= i < drop_key(d, id).len() ==> d.contains(#[trigger] drop_key(d, id)[i]),
    decreases d.len(),
{
    reveal(Seq::filter);
    if d.len() > 0 {
        let d0 = d.drop_last();
        lemma_drop_key(d0, id);
        assert(dep_keys(d).drop_last() =~= dep_keys(d0));
        assert(dep_keys(d).last() == d.last().0);
        let r = drop_key(d0, id);
        if d.last().0 != id {
            assert(dep_keys(r.push(d.last())) =~= dep_keys(r).push(d.last().0));
        }
        assert forall|i: int| 0 <= i < drop_key(d, id).len() implies d.contains(
            #[trigger] drop_key(d, id)[i],
        ) by {
            if i < r.len() {
                let x = r[i];
                assert(d0.contains(x));
                let t = choose|t: int| 0 <= t < d0.len() && d0[t] == x;
                assert(d[t] == x);
                assert(drop_key(d, id)[i] == x);
            } else {
                assert(drop_key(d, id)[i] == d.last());
                assert(d[d.len() - 1] == d.last());
            }
        }
    }
}

fn remove_deps(v: &mut Vec<(String, Vec<String>)>, id: &str)
    ensures
        dep_view(final(v)@) == drop_key(dep_view(old(v)@), id@),
{
    let ghost orig = dep_view(v@);
    let mut out: Vec<(String, Vec<String>)> = Vec::new();
    let n = v.len();
    let mut i: usize = 0;
    while i < n
        invariant
            orig.len() == n,
            i <= n,
            v@.len() == n - i,
            dep_view(v@) == orig.subrange(i as int, n as int),
            dep_view(out@) == drop_key(orig.subrange(0, i as int), id@),
        decreases n - i,
    {
        let ghost vb = v@;
        let e = v.remove(0);
        assert(dep_view(v@) =~= dep_view(vb).subrange(1, vb.len() as int));
        assert(dep_view(v@) =~= orig.subrange(i + 1, n as int));
        assert(orig.subrange(0, i + 1).drop_last() =~= orig.subrange(0, i as int));
        assert(dep_view(vb)[0] == orig[i as int]);
        assert(orig.subrange(0, i + 1).last() == (e.0@, ids(e.1@)));
        if !crate::permissions::str_equals(e.0.as_str(), id) {
            let ghost b = dep_view(out@);
            out.push(e);
            assert(dep_view(out@) =~= b.push(orig[i as int]));
        }
        i = i + 1;
    }
    assert(orig.subrange(0, n as int) =~= orig);
    *v = out;
}

/// What is in `without(s, id)`: the members of `s` other than `id`.
proof fn lemma_without_members(s: Seq<Seq<char>>, id: Seq<char>, x: Seq<char>)
    ensures
        without(s, id).contains(x) == (s.contains(x) && x != id),
    decreases s.len(),
{
    reveal(Seq::filter);
    if s.len() > 0 {
        lemma_without_members(s.drop_last(), id, x);
        let w = without(s.drop_last(), id);
        if s.drop_last().contains(x) {
            let t = choose|t: int| 0 <= t < s.drop_last().len() && s.drop_last()[t] == x;
            assert(s[t] == x);
        }
        if s.contains(x) && s.last() != x {
            let t = choose|t: int| 0 <= t < s.len() && s[t] == x;
            assert(t < s.len() - 1);
            assert(s.drop_last()[t] == x);
        }
        if s.last() != id {
            assert(without(s, id) == w.push(s.last()));
            if w.push(s.last()).contains(x) && x != s.last() {
                let t = choose|t: int| 0 <= t < w.len() + 1 && w.push(s.last())[t] == x;
                assert(w[t] == x);
            }
            if x == s.last() {
                assert(w.push(s.last())[w.len() as int] == x);
            } else if w.contains(x) {
                let t = choose|t: int| 0 <= t < w.len() && w[t] == x;
                assert(w.push(s.last())[t] == x);
            }
        }
    }
}

/// `without` keeps a list free of repeats.
proof fn lemma_without_keeps_distinct(s: Seq<Seq<char>>, id: Seq<char>)
    requires
        s.no_duplicates(),
    ensures
        without(s, id).no_duplicates(),
    decreases s.len(),
{
    reveal(Seq::filter);
    if s.len() > 0 {
        let d = s.drop_last();
        assert(d.no_duplicates());
        lemma_without_keeps_distinct(d, id);
        if s.last() != id {
            let w = without(d, id);
            lemma_without_members(d, id, s.last());
            assert(!d.contains(s.last())) by {
                if d.contains(s.last()) {
                    let t = choose|t: int| 0 <= t < d.len() && d[t] == s.last();
                    assert(s[t] == s[s.len() - 1]);
                }
            }
            assert forall|a: int, b: int|
                0 <= a < w.len() + 1 && 0 <= b < w.len() + 1 && a != b implies w.push(s.last())[a]
                != w.push(s.last())[b] by {
                if a == w.len() {
                    assert(w.contains(w[b]));
                } else if b == w.len() {
                    assert(w.contains(w[a]));
                }
            }
        }
    }
}

/// Every application command id leads to exactly one (plugin id, internal id).
pub proof fn lemma_command_id_identifies_one_registration(
    store: PluginRegistrations,
    i: int,
    j: int,
)
    requires
        store.wf(),
        0 <= i < store.commands().len(),
        0 <= j < store.commands().len(),
        store.commands()[i].0 == store.commands()[j].0,
    ensures
        store.commands()[i] == store.commands()[j],
{
}

/// A plugin that declares no subscription is on no subscriber list after it
/// is recorded.
pub proof fn lemma_no_declaration_no_subscription(
    before: PluginRegistrations,
    id: Seq<char>,
    response: RegistrationResponse,
    permissions: Permissions,
    k: EventKind,
)
    requires
        before.wf(),
        !before.loaded().contains(id),
        !response.declares(k),
    ensures
        !recorded_subscribers(
            before.subscribers(k),
            id,
            response.declares(k),
            permissions.spec_has(capability_for(k)),
        ).contains(id),
{
    if before.subscribers(k).contains(id) {
        let t = choose|t: int| 0 <= t < before.subscribers(k).len() && before.subscribers(k)[t] == id;
        assert(before.loaded().contains(before.subscribers(k)[t]));
    }
}

/// Every subscriber of every event kind is a loaded plugin.
pub proof fn lemma_subscribers_are_loaded(store: PluginRegistrations, k: EventKind, x: Seq<char>)
    requires
        store.wf(),
        store.subscribers(k).contains(x),
    ensures
        store.loaded().contains(x),
{
    let t = choose|t: int| 0 <= t < store.subscribers(k).len() && store.subscribers(k)[t] == x;
    assert(store.loaded().contains(store.subscribers(k)[t]));
}

/// One (plugin id, internal id, cron expression) per cron expression of
/// each timer request, in order.
pub open spec fn job_crons(jobs: Seq<PluginRegistrationRequestsScheduledJob>) -> Seq<
    (Seq<char>, Seq<char>, Seq<char>),
>
    decreases jobs.len(),
{
    if jobs.len() == 0 {
        Seq::empty()
    } else {
        let j = jobs.last();
        job_crons(jobs.drop_last()) + j.crons@.map_values(
            |c: String| (j.plugin_id@, j.id@, c@),
        )
    }
}

/// The timers to hand to the cron engine: one per cron expression.
pub fn job_registrations(jobs: &Vec<PluginRegistrationRequestsScheduledJob>) -> (r: Vec<
    (String, String, String),
>)
    ensures
        r@.map_values(|t: (String, String, String)| (t.0@, t.1@, t.2@)) == job_crons(jobs@),
{
    let mut out: Vec<(String, String, String)> = Vec::new();
    let n = jobs.len();
    let mut i: usize = 0;
    while i < n
        invariant
            n == jobs@.len(),
            i <= n,
            out@.map_values(|t: (String, String, String)| (t.0@, t.1@, t.2@)) == job_crons(
                jobs@.subrange(0, i as int),
            ),
        decreases n - i,
    {
        let job = &jobs[i];
        let ghost start = out@.map_values(|t: (String, String, String)| (t.0@, t.1@, t.2@));
        let m = job.crons.len();
        let mut c: usize = 0;
        while c < m
            invariant
                n == jobs@.len(),
                i < n,
                *job == jobs@[i as int],
                m == job.crons@.len(),
                c <= m,
                out@.map_values(|t: (String, String, String)| (t.0@, t.1@, t.2@)) == start
                    + job.crons@.subrange(0, c as int).map_values(
                    |x: String| (job.plugin_id@, job.id@, x@),
                ),
            decreases m - c,
        {
            let ghost before = out@;
            out.push((job.plugin_id.clone(), job.id.clone(), job.crons[c].clone()));
            assert(out@.map_values(|t: (String, String, String)| (t.0@, t.1@, t.2@)) =~= before.map_values(
                |t: (String, String, String)| (t.0@, t.1@, t.2@),
            ).push((job.plugin_id@, job.id@, job.crons@[c as int]@)));
            assert(job.crons@.subrange(0, c + 1).map_values(
                |x: String| (job.plugin_id@, job.id@, x@),
            ) =~= job.crons@.subrange(0, c as int).map_values(
                |x: String| (job.plugin_id@, job.id@, x@),
            ).push((job.plugin_id@, job.id@, job.crons@[c as int]@)));
            c = c + 1;
        }
        assert(job.crons@.subrange(0, m as int) =~= job.crons@);
        assert(jobs@.subrange(0, i + 1).drop_last() =~= jobs@.subrange(0, i as int));
        i = i + 1;
    }
    assert(jobs@.subrange(0, n as int) =~= jobs@);
    out
}

/// What initializing one plugin gave: its registration response, or `None`
/// where compiling, instantiating or initializing it failed.
pub struct InitializationOutcome {
    pub plugin_id: String,
    pub permissions: Permissions,
    pub response: Option<RegistrationResponse>,
}

/// The loaded plugins after the outcomes `outs`, in order: each plugin whose
/// initialization succeeded and that is not loaded yet is added.
pub open spec fn loaded_after(before: Seq<Seq<char>>, outs: Seq<InitializationOutcome>) -> Seq<
    Seq<char>,
>
    decreases outs.len(),
{
    if outs.len() == 0 {
        before
    } else {
        let acc = loaded_after(before, outs.drop_last());
        let o = outs.last();
        if o.response is Some && !acc.contains(o.plugin_id@) {
            acc.push(o.plugin_id@)
        } else {
            acc
        }
    }
}

/// The response of an outcome that has one.
pub open spec fn resp(o: InitializationOutcome) -> RegistrationResponse {
    o.response->0
}

/// The outcomes the pass records, in order: those whose initialization
/// succeeded, each plugin id once.
pub open spec fn recorded_outcomes(
    before: Seq<Seq<char>>,
    outs: Seq<InitializationOutcome>,
) -> Seq<InitializationOutcome>
    decreases outs.len(),
{
    if outs.len() == 0 {
        Seq::empty()
    } else {
        let rs = recorded_outcomes(before, outs.drop_last());
        let o = outs.last();
        if o.response is Some && !loaded_after(before, outs.drop_last()).contains(o.plugin_id@) {
            rs.push(o)
        } else {
            rs
        }
    }
}

/// A subscriber list after the recorded outcomes `recs`.
pub open spec fn subs_after(s: Seq<Seq<char>>, recs: Seq<InitializationOutcome>, k: EventKind) -> Seq<
    Seq<char>,
>
    decreases recs.len(),
{
    if recs.len() == 0 {
        s
    } else {
        let o = recs.last();
        recorded_subscribers(
            subs_after(s, recs.drop_last(), k),
            o.plugin_id@,
            resp(o).declares(k),
            o.permissions.spec_has(capability_for(k)),
        )
    }
}

/// The custom ids of a kind that a response declares.
pub open spec fn custom_keys(r: RegistrationResponse, kind: CustomIdKind) -> Seq<Seq<char>> {
    match kind {
        CustomIdKind::MessageComponent => ids(r.message_components@),
        CustomIdKind::Modal => ids(r.modals@),
    }
}

/// A custom-id table after the recorded outcomes `recs`.
pub open spec fn customs_after(
    m: Seq<(Seq<char>, Seq<char>)>,
    recs: Seq<InitializationOutcome>,
    kind: CustomIdKind,
) -> Seq<(Seq<char>, Seq<char>)>
    decreases recs.len(),
{
    if recs.len() == 0 {
        m
    } else {
        let o = recs.last();
        let prev = customs_after(m, recs.drop_last(), kind);
        if o.permissions.spec_has(Capability::InteractionCreate) {
            put_all(prev, custom_keys(resp(o), kind), o.plugin_id@)
        } else {
            prev
        }
    }
}

/// The overwritten custom ids, message components before modals for each
/// recorded outcome in turn.
pub open spec fn overwritten_after(
    components: Seq<(Seq<char>, Seq<char>)>,
    modals: Seq<(Seq<char>, Seq<char>)>,
    recs: Seq<InitializationOutcome>,
) -> Seq<Seq<char>>
    decreases recs.len(),
{
    if recs.len() == 0 {
        Seq::empty()
    } else {
        let d = recs.drop_last();
        let o = recs.last();
        overwritten_after(components, modals, d) + if o.permissions.spec_has(
            Capability::InteractionCreate,
        ) {
            collisions(
                customs_after(components, d, CustomIdKind::MessageComponent),
                custom_keys(resp(o), CustomIdKind::MessageComponent),
                o.plugin_id@,
            ) + collisions(
                customs_after(modals, d, CustomIdKind::Modal),
                custom_keys(resp(o), CustomIdKind::Modal),
                o.plugin_id@,
            )
        } else {
            Seq::empty()
        }
    }
}

/// The application-command requests of the recorded outcomes, concatenated in order.
pub open spec fn commands_after(recs: Seq<InitializationOutcome>) -> Seq<
    (Seq<char>, Seq<char>, Seq<u8>),
>
    decreases recs.len(),
{
    if recs.len() == 0 {
        Seq::empty()
    } else {
        let o = recs.last();
        commands_after(recs.drop_last()) + commands_added(o.plugin_id@, o.permissions, resp(o))
    }
}

/// The timer requests of the recorded outcomes, concatenated in order.
pub open spec fn jobs_after(recs: Seq<InitializationOutcome>) -> Seq<
    (Seq<char>, Seq<char>, Seq<Seq<char>>),
>
    decreases recs.len(),
{
    if recs.len() == 0 {
        Seq::empty()
    } else {
        let o = recs.last();
        jobs_after(recs.drop_last()) + jobs_added(o.plugin_id@, resp(o))
    }
}

/// The dependency-function entries after the recorded outcomes.
pub open spec fn deps_after(
    d: Seq<(Seq<char>, Seq<Seq<char>>)>,
    recs: Seq<InitializationOutcome>,
) -> Seq<(Seq<char>, Seq<Seq<char>>)>
    decreases recs.len(),
{
    if recs.len() == 0 {
        d
    } else {
        let o = recs.last();
        deps_after(d, recs.drop_last()) + deps_added(o.plugin_id@, o.permissions, resp(o))
    }
}

/// The initialization pass over the outcomes in configuration order. It
/// records each plugin whose initialization succeeded, as `record_plugin`
/// does, with a repeated id recorded once. It returns the requests for the
/// chat-service client and the cron engine, gathered in that order, and the
/// overwritten custom ids.
pub fn initialize_registrations(
    store: &mut PluginRegistrations,
    outcomes: Vec<InitializationOutcome>,
) -> (r: (PluginRegistrationRequests, Vec<String>))
    requires
        old(store).wf(),
    ensures
        final(store).wf(),
        final(store).loaded() == loaded_after(old(store).loaded(), outcomes@),
        forall|k: EventKind, x: Seq<char>|
            #[trigger] final(store).subscribers(k).contains(x) ==> final(store).loaded().contains(x),
        ({
            let recs = recorded_outcomes(old(store).loaded(), outcomes@);
            &&& forall|k: EventKind|
                #[trigger] final(store).subscribers(k) == subs_after(
                    old(store).subscribers(k),
                    recs,
                    k,
                )
            &&& forall|kind: CustomIdKind|
                #[trigger] final(store).custom_ids(kind) == customs_after(
                    old(store).custom_ids(kind),
                    recs,
                    kind,
                )
            &&& ids(r.1@) == overwritten_after(
                old(store).custom_ids(CustomIdKind::MessageComponent),
                old(store).custom_ids(CustomIdKind::Modal),
                recs,
            )
            &&& cmd_view(r.0.discord_event_interaction_create.application_commands@)
                == commands_after(recs)
            &&& job_view(r.0.scheduled_jobs@) == jobs_after(recs)
            &&& dep_view(final(store).dependency_functions@) == deps_after(
                dep_view(old(store).dependency_functions@),
                recs,
            )
        }),
        r.0.discord_event_interaction_create.message_component@.len() == 0,
        r.0.discord_event_interaction_create.modals@.len() == 0,
        final(store).commands() == old(store).commands(),
        final(store).scheduled_jobs == old(store).scheduled_jobs,
{
    let ghost orig = outcomes@;
    let ghost l0 = store.loaded();
    let ghost mc0 = store.custom_ids(CustomIdKind::MessageComponent);
    let ghost md0 = store.custom_ids(CustomIdKind::Modal);
    let ghost dv0 = dep_view(store.dependency_functions@);
    let mut requests = PluginRegistrationRequests::new();
    let mut overwritten: Vec<String> = Vec::new();
    let mut rest = outcomes;
    let n = rest.len();
    let mut i: usize = 0;
    while i < n
        invariant
            n == orig.len(),
            i <= n,
            rest@ == orig.subrange(i as int, n as int),
            store.wf(),
            l0 == old(store).loaded(),
            mc0 == old(store).custom_ids(CustomIdKind::MessageComponent),
            md0 == old(store).custom_ids(CustomIdKind::Modal),
            dv0 == dep_view(old(store).dependency_functions@),
            store.loaded() == loaded_after(l0, orig.subrange(0, i as int)),
            ({
                let recs = recorded_outcomes(l0, orig.subrange(0, i as int));
                &&& forall|k: EventKind|
                    #[trigger] store.subscribers(k) == subs_after(old(store).subscribers(k), recs, k)
                &&& forall|kind: CustomIdKind|
                    #[trigger] store.custom_ids(kind) == customs_after(
                        old(store).custom_ids(kind),
                        recs,
                        kind,
                    )
                &&& ids(overwritten@) == overwritten_after(mc0, md0, recs)
                &&& cmd_view(requests.discord_event_interaction_create.application_commands@)
                    == commands_after(recs)
                &&& job_view(requests.scheduled_jobs@) == jobs_after(recs)
                &&& dep_view(store.dependency_functions@) == deps_after(dv0, recs)
            }),
            requests.discord_event_interaction_create.message_component@.len() == 0,
            requests.discord_event_interaction_create.modals@.len() == 0,
            store.commands() == old(store).commands(),
            store.scheduled_jobs == old(store).scheduled_jobs,
        decreases n - i,
    {
        let outcome = rest.remove(0);
        let ghost o = outcome;
        let ghost prefix = orig.subrange(0, i as int);
        let ghost recs = recorded_outcomes(l0, prefix);
        assert(rest@ =~= orig.subrange(i + 1, n as int));
        assert(orig.subrange(0, i + 1).drop_last() =~= prefix);
        assert(orig.subrange(0, i + 1).last() == o);
        let InitializationOutcome { plugin_id, permissions, response } = outcome;
        match response {
            Some(response) => {
                if !store.is_loaded(plugin_id.as_str()) {
                    let ghost before_mc = store.custom_ids(CustomIdKind::MessageComponent);
                    let ghost before_md = store.custom_ids(CustomIdKind::Modal);
                    let ghost before_w = ids(overwritten@);
                    let mut w = store.record_plugin(plugin_id, permissions, response, &mut requests);
                    let ghost wv = w@;
                    overwritten.append(&mut w);
                    proof {
                        let recs2 = recs.push(o);
                        assert(recs2.drop_last() =~= recs);
                        assert(recs2.last() == o);
                        assert(resp(o) == response);
                        assert(ids(overwritten@) =~= before_w + ids(wv));
                        if !permissions.spec_has(Capability::InteractionCreate) {
                            assert(ids(wv) =~= Seq::<Seq<char>>::empty());
                        }
                        assert forall|kind: CustomIdKind|
                            #[trigger] store.custom_ids(kind) == customs_after(
                                old(store).custom_ids(kind),
                                recs2,
                                kind,
                            ) by {
                            match kind {
                                CustomIdKind::MessageComponent => {},
                                CustomIdKind::Modal => {},
                            }
                        }
                        assert(ids(overwritten@) =~= overwritten_after(mc0, md0, recs2));
                        assert forall|k: EventKind|
                            #[trigger] store.subscribers(k) == subs_after(
                                old(store).subscribers(k),
                                recs2,
                                k,
                            ) by {}
                    }
                }
            },
            None => {},
        }
        i = i + 1;
    }
    assert(orig.subrange(0, n as int) =~= orig);
    proof {
        assert forall|k: EventKind, x: Seq<char>|
            #[trigger] store.subscribers(k).contains(x) implies store.loaded().contains(x) by {
            lemma_subscribers_are_loaded(*store, k, x);
        }
    }
    (requests, overwritten)
}
/// After the pass, a plugin that declares no subscription to `k` in any of
/// its recorded outcomes is not on the subscriber list of `k`, if it was not
/// there before.
pub proof fn lemma_pass_no_declaration_no_subscription(
    s: Seq<Seq<char>>,
    recs: Seq<InitializationOutcome>,
    k: EventKind,
    id: Seq<char>,
)
    requires
        !s.contains(id),
        forall|i: int|
            0 <= i < recs.len() && (#[trigger] recs[i]).plugin_id@ == id ==> !resp(
                recs[i],
            ).declares(k),
    ensures
        !subs_after(s, recs, k).contains(id),
    decreases recs.len(),
{
    if recs.len() > 0 {
        let d = recs.drop_last();
        assert forall|i: int|
            0 <= i < d.len() && (#[trigger] d[i]).plugin_id@ == id implies !resp(d[i]).declares(
            k,
        ) by {
            assert(recs[i] == d[i]);
        }
        lemma_pass_no_declaration_no_subscription(s, d, k, id);
        let o = recs.last();
        assert(recs[recs.len() - 1] == o);
        let prev = subs_after(s, d, k);
        if resp(o).declares(k) && o.permissions.spec_has(capability_for(k)) {
            assert(o.plugin_id@ != id);
            if prev.push(o.plugin_id@).contains(id) {
                let t = choose|t: int| 0 <= t < prev.len() + 1 && prev.push(o.plugin_id@)[t] == id;
                assert(prev[t] == id);
            }
        }
    }
}

/// The pass records only outcomes whose initialization succeeded.
pub proof fn lemma_recorded_outcomes_succeeded(
    before: Seq<Seq<char>>,
    outs: Seq<InitializationOutcome>,
)
    ensures
        forall|i: int|
            0 <= i < recorded_outcomes(before, outs).len() ==> {
                let o = #[trigger] recorded_outcomes(before, outs)[i];
                &&& o.response is Some
                &&& outs.contains(o)
            },
    decreases outs.len(),
{
    if outs.len() > 0 {
        let d = outs.drop_last();
        lemma_recorded_outcomes_succeeded(before, d);
        let rs = recorded_outcomes(before, d);
        assert forall|i: int| 0 <= i < recorded_outcomes(before, outs).len() implies {
            let o = #[trigger] recorded_outcomes(before, outs)[i];
            &&& o.response is Some
            &&& outs.contains(o)
        } by {
            let o = recorded_outcomes(before, outs)[i];
            if i < rs.len() {
                assert(o == rs[i]);
                assert(d.contains(o));
                let t = choose|t: int| 0 <= t < d.len() && d[t] == o;
                assert(outs[t] == o);
            } else {
                assert(o == outs.last());
                assert(outs[outs.len() - 1] == o);
            }
        }
    }
}

/// Every forwarded request belongs to a recorded outcome's plugin.
pub proof fn lemma_requests_come_from_recorded(recs: Seq<InitializationOutcome>)
    ensures
        forall|j: int|
            0 <= j < commands_after(recs).len() ==> exists|i: int|
                0 <= i < recs.len() && recs[i].plugin_id@ == (#[trigger] commands_after(recs)[j]).0,
        forall|j: int|
            0 <= j < jobs_after(recs).len() ==> exists|i: int|
                0 <= i < recs.len() && recs[i].plugin_id@ == (#[trigger] jobs_after(recs)[j]).0,
    decreases recs.len(),
{
    if recs.len() > 0 {
        let d = recs.drop_last();
        let o = recs.last();
        lemma_requests_come_from_recorded(d);
        let c0 = commands_after(d);
        let ca = commands_added(o.plugin_id@, o.permissions, resp(o));
        assert forall|j: int| 0 <= j < commands_after(recs).len() implies exists|i: int|
            0 <= i < recs.len() && recs[i].plugin_id@ == (#[trigger] commands_after(recs)[j]).0 by {
            if j < c0.len() {
                assert(commands_after(recs)[j] == c0[j]);
                let i = choose|i: int| 0 <= i < d.len() && d[i].plugin_id@ == c0[j].0;
                assert(recs[i] == d[i]);
            } else {
                assert(commands_after(recs)[j] == ca[j - c0.len()]);
                assert(recs[recs.len() - 1] == o);
            }
        }
        let j0 = jobs_after(d);
        let ja = jobs_added(o.plugin_id@, resp(o));
        assert forall|j: int| 0 <= j < jobs_after(recs).len() implies exists|i: int|
            0 <= i < recs.len() && recs[i].plugin_id@ == (#[trigger] jobs_after(recs)[j]).0 by {
            if j < j0.len() {
                assert(jobs_after(recs)[j] == j0[j]);
                let i = choose|i: int| 0 <= i < d.len() && d[i].plugin_id@ == j0[j].0;
                assert(recs[i] == d[i]);
            } else {
                assert(jobs_after(recs)[j] == ja[j - j0.len()]);
                assert(recs[recs.len() - 1] == o);
            }
        }
    }
}

/// A plugin whose initialization failed every time it was tried is not
/// loaded after the pass (if it was not before), and none of the requests
/// the pass forwards is its.
pub proof fn lemma_failed_plugin_forwards_nothing(
    before: Seq<Seq<char>>,
    outs: Seq<InitializationOutcome>,
    id: Seq<char>,
)
    requires
        !before.contains(id),
        forall|i: int|
            0 <= i < outs.len() && (#[trigger] outs[i]).plugin_id@ == id ==> outs[i].response is None,
    ensures
        !loaded_after(before, outs).contains(id),
        forall|j: int|
            0 <= j < commands_after(recorded_outcomes(before, outs)).len() ==> (
            #[trigger] commands_after(recorded_outcomes(before, outs))[j]).0 != id,
        forall|j: int|
            0 <= j < jobs_after(recorded_outcomes(before, outs)).len() ==> (
            #[trigger] jobs_after(recorded_outcomes(before, outs))[j]).0 != id,
    decreases outs.len(),
{
    let recs = recorded_outcomes(before, outs);
    lemma_recorded_outcomes_succeeded(before, outs);
    lemma_requests_come_from_recorded(recs);
    assert forall|i: int| 0 <= i < recs.len() implies (#[trigger] recs[i]).plugin_id@ != id by {
        let o = recs[i];
        let t = choose|t: int| 0 <= t < outs.len() && outs[t] == o;
        assert(outs[t].response is Some);
    }
    if outs.len() > 0 {
        let d = outs.drop_last();
        assert forall|i: int|
            0 <= i < d.len() && (#[trigger] d[i]).plugin_id@ == id implies d[i].response is None by {
            assert(outs[i] == d[i]);
        }
        lemma_failed_plugin_forwards_nothing(before, d, id);
        let acc = loaded_after(before, d);
        let o = outs.last();
        assert(outs[outs.len() - 1] == o);
        if o.response is Some && !acc.contains(o.plugin_id@) {
            assert(o.plugin_id@ != id);
            if acc.push(o.plugin_id@).contains(id) {
                let t = choose|t: int| 0 <= t < acc.len() + 1 && acc.push(o.plugin_id@)[t] == id;
                assert(acc[t] == id);
            }
        }
    }
}

} // verus!
