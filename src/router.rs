//! Routed messages: fan-out of chat-service events to subscribers, routing
//! of interactions and timers, and the event router's per-message decision.

use vstd::prelude::*;

use crate::registrations::{
    CustomIdKind, EventKind, PluginRegistrations, get, ids, without,
};

verus! {

/// An event for a plugin: its kind and the JSON payload, serialized once.
pub enum DiscordEvents {
    MessageCreate(Vec<u8>),
    InteractionCreate(Vec<u8>),
    ThreadCreate(Vec<u8>),
    ThreadDelete(Vec<u8>),
    ThreadListSync(Vec<u8>),
    ThreadMemberUpdate(Vec<u8>),
    ThreadMembersUpdate(Vec<u8>),
    ThreadUpdate(Vec<u8>),
}

/// A message on the routed channel: call a plugin's event handler or one of
/// its timers.
pub enum RuntimeMessages {
    CallDiscordEvent(String, DiscordEvents),
    CallScheduledJob(String, String),
}

impl RuntimeMessages {
    /// The plugin the message is for.
    pub open spec fn target(&self) -> Seq<char> {
        match self {
            RuntimeMessages::CallDiscordEvent(p, _) => p@,
            RuntimeMessages::CallScheduledJob(p, _) => p@,
        }
    }
}

/// Whether `e` is the event of kind `k` carrying `payload`.
pub open spec fn is_event(e: DiscordEvents, k: EventKind, payload: Seq<u8>) -> bool {
    match e {
        DiscordEvents::MessageCreate(p) => k == EventKind::MessageCreate && p@ == payload,
        DiscordEvents::ThreadCreate(p) => k == EventKind::ThreadCreate && p@ == payload,
        DiscordEvents::ThreadDelete(p) => k == EventKind::ThreadDelete && p@ == payload,
        DiscordEvents::ThreadListSync(p) => k == EventKind::ThreadListSync && p@ == payload,
        DiscordEvents::ThreadMemberUpdate(p) => k == EventKind::ThreadMemberUpdate && p@ == payload,
        DiscordEvents::ThreadMembersUpdate(p) => k == EventKind::ThreadMembersUpdate && p@
            == payload,
        DiscordEvents::ThreadUpdate(p) => k == EventKind::ThreadUpdate && p@ == payload,
        DiscordEvents::InteractionCreate(_) => false,
    }
}

fn copy_bytes(b: &Vec<u8>) -> (r: Vec<u8>)
    ensures
        r@ == b@,
{
    let r = b.clone();
    assert(r@ =~= b@);
    r
}

/// The event of kind `k` carrying `payload`.
pub fn make_event(k: EventKind, payload: Vec<u8>) -> (r: DiscordEvents)
    ensures
        is_event(r, k, payload@),
{
    match k {
        EventKind::MessageCreate => DiscordEvents::MessageCreate(payload),
        EventKind::ThreadCreate => DiscordEvents::ThreadCreate(payload),
        EventKind::ThreadDelete => DiscordEvents::ThreadDelete(payload),
        EventKind::ThreadListSync => DiscordEvents::ThreadListSync(payload),
        EventKind::ThreadMemberUpdate => DiscordEvents::ThreadMemberUpdate(payload),
        EventKind::ThreadMembersUpdate => DiscordEvents::ThreadMembersUpdate(payload),
        EventKind::ThreadUpdate => DiscordEvents::ThreadUpdate(payload),
    }
}

/// One routed message per subscriber of `k`, in subscription order, each
/// carrying the same payload.
pub fn fan_out(store: &PluginRegistrations, k: EventKind, payload: &Vec<u8>) -> (r: Vec<
    RuntimeMessages,
>)
    ensures
        r@.len() == store.subscribers(k).len(),
        forall|i: int|
            0 <= i < r@.len() ==> match #[trigger] r@[i] {
                RuntimeMessages::CallDiscordEvent(p, e) => p@ == store.subscribers(k)[i]
                    && is_event(e, k, payload@),
                RuntimeMessages::CallScheduledJob(_, _) => false,
            },
{
    let subs = store.subscriber_list(k);
    let n = subs.len();
    let mut out: Vec<RuntimeMessages> = Vec::new();
    let mut i: usize = 0;
    while i < n
        invariant
            n == subs@.len(),
            ids(subs@) == store.subscribers(k),
            i <= n,
            out@.len() == i,
            forall|j: int|
                0 <= j < i ==> match #[trigger] out@[j] {
                    RuntimeMessages::CallDiscordEvent(p, e) => p@ == store.subscribers(k)[j]
                        && is_event(e, k, payload@),
                    RuntimeMessages::CallScheduledJob(_, _) => false,
                },
        decreases n - i,
    {
        let e = make_event(k, copy_bytes(payload));
        out.push(RuntimeMessages::CallDiscordEvent(subs[i].clone(), e));
        i = i + 1;
    }
    out
}

/// What an interaction is addressed to.
pub enum InteractionTarget {
    ApplicationCommand(u64),
    MessageComponent(String),
    Modal(String),
}

/// The interaction event for the plugin that handles `target`, if any.
pub fn route_interaction(
    store: &PluginRegistrations,
    target: &InteractionTarget,
    payload: Vec<u8>,
) -> (r: Option<RuntimeMessages>)
    requires
        store.wf(),
    ensures
        match target {
            InteractionTarget::ApplicationCommand(id) => match r {
                Some(m) => exists|i: int|
                    0 <= i < store.commands().len() && store.commands()[i].0 == *id
                        && m.target() == store.commands()[i].1@,
                None => forall|i: int|
                    0 <= i < store.commands().len() ==> store.commands()[i].0 != *id,
            },
            InteractionTarget::MessageComponent(c) => match get(
                store.custom_ids(CustomIdKind::MessageComponent),
                c@,
            ) {
                Some(p) => r matches Some(m) && m.target() == p,
                None => r is None,
            },
            InteractionTarget::Modal(c) => match get(store.custom_ids(CustomIdKind::Modal), c@) {
                Some(p) => r matches Some(m) && m.target() == p,
                None => r is None,
            },
        },
        r matches Some(m) ==> m matches RuntimeMessages::CallDiscordEvent(
            _,
            DiscordEvents::InteractionCreate(b),
        ) && b@ == payload@,
{
    let plugin = match target {
        InteractionTarget::ApplicationCommand(id) => match store.command_target(*id) {
            Some(t) => Some(t.0),
            None => None,
        },
        InteractionTarget::MessageComponent(c) => store.custom_id_target(
            CustomIdKind::MessageComponent,
            c.as_str(),
        ),
        InteractionTarget::Modal(c) => store.custom_id_target(CustomIdKind::Modal, c.as_str()),
    };
    match plugin {
        Some(p) => Some(
            RuntimeMessages::CallDiscordEvent(p, DiscordEvents::InteractionCreate(payload)),
        ),
        None => None,
    }
}

/// The timer call for the plugin whose timer has uuid `uuid`, if any.
pub fn route_scheduled_job(store: &PluginRegistrations, uuid: u128) -> (r: Option<
    RuntimeMessages,
>)
    ensures
        match r {
            Some(m) => m matches RuntimeMessages::CallScheduledJob(p, j) && exists|i: int|
                0 <= i < store.scheduled_jobs@.len() && store.scheduled_jobs@[i] == (uuid, p, j),
            None => forall|i: int|
                0 <= i < store.scheduled_jobs@.len() ==> store.scheduled_jobs@[i].0 != uuid,
        },
{
    match store.job_target(uuid) {
        Some(t) => Some(RuntimeMessages::CallScheduledJob(t.0, t.1)),
        None => None,
    }
}

/// What the event router is handed.
pub enum RouterInput {
    Message(RuntimeMessages),
    ChannelClosed,
    Cancelled,
}

/// What the event router does with it.
pub enum RouterAction {
    /// Invoke the plugin the message is for.
    Deliver(RuntimeMessages),
    /// The plugin is not loaded: drop the message.
    Discard(RuntimeMessages),
    /// Stop draining the channel.
    Stop,
}

/// Whether the router delivers `m` while `loaded` are the loaded plugins.
pub open spec fn routed(loaded: Seq<Seq<char>>, m: RuntimeMessages) -> bool {
    loaded.contains(m.target())
}

/// The event router's decision for one input: a message for a loaded
/// plugin is delivered, one for any other plugin dropped; a closed channel
/// or a fired cancellation token stops the router.
pub fn router_step(store: &PluginRegistrations, input: RouterInput) -> (r: RouterAction)
    ensures
        match input {
            RouterInput::Message(m) => if routed(store.loaded(), m) {
                r == RouterAction::Deliver(m)
            } else {
                r == RouterAction::Discard(m)
            },
            _ => r is Stop,
        },
{
    match input {
        RouterInput::Message(m) => {
            let known = match &m {
                RuntimeMessages::CallDiscordEvent(p, _) => store.is_loaded(p.as_str()),
                RuntimeMessages::CallScheduledJob(p, _) => store.is_loaded(p.as_str()),
            };
            if known {
                RouterAction::Deliver(m)
            } else {
                RouterAction::Discard(m)
            }
        },
        _ => RouterAction::Stop,
    }
}

/// The messages the router delivers out of `msgs`, in arrival order.
pub open spec fn deliveries(loaded: Seq<Seq<char>>, msgs: Seq<RuntimeMessages>) -> Seq<
    RuntimeMessages,
> {
    msgs.filter(|m: RuntimeMessages| routed(loaded, m))
}

/// The messages of `msgs` for plugin `p`, in arrival order.
pub open spec fn for_plugin(msgs: Seq<RuntimeMessages>, p: Seq<char>) -> Seq<RuntimeMessages> {
    msgs.filter(|m: RuntimeMessages| m.target() == p)
}

/// Per plugin, the router hands on invocations in the order in which they
/// arrived on the routed channel: for a loaded plugin `p` the delivered
/// messages for `p` are exactly the arrived ones for `p`, in the same order.
pub proof fn lemma_per_plugin_order_kept(
    loaded: Seq<Seq<char>>,
    msgs: Seq<RuntimeMessages>,
    p: Seq<char>,
)
    requires
        loaded.contains(p),
    ensures
        for_plugin(deliveries(loaded, msgs), p) == for_plugin(msgs, p),
    decreases msgs.len(),
{
    reveal(Seq::filter);
    if msgs.len() > 0 {
        lemma_per_plugin_order_kept(loaded, msgs.drop_last(), p);
        let m = msgs.last();
        if m.target() == p {
            assert(routed(loaded, m));
            let d = deliveries(loaded, msgs.drop_last());
            assert(deliveries(loaded, msgs) == d.push(m));
            assert(d.push(m).drop_last() =~= d);
        } else if routed(loaded, m) {
            let d = deliveries(loaded, msgs.drop_last());
            assert(deliveries(loaded, msgs) == d.push(m));
            assert(d.push(m).drop_last() =~= d);
        }
    }
}

/// How a call into a plugin ended.
pub enum CallOutcome {
    Completed,
    /// The plugin returned an error; it stays loaded.
    PluginError(String),
    /// The plugin faulted; it is taken out of dispatch.
    Trapped(String),
}

/// Applies the outcome of a call into plugin `plugin_id` to the store.
pub fn after_call(store: &mut PluginRegistrations, plugin_id: &str, outcome: &CallOutcome)
    requires
        old(store).wf(),
    ensures
        final(store).wf(),
        match outcome {
            CallOutcome::Trapped(_) => {
                &&& final(store).loaded() == without(old(store).loaded(), plugin_id@)
                &&& forall|k: EventKind|
                    #[trigger] final(store).subscribers(k) == without(
                        old(store).subscribers(k),
                        plugin_id@,
                    )
            },
            _ => *final(store) == *old(store),
        },
{
    match outcome {
        CallOutcome::Trapped(_) => store.remove_plugin(plugin_id),
        _ => {},
    }
}


} // verus!
