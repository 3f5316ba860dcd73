//! How a plugin's outbound chat-service request is carried out.

use vstd::prelude::*;
use vstd::string::*;

verus! {

/// The kind of an outbound request, with what the routing needs.
pub enum DiscordRequestKind {
    /// A gateway command for the shard of this guild, with its encoded payload.
    RequestGuildMembers(u64, Vec<u8>),
    /// A gateway command that is not supported.
    RequestSoundboardSounds,
    /// A gateway command for the shard of this guild, with its encoded payload.
    UpdateVoiceState(u64, Vec<u8>),
    /// A gateway command for any shard, with its encoded payload.
    UpdatePresence(Vec<u8>),
    /// A REST call.
    Rest,
}

/// Where a request goes.
#[derive(Clone, Copy, Debug, PartialEq, Eq, Structural)]
pub enum RequestRoute {
    /// The shard that serves this guild; no response body.
    GuildShard(u64),
    /// Any shard; no response body.
    AnyShard,
    /// The REST client; the response body is returned.
    Rest,
}

pub open spec fn no_guild() -> Seq<char> {
    "No guild found"@
}

pub open spec fn bad_body() -> Seq<char> {
    "The request body could not be decoded"@
}

/// Whether bytes decode as a guild-members request payload.
pub uninterp spec fn guild_members_body(b: Seq<u8>) -> bool;

/// Whether bytes decode as a voice-state update payload.
pub uninterp spec fn voice_state_body(b: Seq<u8>) -> bool;

/// Whether bytes decode as a presence update payload.
pub uninterp spec fn presence_body(b: Seq<u8>) -> bool;

/// Relies on `simd_json::from_slice` into twilight's `RequestGuildMembersInfo`:
/// whether it decodes depends on the bytes alone.
#[verifier::external_body]
fn decodes_guild_members(b: &Vec<u8>) -> (r: bool)
    ensures
        r == guild_members_body(b@),
{
    let mut buf = b.clone();
    simd_json::from_slice::<
        twilight_model::gateway::payload::outgoing::request_guild_members::RequestGuildMembersInfo,
    >(&mut buf).is_ok()
}

/// Relies on `simd_json::from_slice` into twilight's `UpdateVoiceStateInfo`:
/// whether it decodes depends on the bytes alone.
#[verifier::external_body]
fn decodes_voice_state(b: &Vec<u8>) -> (r: bool)
    ensures
        r == voice_state_body(b@),
{
    let mut buf = b.clone();
    simd_json::from_slice::<
        twilight_model::gateway::payload::outgoing::update_voice_state::UpdateVoiceStateInfo,
    >(&mut buf).is_ok()
}

/// Relies on `simd_json::from_slice` into twilight's `UpdatePresencePayload`:
/// whether it decodes depends on the bytes alone.
#[verifier::external_body]
fn decodes_presence(b: &Vec<u8>) -> (r: bool)
    ensures
        r == presence_body(b@),
{
    let mut buf = b.clone();
    simd_json::from_slice::<
        twilight_model::gateway::payload::outgoing::update_presence::UpdatePresencePayload,
    >(&mut buf).is_ok()
}

pub open spec fn not_implemented() -> Seq<char> {
    "RequestSoundboardSounds is not implemented"@
}

/// Routes a request given the guilds that have a shard (`guilds`): a guild
/// command needs its guild's shard, a presence update any shard, a gateway
/// payload must decode, and the soundboard request is refused as not
/// implemented.
pub fn route_request(kind: &DiscordRequestKind, guilds: &Vec<u64>) -> (r: Result<
    RequestRoute,
    String,
>)
    ensures
        match kind {
            DiscordRequestKind::RequestGuildMembers(g, b) => guild_routed(
                *g,
                guilds@,
                guild_members_body(b@),
                r,
            ),
            DiscordRequestKind::UpdateVoiceState(g, b) => guild_routed(
                *g,
                guilds@,
                voice_state_body(b@),
                r,
            ),
            DiscordRequestKind::UpdatePresence(b) => if guilds@.len() == 0 {
                r matches Err(e) && e@ == no_guild()
            } else if !presence_body(b@) {
                r matches Err(e) && e@ == bad_body()
            } else {
                r == Ok::<RequestRoute, String>(RequestRoute::AnyShard)
            },
            DiscordRequestKind::RequestSoundboardSounds => r matches Err(e) && e@
                == not_implemented(),
            DiscordRequestKind::Rest => r == Ok::<RequestRoute, String>(RequestRoute::Rest),
        },
{
    match kind {
        DiscordRequestKind::RequestGuildMembers(g, b) => guild_route(
            *g,
            guilds,
            decodes_guild_members(b),
        ),
        DiscordRequestKind::UpdateVoiceState(g, b) => guild_route(*g, guilds, decodes_voice_state(b)),
        DiscordRequestKind::UpdatePresence(b) => {
            if guilds.len() == 0 {
                Err("No guild found".to_owned())
            } else if !decodes_presence(b) {
                Err("The request body could not be decoded".to_owned())
            } else {
                Ok(RequestRoute::AnyShard)
            }
        },
        DiscordRequestKind::RequestSoundboardSounds => Err(
            "RequestSoundboardSounds is not implemented".to_owned(),
        ),
        DiscordRequestKind::Rest => Ok(RequestRoute::Rest),
    }
}

/// A guild command goes to its guild's shard, if there is one and its
/// payload decodes.
pub open spec fn guild_routed(
    g: u64,
    guilds: Seq<u64>,
    body_ok: bool,
    r: Result<RequestRoute, String>,
) -> bool {
    if !guilds.contains(g) {
        r matches Err(e) && e@ == no_guild()
    } else if !body_ok {
        r matches Err(e) && e@ == bad_body()
    } else {
        r == Ok::<RequestRoute, String>(RequestRoute::GuildShard(g))
    }
}

fn guild_route(g: u64, guilds: &Vec<u64>, body_ok: bool) -> (r: Result<RequestRoute, String>)
    ensures
        guild_routed(g, guilds@, body_ok, r),
{
    let n = guilds.len();
    let mut i: usize = 0;
    while i < n
        invariant
            n == guilds@.len(),
            i <= n,
            forall|j: int| 0 <= j < i ==> guilds@[j] != g,
        decreases n - i,
    {
        if guilds[i] == g {
            assert(guilds@[i as int] == g);
            if !body_ok {
                return Err("The request body could not be decoded".to_owned());
            }
            return Ok(RequestRoute::GuildShard(g));
        }
        i = i + 1;
    }
    Err("No guild found".to_owned())
}

/// What the plugin receives once a routed request is carried out: nothing
/// for a gateway command, the response body (or the error) for a REST call.
pub fn request_result(route: RequestRoute, rest: Result<Vec<u8>, String>) -> (r: Result<
    Option<Vec<u8>>,
    String,
>)
    ensures
        match route {
            RequestRoute::Rest => match rest {
                Ok(b) => r == Ok::<Option<Vec<u8>>, String>(Some(b)),
                Err(e) => r == Err::<Option<Vec<u8>>, String>(e),
            },
            _ => r == Ok::<Option<Vec<u8>>, String>(None),
        },
{
    match route {
        RequestRoute::Rest => match rest {
            Ok(b) => Ok(Some(b)),
            Err(e) => Err(e),
        },
        _ => Ok(None),
    }
}

} // verus!
