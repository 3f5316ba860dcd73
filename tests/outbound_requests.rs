use discord_bot::requests::{request_result, route_request, DiscordRequestKind, RequestRoute};

fn members(guild: u64) -> Vec<u8> {
    format!("{{\"guild_id\":\"{guild}\",\"limit\":0,\"query\":\"\"}}").into_bytes()
}

fn voice(guild: u64) -> Vec<u8> {
    format!("{{\"guild_id\":\"{guild}\",\"channel_id\":null,\"self_deaf\":false,\"self_mute\":true}}").into_bytes()
}

fn presence() -> Vec<u8> {
    b"{\"activities\":[],\"afk\":false,\"since\":null,\"status\":\"online\"}".to_vec()
}

#[test]
fn guild_commands_need_a_known_guild() {
    let guilds = vec![5, 7];
    assert_eq!(
        route_request(&DiscordRequestKind::RequestGuildMembers(7, members(7)), &guilds),
        Ok(RequestRoute::GuildShard(7))
    );
    assert_eq!(
        route_request(&DiscordRequestKind::UpdateVoiceState(5, voice(5)), &guilds),
        Ok(RequestRoute::GuildShard(5))
    );
    assert_eq!(
        route_request(&DiscordRequestKind::RequestGuildMembers(9, members(9)), &guilds),
        Err("No guild found".to_string())
    );
    assert_eq!(route_request(&DiscordRequestKind::UpdatePresence(presence()), &guilds), Ok(RequestRoute::AnyShard));
    assert_eq!(
        route_request(&DiscordRequestKind::UpdatePresence(presence()), &vec![]),
        Err("No guild found".to_string())
    );
}

#[test]
fn gateway_payload_must_decode() {
    let guilds = vec![5];
    let bad = "The request body could not be decoded".to_string();
    assert_eq!(route_request(&DiscordRequestKind::RequestGuildMembers(5, b"{}".to_vec()), &guilds), Err(bad.clone()));
    assert_eq!(route_request(&DiscordRequestKind::UpdateVoiceState(5, members(5)), &guilds), Err(bad.clone()));
    assert_eq!(route_request(&DiscordRequestKind::UpdatePresence(b"nope".to_vec()), &guilds), Err(bad));
}

#[test]
fn soundboard_request_is_not_implemented() {
    assert_eq!(
        route_request(&DiscordRequestKind::RequestSoundboardSounds, &vec![1]),
        Err("RequestSoundboardSounds is not implemented".to_string())
    );
    assert_eq!(route_request(&DiscordRequestKind::Rest, &vec![]), Ok(RequestRoute::Rest));
}

#[test]
fn gateway_commands_return_no_body() {
    assert_eq!(request_result(RequestRoute::AnyShard, Ok(vec![1])), Ok(None));
    assert_eq!(request_result(RequestRoute::GuildShard(3), Err("x".to_string())), Ok(None));
    assert_eq!(request_result(RequestRoute::Rest, Ok(vec![1, 2])), Ok(Some(vec![1, 2])));
    assert_eq!(request_result(RequestRoute::Rest, Err("bad".to_string())), Err("bad".to_string()));
}
