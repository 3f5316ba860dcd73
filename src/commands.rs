//! Application commands: reading a plugin's command descriptor, renaming
//! commands whose names collide, and reconciling with the commands the chat
//! service already has.

use vstd::prelude::*;
use vstd::string::*;

use crate::registrations::PluginRegistrationRequestsApplicationCommand;

verus! {

/// What the registration logic reads from a command descriptor.
pub struct CommandHead {
    pub name: String,
    pub guild_id: Option<u64>,
}

/// The name and guild that an encoded command descriptor decodes to.
pub uninterp spec fn decoded_command(data: Seq<u8>) -> Option<(Seq<char>, Option<u64>)>;

/// Relies on `simd_json::from_slice` into twilight's `Command`: it reads the
/// command's name and guild id from the bytes alone, or fails.
#[verifier::external_body]
fn decode_command(data: &Vec<u8>) -> (r: Option<CommandHead>)
    ensures
        match decoded_command(data@) {
            Some(h) => r matches Some(c) && c.name@ == h.0 && c.guild_id == h.1,
            None => r is None,
        },
{
    let mut buf = data.clone();
    match simd_json::from_slice::<twilight_model::application::command::Command>(&mut buf) {
        Ok(c) => Some(CommandHead { name: c.name, guild_id: c.guild_id.map(|g| g.get()) }),
        Err(_) => None,
    }
}

/// A command ready to be registered under `name`.
pub struct PlannedCommand {
    pub plugin_id: String,
    pub internal_id: String,
    pub name: String,
    pub guild_id: Option<u64>,
    /// The descriptor to send, carrying `name`; `None` where a renamed
    /// descriptor could not be re-encoded.
    pub data: Option<Vec<u8>>,
}

/// Relies on `simd_json::from_slice` into twilight's `Command` and
/// `simd_json::to_vec`: the descriptor is decoded, given the new name and
/// encoded again, and the encoding decodes back to that name and the same
/// guild.
#[verifier::external_body]
fn encode_renamed(data: &Vec<u8>, name: &str) -> (r: Option<Vec<u8>>)
    ensures
        decoded_command(data@) is None ==> r is None,
        r matches Some(v) ==> (decoded_command(data@) is Some && decoded_command(v@) == Some(
            (name@, (decoded_command(data@)->0).1),
        )),
{
    let mut buf = data.clone();
    let mut c = simd_json::from_slice::<twilight_model::application::command::Command>(&mut buf).ok()?;
    c.name = name.to_owned();
    simd_json::to_vec(&c).ok()
}

/// The descriptor sent for a command: the declared one when the command
/// keeps its name, else the declared one re-encoded under `name`.
pub open spec fn descriptor_ok(
    data: Option<Vec<u8>>,
    original: Seq<u8>,
    name: Seq<char>,
    renamed: bool,
) -> bool {
    if !renamed {
        data matches Some(v) && v@ == original
    } else {
        &&& decoded_command(original) is None ==> data is None
        &&& data matches Some(v) ==> (decoded_command(original) is Some && decoded_command(v@)
            == Some((name, (decoded_command(original)->0).1)))
    }
}

pub open spec fn digit(d: nat) -> char {
    if d == 0 {
        '0'
    } else if d == 1 {
        '1'
    } else if d == 2 {
        '2'
    } else if d == 3 {
        '3'
    } else if d == 4 {
        '4'
    } else if d == 5 {
        '5'
    } else if d == 6 {
        '6'
    } else if d == 7 {
        '7'
    } else if d == 8 {
        '8'
    } else {
        '9'
    }
}

/// The decimal digits of `n`.
pub open spec fn decimal(n: nat) -> Seq<char>
    decreases n,
{
    if n < 10 {
        seq![digit(n)]
    } else {
        decimal(n / 10).push(digit(n % 10))
    }
}

/// How many times `x` occurs in `s`.
pub open spec fn count_of<T>(s: Seq<T>, x: T) -> nat
    decreases s.len(),
{
    if s.len() == 0 {
        0
    } else {
        count_of(s.drop_last(), x) + if s.last() == x {
            1nat
        } else {
            0nat
        }
    }
}

/// The name a command is registered under when `k` commands of the same
/// name and guild came before it: unchanged for the first, then `~1`, `~2`, ...
pub open spec fn suffixed(name: Seq<char>, k: nat) -> Seq<char> {
    if k == 0 {
        name
    } else {
        name + "~"@ + decimal(k)
    }
}

/// The registered name of the `i`th of the commands keyed (name, guild) by `keys`.
pub open spec fn planned_name(keys: Seq<(Seq<char>, Option<u64>)>, i: int) -> Seq<char> {
    suffixed(keys[i].0, count_of(keys.subrange(0, i), keys[i]))
}

pub open spec fn head_keys(
    cs: Seq<(PluginRegistrationRequestsApplicationCommand, CommandHead)>,
) -> Seq<(Seq<char>, Option<u64>)> {
    cs.map_values(
        |c: (PluginRegistrationRequestsApplicationCommand, CommandHead)| (c.1.name@, c.1.guild_id),
    )
}

fn digit_str(d: u64) -> (r: &'static str)
    requires
        d < 10,
    ensures
        r@ == seq![digit(d as nat)],
{
    proof {
        reveal_strlit("0");
        reveal_strlit("1");
        reveal_strlit("2");
        reveal_strlit("3");
        reveal_strlit("4");
        reveal_strlit("5");
        reveal_strlit("6");
        reveal_strlit("7");
        reveal_strlit("8");
        reveal_strlit("9");
    }
    let r = if d == 0 {
        "0"
    } else if d == 1 {
        "1"
    } else if d == 2 {
        "2"
    } else if d == 3 {
        "3"
    } else if d == 4 {
        "4"
    } else if d == 5 {
        "5"
    } else if d == 6 {
        "6"
    } else if d == 7 {
        "7"
    } else if d == 8 {
        "8"
    } else {
        "9"
    };
    assert(r@ =~= seq![digit(d as nat)]);
    r
}

/// The decimal digits of `n`.
pub fn decimal_string(n: u64) -> (r: String)
    ensures
        r@ == decimal(n as nat),
    decreases n,
{
    if n < 10 {
        digit_str(n).to_owned()
    } else {
        let r = decimal_string(n / 10).concat(digit_str(n % 10));
        assert(r@ =~= decimal(n as nat));
        r
    }
}

/// Names each command: the first of each (name, guild) keeps its name, the
/// later ones get `~1`, `~2`, ... in order.
pub fn assign_command_names(
    commands: Vec<(PluginRegistrationRequestsApplicationCommand, CommandHead)>,
) -> (r: Vec<PlannedCommand>)
    ensures
        r@.len() == commands@.len(),
        forall|i: int|
            0 <= i < r@.len() ==> {
                let p = #[trigger] r@[i];
                let c = commands@[i];
                &&& p.plugin_id == c.0.plugin_id
                &&& p.internal_id == c.0.id
                &&& descriptor_ok(
                    p.data,
                    c.0.data@,
                    p.name@,
                    count_of(head_keys(commands@).subrange(0, i), head_keys(commands@)[i]) > 0,
                )
                &&& p.guild_id == c.1.guild_id
                &&& p.name@ == planned_name(head_keys(commands@), i)
            },
{
    let ghost orig = commands@;
    let ghost keys = head_keys(commands@);
    let n = commands.len();
    let mut counts: Vec<u64> = Vec::new();
    let mut i: usize = 0;
    while i < n
        invariant
            n == orig.len(),
            commands@ == orig,
            keys == head_keys(orig),
            i <= n,
            counts@.len() == i,
            forall|j: int| 0 <= j < i ==> counts@[j] == count_of(keys.subrange(0, j), keys[j]),
        decreases n - i,
    {
        let mut c: u64 = 0;
        let mut j: usize = 0;
        while j < i
            invariant
                n == orig.len(),
                commands@ == orig,
                keys == head_keys(orig),
                i < n,
                j <= i,
                c == count_of(keys.subrange(0, j as int), keys[i as int]),
                c <= j,
            decreases i - j,
        {
            assert(keys.subrange(0, j + 1).drop_last() =~= keys.subrange(0, j as int));
            if commands[j].1.name == commands[i].1.name && commands[j].1.guild_id
                == commands[i].1.guild_id {
                c = c + 1;
            }
            j = j + 1;
        }
        counts.push(c);
        i = i + 1;
    }
    let mut out: Vec<PlannedCommand> = Vec::new();
    let mut rest = commands;
    let mut i: usize = 0;
    while i < n
        invariant
            n == orig.len(),
            keys == head_keys(orig),
            i <= n,
            rest@ == orig.subrange(i as int, n as int),
            counts@.len() == n,
            forall|j: int| 0 <= j < n ==> counts@[j] == count_of(keys.subrange(0, j), keys[j]),
            out@.len() == i,
            forall|j: int|
                0 <= j < i ==> {
                    let p = #[trigger] out@[j];
                    let c = orig[j];
                    &&& p.plugin_id == c.0.plugin_id
                    &&& p.internal_id == c.0.id
                    &&& descriptor_ok(
                        p.data,
                        c.0.data@,
                        p.name@,
                        count_of(keys.subrange(0, j), keys[j]) > 0,
                    )
                    &&& p.guild_id == c.1.guild_id
                    &&& p.name@ == planned_name(keys, j)
                },
        decreases n - i,
    {
        let (req, head) = rest.remove(0);
        assert(rest@ =~= orig.subrange(i + 1, n as int));
        let k = counts[i];
        let (name, data) = if k == 0 {
            (head.name, Some(req.data))
        } else {
            let name = head.name.concat("~").concat(decimal_string(k).as_str());
            let data = encode_renamed(&req.data, name.as_str());
            (name, data)
        };
        out.push(
            PlannedCommand {
                plugin_id: req.plugin_id,
                internal_id: req.id,
                name,
                guild_id: head.guild_id,
                data,
            },
        );
        i = i + 1;
    }
    out
}

/// The requests whose descriptor decodes, each with its decoded (name, guild).
pub open spec fn decodable(
    reqs: Seq<PluginRegistrationRequestsApplicationCommand>,
) -> Seq<(PluginRegistrationRequestsApplicationCommand, (Seq<char>, Option<u64>))>
    decreases reqs.len(),
{
    if reqs.len() == 0 {
        Seq::empty()
    } else {
        let rest = decodable(reqs.drop_last());
        match decoded_command(reqs.last().data@) {
            Some(h) => rest.push((reqs.last(), h)),
            None => rest,
        }
    }
}

proof fn lemma_decodable_decodes(reqs: Seq<PluginRegistrationRequestsApplicationCommand>)
    ensures
        forall|i: int|
            0 <= i < decodable(reqs).len() ==> decoded_command(
                (#[trigger] decodable(reqs)[i]).0.data@,
            ) == Some(decodable(reqs)[i].1),
    decreases reqs.len(),
{
    if reqs.len() > 0 {
        lemma_decodable_decodes(reqs.drop_last());
    }
}

pub open spec fn decoded_keys(
    d: Seq<(PluginRegistrationRequestsApplicationCommand, (Seq<char>, Option<u64>))>,
) -> Seq<(Seq<char>, Option<u64>)> {
    d.map_values(|e: (PluginRegistrationRequestsApplicationCommand, (Seq<char>, Option<u64>))| e.1)
}

/// Decodes each requested command and names them for registration; a
/// request whose descriptor does not decode is left out.
pub fn plan_application_commands(
    requests: Vec<PluginRegistrationRequestsApplicationCommand>,
) -> (r: Vec<PlannedCommand>)
    ensures
        r@.len() == decodable(requests@).len(),
        forall|i: int|
            0 <= i < r@.len() ==> {
                let p = #[trigger] r@[i];
                let d = decodable(requests@)[i];
                &&& p.plugin_id == d.0.plugin_id
                &&& p.internal_id == d.0.id
                &&& descriptor_ok(
                    p.data,
                    d.0.data@,
                    p.name@,
                    count_of(
                        decoded_keys(decodable(requests@)).subrange(0, i),
                        decoded_keys(decodable(requests@))[i],
                    ) > 0,
                )
                &&& p.data matches Some(v) ==> decoded_command(v@) == Some((p.name@, p.guild_id))
                &&& p.guild_id == d.1.1
                &&& p.name@ == planned_name(decoded_keys(decodable(requests@)), i)
            },
{
    let ghost orig = requests@;
    let n = requests.len();
    let mut rest = requests;
    let mut heads: Vec<(PluginRegistrationRequestsApplicationCommand, CommandHead)> = Vec::new();
    let mut i: usize = 0;
    while i < n
        invariant
            n == orig.len(),
            i <= n,
            rest@ == orig.subrange(i as int, n as int),
            heads@.len() == decodable(orig.subrange(0, i as int)).len(),
            forall|j: int|
                0 <= j < heads@.len() ==> {
                    let h = #[trigger] heads@[j];
                    let d = decodable(orig.subrange(0, i as int))[j];
                    &&& h.0 == d.0
                    &&& (h.1.name@, h.1.guild_id) == d.1
                },
        decreases n - i,
    {
        let req = rest.remove(0);
        assert(rest@ =~= orig.subrange(i + 1, n as int));
        assert(orig.subrange(0, i + 1).drop_last() =~= orig.subrange(0, i as int));
        assert(orig.subrange(0, i + 1).last() == req);
        match decode_command(&req.data) {
            Some(head) => {
                heads.push((req, head));
            },
            None => {},
        }
        i = i + 1;
    }
    assert(orig.subrange(0, n as int) =~= orig);
    assert(head_keys(heads@) =~= decoded_keys(decodable(orig)));
    let r = assign_command_names(heads);
    proof {
        lemma_decodable_decodes(orig);
        let keys = decoded_keys(decodable(orig));
        assert forall|i: int| 0 <= i < r@.len() implies (#[trigger] r@[i]).data matches Some(v)
            ==> decoded_command(v@) == Some((r@[i].name@, r@[i].guild_id)) by {
            let d = decodable(orig)[i];
            assert(keys[i] == d.1);
            assert(decoded_command(d.0.data@) == Some(d.1));
        }
    }
    r
}

/// When two plugins declare a command of the same name (and guild), the
/// first keeps the name and the second gets the suffix `~1`.
pub proof fn lemma_second_gets_suffix(name: Seq<char>, guild: Option<u64>)
    ensures
        planned_name(seq![(name, guild), (name, guild)], 0) == name,
        planned_name(seq![(name, guild), (name, guild)], 1) == name + "~1"@,
{
    let keys = seq![(name, guild), (name, guild)];
    let first = keys.subrange(0, 0);
    let second = keys.subrange(0, 1);
    assert(first.len() == 0);
    assert(second.drop_last() =~= first);
    assert(count_of(first, keys[0]) == 0);
    assert(count_of(second, keys[1]) == 1);
    reveal_strlit("1");
    reveal_strlit("~");
    reveal_strlit("~1");
    assert(decimal(1) =~= "1"@);
    assert(name + "~"@ + decimal(1) =~= name + "~1"@);
}

/// A command the chat service already has.
pub struct ExistingCommand {
    pub id: u64,
    pub name: String,
    pub guild_id: Option<u64>,
}

/// How a planned command is sent to the chat service.
#[derive(Clone, Copy, Debug, PartialEq, Eq, Structural)]
pub enum RegistrationRoute {
    /// A new command.
    Create,
    /// Overwrite the existing command of this id.
    Update(u64),
}

/// Whether `c` is claimed by a command of that name and guild.
pub open spec fn claims(name: Seq<char>, guild: Option<u64>, c: ExistingCommand) -> bool {
    c.name@ == name && c.guild_id == guild
}

/// Whether no planned command claims `c`.
pub open spec fn unclaimed(planned: Seq<PlannedCommand>, c: ExistingCommand) -> bool {
    !(exists|j: int| 0 <= j < planned.len() && claims(planned[j].name@, planned[j].guild_id, c))
}

/// An existing command of the same name and guild is updated (the first
/// such); otherwise the command is created.
pub fn choose_route(existing: &Vec<ExistingCommand>, name: &String, guild_id: Option<u64>) -> (r:
    RegistrationRoute)
    ensures
        match r {
            RegistrationRoute::Update(id) => exists|i: int|
                0 <= i < existing@.len() && existing@[i].id == id && claims(
                    name@,
                    guild_id,
                    existing@[i],
                ) && forall|j: int| 0 <= j < i ==> !claims(name@, guild_id, existing@[j]),
            RegistrationRoute::Create => forall|i: int|
                0 <= i < existing@.len() ==> !claims(name@, guild_id, existing@[i]),
        },
{
    let n = existing.len();
    let mut i: usize = 0;
    while i < n
        invariant
            n == existing@.len(),
            i <= n,
            forall|j: int| 0 <= j < i ==> !claims(name@, guild_id, existing@[j]),
        decreases n - i,
    {
        if existing[i].name == *name && existing[i].guild_id == guild_id {
            return RegistrationRoute::Update(existing[i].id);
        }
        i = i + 1;
    }
    RegistrationRoute::Create
}

/// The (id, guild) of each existing command that no planned command
/// claims, in their order: these are deleted after registration.
pub fn obsolete_commands(existing: &Vec<ExistingCommand>, planned: &Vec<PlannedCommand>) -> (r:
    Vec<(u64, Option<u64>)>)
    ensures
        r@ == existing@.filter(|c: ExistingCommand| unclaimed(planned@, c)).map_values(
            |c: ExistingCommand| (c.id, c.guild_id),
        ),
{
    let n = existing.len();
    let m = planned.len();
    let mut out: Vec<(u64, Option<u64>)> = Vec::new();
    let mut i: usize = 0;
    while i < n
        invariant
            n == existing@.len(),
            m == planned@.len(),
            i <= n,
            out@ == existing@.subrange(0, i as int).filter(|c: ExistingCommand| unclaimed(planned@, c)).map_values(
                |c: ExistingCommand| (c.id, c.guild_id),
            ),
        decreases n - i,
    {
        let mut claimed = false;
        let mut j: usize = 0;
        while j < m
            invariant
                n == existing@.len(),
                m == planned@.len(),
                i < n,
                j <= m,
                claimed == exists|t: int|
                    0 <= t < j && claims(planned@[t].name@, planned@[t].guild_id, existing@[i as int]),
            decreases m - j,
        {
            if planned[j].name == existing[i].name && planned[j].guild_id == existing[i].guild_id {
                claimed = true;
            }
            j = j + 1;
        }
        let ghost prev = existing@.subrange(0, i as int).filter(|c: ExistingCommand| unclaimed(planned@, c));
        proof {
            reveal(Seq::filter);
            let sub = existing@.subrange(0, i + 1);
            assert(sub.drop_last() =~= existing@.subrange(0, i as int));
            assert(sub.last() == existing@[i as int]);
            let x = existing@[i as int];
            if claimed {
                let t = choose|t: int|
                    0 <= t < j && claims(planned@[t].name@, planned@[t].guild_id, x);
                assert(!unclaimed(planned@, x));
            } else {
                assert(unclaimed(planned@, x));
            }
            if claimed {
                assert(sub.filter(|c: ExistingCommand| unclaimed(planned@, c)) == prev);
            } else {
                assert(sub.filter(|c: ExistingCommand| unclaimed(planned@, c)) == prev.push(existing@[i as int]));
            }
        }
        if !claimed {
            out.push((existing[i].id, existing[i].guild_id));
            assert(prev.push(existing@[i as int]).map_values(|c: ExistingCommand| (c.id, c.guild_id))
                =~= prev.map_values(|c: ExistingCommand| (c.id, c.guild_id)).push((existing@[i as int].id, existing@[i as int].guild_id)));
        }
        i = i + 1;
    }
    assert(existing@.subrange(0, n as int) =~= existing@);
    out
}

/// How an obsolete command is deleted.
#[derive(Clone, Copy, Debug, PartialEq, Eq, Structural)]
pub enum DeleteRoute {
    Guild { command_id: u64, guild_id: u64 },
    Global { command_id: u64 },
}

/// The delete route of an obsolete (command id, guild): the guild route
/// for a guild command, the global route otherwise.
pub fn delete_route(command: (u64, Option<u64>)) -> (r: DeleteRoute)
    ensures
        r == match command.1 {
            Some(g) => DeleteRoute::Guild { command_id: command.0, guild_id: g },
            None => DeleteRoute::Global { command_id: command.0 },
        },
{
    match command.1 {
        Some(g) => DeleteRoute::Guild { command_id: command.0, guild_id: g },
        None => DeleteRoute::Global { command_id: command.0 },
    }
}

/// The index of the first failed deletion.
pub open spec fn first_failure(results: Seq<Result<(), String>>) -> Option<int>
    decreases results.len(),
{
    if results.len() == 0 {
        None
    } else {
        match first_failure(results.drop_last()) {
            Some(i) => Some(i),
            None => if results.last() is Err {
                Some(results.len() - 1)
            } else {
                None
            },
        }
    }
}

/// The outcome of the deletion pass from the outcomes of the deletions
/// made, in order: it succeeds if every deletion did, and otherwise fails
/// with the first deletion's error (the pass stops there).
pub fn deletion_result(results: &Vec<Result<(), String>>) -> (r: Result<(), String>)
    ensures
        match first_failure(results@) {
            Some(i) => r matches Err(e) && results@[i] matches Err(f) && e == f,
            None => r is Ok,
        },
{
    let n = results.len();
    let mut i: usize = 0;
    while i < n
        invariant
            n == results@.len(),
            i <= n,
            first_failure(results@.subrange(0, i as int)) is None,
        decreases n - i,
    {
        assert(results@.subrange(0, i + 1).drop_last() =~= results@.subrange(0, i as int));
        match &results[i] {
            Err(e) => {
                proof {
                    lemma_first_failure_prefix(results@, i + 1);
                }
                return Err(e.clone());
            },
            Ok(()) => {},
        }
        i = i + 1;
    }
    assert(results@.subrange(0, n as int) =~= results@);
    Ok(())
}

proof fn lemma_first_failure_prefix(results: Seq<Result<(), String>>, n: int)
    requires
        0 <= n <= results.len(),
        first_failure(results.subrange(0, n)) is Some,
    ensures
        first_failure(results) == first_failure(results.subrange(0, n)),
    decreases results.len() - n,
{
    if n < results.len() {
        assert(results.subrange(0, n + 1).drop_last() =~= results.subrange(0, n));
        lemma_first_failure_prefix(results, n + 1);
    } else {
        assert(results.subrange(0, n) =~= results);
    }
}

} // verus!
