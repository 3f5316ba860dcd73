//! Capabilities a plugin may be granted, and the parsing of their names.

use vstd::prelude::*;
use vstd::string::*;

verus! {

/// One capability a plugin can hold.
#[derive(Clone, Copy, Debug, PartialEq, Eq, Structural)]
pub enum Capability {
    DependencyFunctions,
    MessageCreate,
    InteractionCreate,
    ThreadCreate,
    ThreadDelete,
    ThreadListSync,
    ThreadMemberUpdate,
    ThreadMembersUpdate,
    ThreadUpdate,
    Shutdown,
}

/// The set of capabilities granted to one plugin, one flag per capability.
#[derive(Clone, Copy, Debug, PartialEq, Eq, Structural)]
pub struct Permissions {
    pub dependency_functions: bool,
    pub message_create: bool,
    pub interaction_create: bool,
    pub thread_create: bool,
    pub thread_delete: bool,
    pub thread_list_sync: bool,
    pub thread_member_update: bool,
    pub thread_members_update: bool,
    pub thread_update: bool,
    pub shutdown: bool,
}

/// The configuration name of a capability (upper case).
pub open spec fn capability_name(c: Capability) -> Seq<char> {
    match c {
        Capability::DependencyFunctions => "DEPENDENCY_FUNCTIONS"@,
        Capability::MessageCreate => "DISCORD_EVENT_MESSAGE_CREATE"@,
        Capability::InteractionCreate => "DISCORD_EVENT_INTERACTION_CREATE"@,
        Capability::ThreadCreate => "DISCORD_EVENT_THREAD_CREATE"@,
        Capability::ThreadDelete => "DISCORD_EVENT_THREAD_DELETE"@,
        Capability::ThreadListSync => "DISCORD_EVENT_THREAD_LIST_SYNC"@,
        Capability::ThreadMemberUpdate => "DISCORD_EVENT_THREAD_MEMBER_UPDATE"@,
        Capability::ThreadMembersUpdate => "DISCORD_EVENT_THREAD_MEMBERS_UPDATE"@,
        Capability::ThreadUpdate => "DISCORD_EVENT_THREAD_UPDATE"@,
        Capability::Shutdown => "SHUTDOWN"@,
    }
}

/// The capability whose name is `s`, if any.
pub open spec fn capability_named(s: Seq<char>) -> Option<Capability> {
    if s == capability_name(Capability::DependencyFunctions) {
        Some(Capability::DependencyFunctions)
    } else if s == capability_name(Capability::MessageCreate) {
        Some(Capability::MessageCreate)
    } else if s == capability_name(Capability::InteractionCreate) {
        Some(Capability::InteractionCreate)
    } else if s == capability_name(Capability::ThreadCreate) {
        Some(Capability::ThreadCreate)
    } else if s == capability_name(Capability::ThreadDelete) {
        Some(Capability::ThreadDelete)
    } else if s == capability_name(Capability::ThreadListSync) {
        Some(Capability::ThreadListSync)
    } else if s == capability_name(Capability::ThreadMemberUpdate) {
        Some(Capability::ThreadMemberUpdate)
    } else if s == capability_name(Capability::ThreadMembersUpdate) {
        Some(Capability::ThreadMembersUpdate)
    } else if s == capability_name(Capability::ThreadUpdate) {
        Some(Capability::ThreadUpdate)
    } else if s == capability_name(Capability::Shutdown) {
        Some(Capability::Shutdown)
    } else {
        None
    }
}

/// What `str::to_uppercase` returns for a string.
pub uninterp spec fn upper_of(s: Seq<char>) -> Seq<char>;

/// Relies on `str::to_uppercase`: the result depends on the characters alone,
/// and the empty string stays empty.
#[verifier::external_body]
pub(crate) fn to_upper(s: &str) -> (r: String)
    ensures
        r@ == upper_of(s@),
        s@.len() == 0 ==> r@.len() == 0,
{
    s.to_uppercase()
}

/// Whether `s` holds exactly the characters of `lit`.
pub fn str_equals(s: &str, lit: &str) -> (r: bool)
    ensures
        r == (s@ == lit@),
{
    let n = s.unicode_len();
    let m = lit.unicode_len();
    if n != m {
        return false;
    }
    let mut i: usize = 0;
    while i < n
        invariant
            n == s@.len(),
            m == lit@.len(),
            n == m,
            i <= n,
            forall|j: int| 0 <= j < i ==> s@[j] == lit@[j],
        decreases n - i,
    {
        if s.get_char(i) != lit.get_char(i) {
            return false;
        }
        i = i + 1;
    }
    assert(s@ =~= lit@);
    true
}

impl Permissions {
    pub open spec fn spec_has(self, c: Capability) -> bool {
        match c {
            Capability::DependencyFunctions => self.dependency_functions,
            Capability::MessageCreate => self.message_create,
            Capability::InteractionCreate => self.interaction_create,
            Capability::ThreadCreate => self.thread_create,
            Capability::ThreadDelete => self.thread_delete,
            Capability::ThreadListSync => self.thread_list_sync,
            Capability::ThreadMemberUpdate => self.thread_member_update,
            Capability::ThreadMembersUpdate => self.thread_members_update,
            Capability::ThreadUpdate => self.thread_update,
            Capability::Shutdown => self.shutdown,
        }
    }

    /// No capability at all.
    pub fn empty() -> (r: Permissions)
        ensures
            forall|c: Capability| !r.spec_has(c),
    {
        Permissions {
            dependency_functions: false,
            message_create: false,
            interaction_create: false,
            thread_create: false,
            thread_delete: false,
            thread_list_sync: false,
            thread_member_update: false,
            thread_members_update: false,
            thread_update: false,
            shutdown: false,
        }
    }

    /// Every capability; what a plugin gets when its configuration names none.
    pub fn all() -> (r: Permissions)
        ensures
            forall|c: Capability| r.spec_has(c),
    {
        Permissions {
            dependency_functions: true,
            message_create: true,
            interaction_create: true,
            thread_create: true,
            thread_delete: true,
            thread_list_sync: true,
            thread_member_update: true,
            thread_members_update: true,
            thread_update: true,
            shutdown: true,
        }
    }

    pub fn has(&self, c: Capability) -> (r: bool)
        ensures
            r == self.spec_has(c),
    {
        match c {
            Capability::DependencyFunctions => self.dependency_functions,
            Capability::MessageCreate => self.message_create,
            Capability::InteractionCreate => self.interaction_create,
            Capability::ThreadCreate => self.thread_create,
            Capability::ThreadDelete => self.thread_delete,
            Capability::ThreadListSync => self.thread_list_sync,
            Capability::ThreadMemberUpdate => self.thread_member_update,
            Capability::ThreadMembersUpdate => self.thread_members_update,
            Capability::ThreadUpdate => self.thread_update,
            Capability::Shutdown => self.shutdown,
        }
    }

    /// These permissions with `c` added.
    pub fn grant(&mut self, c: Capability)
        ensures
            forall|d: Capability| final(self).spec_has(d) == (old(self).spec_has(d) || d == c),
    {
        match c {
            Capability::DependencyFunctions => self.dependency_functions = true,
            Capability::MessageCreate => self.message_create = true,
            Capability::InteractionCreate => self.interaction_create = true,
            Capability::ThreadCreate => self.thread_create = true,
            Capability::ThreadDelete => self.thread_delete = true,
            Capability::ThreadListSync => self.thread_list_sync = true,
            Capability::ThreadMemberUpdate => self.thread_member_update = true,
            Capability::ThreadMembersUpdate => self.thread_members_update = true,
            Capability::ThreadUpdate => self.thread_update = true,
            Capability::Shutdown => self.shutdown = true,
        }
    }
}

/// The capability named by an already upper-cased configuration string.
pub fn capability_from_name(upper: &str) -> (r: Option<Capability>)
    ensures
        r == capability_named(upper@),
{
    if str_equals(upper, "DEPENDENCY_FUNCTIONS") {
        Some(Capability::DependencyFunctions)
    } else if str_equals(upper, "DISCORD_EVENT_MESSAGE_CREATE") {
        Some(Capability::MessageCreate)
    } else if str_equals(upper, "DISCORD_EVENT_INTERACTION_CREATE") {
        Some(Capability::InteractionCreate)
    } else if str_equals(upper, "DISCORD_EVENT_THREAD_CREATE") {
        Some(Capability::ThreadCreate)
    } else if str_equals(upper, "DISCORD_EVENT_THREAD_DELETE") {
        Some(Capability::ThreadDelete)
    } else if str_equals(upper, "DISCORD_EVENT_THREAD_LIST_SYNC") {
        Some(Capability::ThreadListSync)
    } else if str_equals(upper, "DISCORD_EVENT_THREAD_MEMBER_UPDATE") {
        Some(Capability::ThreadMemberUpdate)
    } else if str_equals(upper, "DISCORD_EVENT_THREAD_MEMBERS_UPDATE") {
        Some(Capability::ThreadMembersUpdate)
    } else if str_equals(upper, "DISCORD_EVENT_THREAD_UPDATE") {
        Some(Capability::ThreadUpdate)
    } else if str_equals(upper, "SHUTDOWN") {
        Some(Capability::Shutdown)
    } else {
        None
    }
}

/// Whether some name of `names`, read without regard to case, names `c`.
pub open spec fn names_grant(names: Seq<String>, c: Capability) -> bool {
    exists|i: int| 0 <= i < names.len() && capability_named(upper_of(names[i]@)) == Some(c)
}

/// Whether every name of `names`, read without regard to case, names a capability.
pub open spec fn names_known(names: Seq<String>) -> bool {
    forall|i: int| 0 <= i < names.len() ==> capability_named(upper_of(names[i]@)) is Some
}

/// Reads the capability names of a plugin's configuration.
/// Names are matched without regard to case; the first unknown name is
/// returned as the error.
pub fn parse_permissions(names: &Vec<String>) -> (r: Result<Permissions, String>)
    ensures
        r is Ok <==> names_known(names@),
        r matches Ok(p) ==> forall|c: Capability| p.spec_has(c) == names_grant(names@, c),
        r matches Err(e) ==> exists|i: int|
            0 <= i < names@.len() && e@ == names@[i]@ && capability_named(upper_of(names@[i]@))
                is None && names_known(names@.subrange(0, i)),
{
    let mut p = Permissions::empty();
    let mut i: usize = 0;
    while i < names.len()
        invariant
            i <= names@.len(),
            names_known(names@.subrange(0, i as int)),
            forall|c: Capability| p.spec_has(c) == names_grant(names@.subrange(0, i as int), c),
        decreases names@.len() - i,
    {
        let upper = to_upper(names[i].as_str());
        match capability_from_name(upper.as_str()) {
            Some(c) => {
                p.grant(c);
                proof {
                    let prev = names@.subrange(0, i as int);
                    let next = names@.subrange(0, i + 1);
                    assert(next =~= prev.push(names@[i as int]));
                    assert forall|d: Capability| p.spec_has(d) == names_grant(next, d) by {
                        if names_grant(prev, d) {
                            let k = choose|k: int|
                                0 <= k < prev.len() && capability_named(upper_of(prev[k]@))
                                    == Some(d);
                            assert(next[k] == prev[k]);
                        }
                        if names_grant(next, d) && d != c {
                            let k = choose|k: int|
                                0 <= k < next.len() && capability_named(upper_of(next[k]@))
                                    == Some(d);
                            assert(k < prev.len());
                            assert(prev[k] == next[k]);
                        }
                        if d == c {
                            assert(next[i as int] == names@[i as int]);
                        }
                    }
                    assert forall|j: int| 0 <= j < next.len() implies capability_named(
                        upper_of(next[j]@),
                    ) is Some by {
                        if j < prev.len() {
                            assert(next[j] == prev[j]);
                        }
                    }
                }
            },
            None => {
                return Err(names[i].clone());
            },
        }
        i = i + 1;
    }
    assert(names@.subrange(0, names@.len() as int) =~= names@);
    Ok(p)
}

/// How often the log file is rotated.
#[derive(Clone, Copy, Debug, PartialEq, Eq, Structural)]
pub enum CliLogParametersFileRotation {
    Minutely,
    Hourly,
    Daily,
    Never,
}

impl CliLogParametersFileRotation {
    /// The rotation named by an already upper-cased string; anything
    /// unrecognised means daily rotation.
    pub fn from_upper(upper: &str) -> (r: CliLogParametersFileRotation)
        ensures
            r == (if upper@ == "MINUTELY"@ {
                CliLogParametersFileRotation::Minutely
            } else if upper@ == "HOURLY"@ {
                CliLogParametersFileRotation::Hourly
            } else if upper@ == "NEVER"@ {
                CliLogParametersFileRotation::Never
            } else {
                CliLogParametersFileRotation::Daily
            }),
    {
        if str_equals(upper, "MINUTELY") {
            CliLogParametersFileRotation::Minutely
        } else if str_equals(upper, "HOURLY") {
            CliLogParametersFileRotation::Hourly
        } else if str_equals(upper, "NEVER") {
            CliLogParametersFileRotation::Never
        } else {
            CliLogParametersFileRotation::Daily
        }
    }

    /// The rotation named by a command-line argument, read without regard to case.
    pub fn from_arg(arg: &str) -> (r: CliLogParametersFileRotation)
        ensures
            r == (if upper_of(arg@) == "MINUTELY"@ {
                CliLogParametersFileRotation::Minutely
            } else if upper_of(arg@) == "HOURLY"@ {
                CliLogParametersFileRotation::Hourly
            } else if upper_of(arg@) == "NEVER"@ {
                CliLogParametersFileRotation::Never
            } else {
                CliLogParametersFileRotation::Daily
            }),
    {
        let upper = to_upper(arg);
        CliLogParametersFileRotation::from_upper(upper.as_str())
    }
}

/// Whether a client token is usable: not empty, and free of `=` and NUL.
pub open spec fn token_is_valid(s: Seq<char>) -> bool {
    s.len() > 0 && forall|i: int| 0 <= i < s.len() ==> s[i] != '=' && s[i] != '\0'
}

/// Checks the bot's client token; hands it back when it is usable.
pub fn validate(token: String) -> (r: Result<String, ()>)
    ensures
        r is Ok <==> token_is_valid(token@),
        r matches Ok(t) ==> t@ == token@,
{
    let n = token.as_str().unicode_len();
    if n == 0 {
        return Err(());
    }
    let mut i: usize = 0;
    while i < n
        invariant
            n == token@.len(),
            i <= n,
            forall|j: int| 0 <= j < i ==> token@[j] != '=' && token@[j] != '\0',
        decreases n - i,
    {
        let c = token.as_str().get_char(i);
        if c == '=' || c == '\0' {
            return Err(());
        }
        i = i + 1;
    }
    Ok(token)
}

} // verus!
