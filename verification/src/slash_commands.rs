//! The registry of slash commands: each command has a unique alias, which is
//! also its name at Discord, and is registered either per guild or globally.
use vstd::prelude::*;
use vstd::string::*;

verus! {

/// Where a command is registered.
#[derive(Clone, Copy, Debug, PartialEq, Eq, Structural)]
pub enum Scope {
    GUILD,
    GLOBAL,
}

/// The slash commands the bot knows.
#[derive(Clone, Copy, Debug, PartialEq, Eq, Structural)]
pub enum SlashCommandKind {
    Play,
    Join,
    Invite,
    Mock,
    Leave,
    Skip,
    Mute,
    Deafen,
    Playing,
    Pause,
    Resume,
    Search,
}

/// The alias of a command.
pub open spec fn kind_alias(k: SlashCommandKind) -> Seq<char> {
    match k {
        SlashCommandKind::Play => "play"@,
        SlashCommandKind::Join => "join"@,
        SlashCommandKind::Invite => "invite"@,
        SlashCommandKind::Mock => "mock"@,
        SlashCommandKind::Leave => "leave"@,
        SlashCommandKind::Skip => "skip"@,
        SlashCommandKind::Mute => "mute"@,
        SlashCommandKind::Deafen => "deafen"@,
        SlashCommandKind::Playing => "playing"@,
        SlashCommandKind::Pause => "pause"@,
        SlashCommandKind::Resume => "resume"@,
        SlashCommandKind::Search => "search"@,
    }
}

/// The scope of a command: inviting and mocking work everywhere, the music
/// commands only in a guild.
pub open spec fn kind_scope(k: SlashCommandKind) -> Scope {
    match k {
        SlashCommandKind::Invite | SlashCommandKind::Mock => Scope::GLOBAL,
        _ => Scope::GUILD,
    }
}

impl SlashCommandKind {
    /// Where the command is registered.
    pub fn scope(&self) -> (r: Scope)
        ensures
            r == kind_scope(*self),
    {
        match self {
            SlashCommandKind::Invite | SlashCommandKind::Mock => Scope::GLOBAL,
            _ => Scope::GUILD,
        }
    }

    /// The alias of the command.
    pub fn alias(&self) -> (r: String)
        ensures
            r@ == kind_alias(*self),
    {
        match self {
            SlashCommandKind::Play => String::from_str("play"),
            SlashCommandKind::Join => String::from_str("join"),
            SlashCommandKind::Invite => String::from_str("invite"),
            SlashCommandKind::Mock => String::from_str("mock"),
            SlashCommandKind::Leave => String::from_str("leave"),
            SlashCommandKind::Skip => String::from_str("skip"),
            SlashCommandKind::Mute => String::from_str("mute"),
            SlashCommandKind::Deafen => String::from_str("deafen"),
            SlashCommandKind::Playing => String::from_str("playing"),
            SlashCommandKind::Pause => String::from_str("pause"),
            SlashCommandKind::Resume => String::from_str("resume"),
            SlashCommandKind::Search => String::from_str("search"),
        }
    }
}

/// The first command whose alias is `key`.
pub open spec fn spec_find(cmds: Seq<SlashCommandKind>, key: Seq<char>) -> Option<SlashCommandKind>
    decreases cmds.len(),
{
    if cmds.len() == 0 {
        None
    } else if kind_alias(cmds[0]) == key {
        Some(cmds[0])
    } else {
        spec_find(cmds.drop_first(), key)
    }
}

/// The commands of a scope, in order.
pub open spec fn spec_in_scope(cmds: Seq<SlashCommandKind>, filter: Scope) -> Seq<SlashCommandKind> {
    cmds.filter(|k: SlashCommandKind| kind_scope(k) == filter)
}

/// The commands that `get_slash_handler` registers, in order.
pub open spec fn registered_commands() -> Seq<SlashCommandKind> {
    seq![
        SlashCommandKind::Play,
        SlashCommandKind::Join,
        SlashCommandKind::Invite,
        SlashCommandKind::Mock,
        SlashCommandKind::Leave,
        SlashCommandKind::Skip,
        SlashCommandKind::Mute,
        SlashCommandKind::Deafen,
        SlashCommandKind::Playing,
        SlashCommandKind::Pause,
        SlashCommandKind::Resume,
        SlashCommandKind::Search,
    ]
}

/// The commands that can be invoked, in the order they were added.
pub struct SlashCommandHandler {
    commands: Vec<SlashCommandKind>,
}

impl View for SlashCommandHandler {
    type V = Seq<SlashCommandKind>;

    closed spec fn view(&self) -> Seq<SlashCommandKind> {
        self.commands@
    }
}

impl SlashCommandHandler {
    /// A handler without commands.
    pub fn new() -> (r: Self)
        ensures
            r@ == Seq::<SlashCommandKind>::empty(),
    {
        SlashCommandHandler { commands: Vec::new() }
    }

    /// Adds a command.
    pub fn add_migration(&mut self, command: SlashCommandKind)
        ensures
            final(self)@ == old(self)@.push(command),
    {
        self.commands.push(command);
    }

    /// The first command whose alias is `key`.
    pub fn find(&self, key: &str) -> (r: Option<SlashCommandKind>)
        ensures
            r == spec_find(self@, key@),
    {
        let key_string = String::from_str(key);
        let mut i: usize = 0;
        assert(self@.subrange(0, self@.len() as int) == self@);
        while i < self.commands.len()
            invariant
                i <= self.commands.len(),
                key_string@ == key@,
                spec_find(self@, key@) == spec_find(self@.subrange(i as int, self@.len() as int), key@),
            decreases self.commands.len() - i,
        {
            let k = self.commands[i];
            let ghost rest = self@.subrange(i as int, self@.len() as int);
            assert(rest[0] == k);
            assert(rest.drop_first() == self@.subrange(i + 1, self@.len() as int));
            if k.alias() == key_string {
                return Some(k);
            }
            i = i + 1;
        }
        None
    }

    /// The commands registered in the given scope, in order.
    pub fn commands_in_scope(&self, filter: Scope) -> (r: Vec<SlashCommandKind>)
        ensures
            r@ == spec_in_scope(self@, filter),
    {
        let mut out: Vec<SlashCommandKind> = Vec::new();
        let mut i: usize = 0;
        let ghost pred = |k: SlashCommandKind| kind_scope(k) == filter;
        assert(self@.subrange(0, 0).filter(pred) =~= Seq::<SlashCommandKind>::empty()) by {
            reveal_with_fuel(Seq::filter, 1);
        }
        while i < self.commands.len()
            invariant
                i <= self.commands.len(),
                pred == (|k: SlashCommandKind| kind_scope(k) == filter),
                out@ == self@.subrange(0, i as int).filter(pred),
            decreases self.commands.len() - i,
        {
            let k = self.commands[i];
            assert(self@.subrange(0, i + 1).drop_last() =~= self@.subrange(0, i as int));
            assert(self@.subrange(0, i + 1).last() == k);
            if k.scope() == filter {
                out.push(k);
            }
            assert(out@ =~= self@.subrange(0, i + 1).filter(pred)) by {
                reveal_with_fuel(Seq::filter, 1);
            }
            i = i + 1;
        }
        assert(self@.subrange(0, self@.len() as int) =~= self@);
        out
    }

    /// The aliases of the commands registered in the given scope, in order.
    pub fn get_all_aliases(&self, filter: Scope) -> (r: Vec<String>)
        ensures
            r@.map_values(|s: String| s@) == spec_in_scope(self@, filter).map_values(|k: SlashCommandKind| kind_alias(k)),
    {
        let cmds = self.commands_in_scope(filter);
        let mut out: Vec<String> = Vec::new();
        let mut i: usize = 0;
        while i < cmds.len()
            invariant
                i <= cmds.len(),
                cmds@ == spec_in_scope(self@, filter),
                out@.map_values(|s: String| s@) == cmds@.subrange(0, i as int).map_values(
                    |k: SlashCommandKind| kind_alias(k),
                ),
            decreases cmds.len() - i,
        {
            let a = cmds[i].alias();
            let ghost before = out@;
            out.push(a);
            assert(out@.map_values(|s: String| s@) =~= before.map_values(|s: String| s@).push(a@));
            assert(out@.map_values(|s: String| s@) =~= cmds@.subrange(0, i + 1).map_values(
                |k: SlashCommandKind| kind_alias(k),
            ));
            i = i + 1;
        }
        assert(cmds@.subrange(0, cmds.len() as int) =~= cmds@);
        out
    }
}

/// The handler with all the bot's slash commands.
pub fn get_slash_handler() -> (r: SlashCommandHandler)
    ensures
        r@ == registered_commands(),
{
    let mut handler = SlashCommandHandler::new();
    handler.add_migration(SlashCommandKind::Play);
    handler.add_migration(SlashCommandKind::Join);
    handler.add_migration(SlashCommandKind::Invite);
    handler.add_migration(SlashCommandKind::Mock);
    handler.add_migration(SlashCommandKind::Leave);
    handler.add_migration(SlashCommandKind::Skip);
    handler.add_migration(SlashCommandKind::Mute);
    handler.add_migration(SlashCommandKind::Deafen);
    handler.add_migration(SlashCommandKind::Playing);
    handler.add_migration(SlashCommandKind::Pause);
    handler.add_migration(SlashCommandKind::Resume);
    handler.add_migration(SlashCommandKind::Search);
    assert(handler@ =~= registered_commands());
    handler
}


/// No two commands share an alias.
pub proof fn lemma_alias_unique(a: SlashCommandKind, b: SlashCommandKind)
    requires
        kind_alias(a) == kind_alias(b),
    ensures
        a == b,
{
    reveal_strlit("play");
    reveal_strlit("join");
    reveal_strlit("invite");
    reveal_strlit("mock");
    reveal_strlit("leave");
    reveal_strlit("skip");
    reveal_strlit("mute");
    reveal_strlit("deafen");
    reveal_strlit("playing");
    reveal_strlit("pause");
    reveal_strlit("resume");
    reveal_strlit("search");
    assert("play"@.len() == 4 && "play"@[0] == 'p' && "play"@[1] == 'l' && "play"@[2] == 'a');
    assert("join"@.len() == 4 && "join"@[0] == 'j' && "join"@[1] == 'o' && "join"@[2] == 'i');
    assert("invite"@.len() == 6 && "invite"@[0] == 'i' && "invite"@[1] == 'n' && "invite"@[2] == 'v');
    assert("mock"@.len() == 4 && "mock"@[0] == 'm' && "mock"@[1] == 'o' && "mock"@[2] == 'c');
    assert("leave"@.len() == 5 && "leave"@[0] == 'l' && "leave"@[1] == 'e' && "leave"@[2] == 'a');
    assert("skip"@.len() == 4 && "skip"@[0] == 's' && "skip"@[1] == 'k' && "skip"@[2] == 'i');
    assert("mute"@.len() == 4 && "mute"@[0] == 'm' && "mute"@[1] == 'u' && "mute"@[2] == 't');
    assert("deafen"@.len() == 6 && "deafen"@[0] == 'd' && "deafen"@[1] == 'e' && "deafen"@[2] == 'a');
    assert("playing"@.len() == 7 && "playing"@[0] == 'p' && "playing"@[1] == 'l' && "playing"@[2] == 'a');
    assert("pause"@.len() == 5 && "pause"@[0] == 'p' && "pause"@[1] == 'a' && "pause"@[2] == 'u');
    assert("resume"@.len() == 6 && "resume"@[0] == 'r' && "resume"@[1] == 'e' && "resume"@[2] == 's');
    assert("search"@.len() == 6 && "search"@[0] == 's' && "search"@[1] == 'e' && "search"@[2] == 'a');
    let sa = kind_alias(a);
    let sb = kind_alias(b);
    assert(sa.len() == sb.len() && sa[0] == sb[0] && sa[1] == sb[1] && sa[2] == sb[2]);
}

/// In a list of commands, looking up a command's alias finds that command.
pub proof fn lemma_find_by_alias(cmds: Seq<SlashCommandKind>, k: SlashCommandKind)
    requires
        cmds.contains(k),
    ensures
        spec_find(cmds, kind_alias(k)) == Some(k),
    decreases cmds.len(),
{
    if cmds[0] != k {
        if kind_alias(cmds[0]) == kind_alias(k) {
            lemma_alias_unique(cmds[0], k);
        }
        let j = choose|j: int| 0 <= j < cmds.len() && cmds[j] == k;
        assert(cmds.drop_first()[j - 1] == k);
        lemma_find_by_alias(cmds.drop_first(), k);
    }
}

/// Every slash command is registered, and looking up its alias in the
/// registry finds it.
pub proof fn lemma_registry_finds_every_command(k: SlashCommandKind)
    ensures
        registered_commands().contains(k),
        spec_find(registered_commands(), kind_alias(k)) == Some(k),
{
    let r = registered_commands();
    let j: int = match k {
        SlashCommandKind::Play => 0,
        SlashCommandKind::Join => 1,
        SlashCommandKind::Invite => 2,
        SlashCommandKind::Mock => 3,
        SlashCommandKind::Leave => 4,
        SlashCommandKind::Skip => 5,
        SlashCommandKind::Mute => 6,
        SlashCommandKind::Deafen => 7,
        SlashCommandKind::Playing => 8,
        SlashCommandKind::Pause => 9,
        SlashCommandKind::Resume => 10,
        SlashCommandKind::Search => 11,
    };
    assert(r[j] == k);
    lemma_find_by_alias(r, k);
}

} // verus!
