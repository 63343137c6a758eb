//! Commands: the verbs and numeric replies the parser recognises.
use crate::span::Span;
use crate::text::bytes_eq;
use vstd::prelude::*;
use vstd::string::StringSliceAdditionalSpecFns;

verus! {

/// The number of known commands.
pub const KNOWN_COMMANDS: usize = 24;

/// A command. Others keep the span of their token.
#[derive(Clone, Copy, Debug, PartialEq, Eq, Structural)]
pub enum Command {
    /// `PING`
    Ping,
    /// `PONG`
    Pong,
    /// `PASS`
    Pass,
    /// `NICK`
    Nick,
    /// `JOIN`
    Join,
    /// `PART`
    Part,
    /// `PRIVMSG`
    Privmsg,
    /// `WHISPER`
    Whisper,
    /// `CLEARCHAT`
    ClearChat,
    /// `CLEARMSG`
    ClearMsg,
    /// `GLOBALUSERSTATE`
    GlobalUserState,
    /// `HOSTTARGET`
    HostTarget,
    /// `NOTICE`
    Notice,
    /// `RECONNECT`
    Reconnect,
    /// `ROOMSTATE`
    RoomState,
    /// `USERNOTICE`
    UserNotice,
    /// `USERSTATE`
    UserState,
    /// `CAP`
    Capability,
    /// `001`
    RplWelcome,
    /// `002`
    RplYourHost,
    /// `003`
    RplCreated,
    /// `004`
    RplMyInfo,
    /// `353`
    RplNamReply,
    /// `366`
    RplEndOfNames,
    /// Any other token.
    Other(Span),
}

/// The `i`-th entry of the table of known commands.
pub open spec fn known_command(i: usize) -> Option<Command> {
    match i {
        0 => Some(Command::Ping),
        1 => Some(Command::Pong),
        2 => Some(Command::Pass),
        3 => Some(Command::Nick),
        4 => Some(Command::Join),
        5 => Some(Command::Part),
        6 => Some(Command::Privmsg),
        7 => Some(Command::Whisper),
        8 => Some(Command::ClearChat),
        9 => Some(Command::ClearMsg),
        10 => Some(Command::GlobalUserState),
        11 => Some(Command::HostTarget),
        12 => Some(Command::Notice),
        13 => Some(Command::Reconnect),
        14 => Some(Command::RoomState),
        15 => Some(Command::UserNotice),
        16 => Some(Command::UserState),
        17 => Some(Command::Capability),
        18 => Some(Command::RplWelcome),
        19 => Some(Command::RplYourHost),
        20 => Some(Command::RplCreated),
        21 => Some(Command::RplMyInfo),
        22 => Some(Command::RplNamReply),
        23 => Some(Command::RplEndOfNames),
        _ => None,
    }
}

/// The first entry of the table, from `i` on, whose token is `token`.
pub open spec fn lookup_command_from(token: Seq<u8>, i: int) -> Option<Command>
    decreases KNOWN_COMMANDS - i,
{
    if i < 0 || i >= KNOWN_COMMANDS {
        None
    } else if known_command(i as usize).unwrap().spec_name().spec_bytes() == token {
        known_command(i as usize)
    } else {
        lookup_command_from(token, i + 1)
    }
}

/// The command that the bytes `token`, found at `span`, stand for.
pub open spec fn resolve_command(token: Seq<u8>, span: Span) -> Command {
    match lookup_command_from(token, 0) {
        Some(c) => c,
        None => Command::Other(span),
    }
}

/// A lookup finds only commands of the table, never another token.
pub proof fn lemma_lookup_known(token: Seq<u8>, i: int)
    ensures
        lookup_command_from(token, i) matches Some(c) ==> !(c is Other),
    decreases KNOWN_COMMANDS - i,
{
    if 0 <= i < KNOWN_COMMANDS {
        lemma_lookup_known(token, i + 1);
    }
}

impl Command {
    /// The token as it stands on the wire; empty for another command.
    pub open spec fn spec_name(self) -> &'static str {
        match self {
            Command::Ping => "PING",
            Command::Pong => "PONG",
            Command::Pass => "PASS",
            Command::Nick => "NICK",
            Command::Join => "JOIN",
            Command::Part => "PART",
            Command::Privmsg => "PRIVMSG",
            Command::Whisper => "WHISPER",
            Command::ClearChat => "CLEARCHAT",
            Command::ClearMsg => "CLEARMSG",
            Command::GlobalUserState => "GLOBALUSERSTATE",
            Command::HostTarget => "HOSTTARGET",
            Command::Notice => "NOTICE",
            Command::Reconnect => "RECONNECT",
            Command::RoomState => "ROOMSTATE",
            Command::UserNotice => "USERNOTICE",
            Command::UserState => "USERSTATE",
            Command::Capability => "CAP",
            Command::RplWelcome => "001",
            Command::RplYourHost => "002",
            Command::RplCreated => "003",
            Command::RplMyInfo => "004",
            Command::RplNamReply => "353",
            Command::RplEndOfNames => "366",
            Command::Other(_) => "",
        }
    }

    /// The token as it stands on the wire; empty for another command.
    pub fn name(&self) -> (r: &'static str)
        ensures
            r == self.spec_name(),
    {
        match self {
            Command::Ping => "PING",
            Command::Pong => "PONG",
            Command::Pass => "PASS",
            Command::Nick => "NICK",
            Command::Join => "JOIN",
            Command::Part => "PART",
            Command::Privmsg => "PRIVMSG",
            Command::Whisper => "WHISPER",
            Command::ClearChat => "CLEARCHAT",
            Command::ClearMsg => "CLEARMSG",
            Command::GlobalUserState => "GLOBALUSERSTATE",
            Command::HostTarget => "HOSTTARGET",
            Command::Notice => "NOTICE",
            Command::Reconnect => "RECONNECT",
            Command::RoomState => "ROOMSTATE",
            Command::UserNotice => "USERNOTICE",
            Command::UserState => "USERSTATE",
            Command::Capability => "CAP",
            Command::RplWelcome => "001",
            Command::RplYourHost => "002",
            Command::RplCreated => "003",
            Command::RplMyInfo => "004",
            Command::RplNamReply => "353",
            Command::RplEndOfNames => "366",
            Command::Other(_) => "",
        }
    }

    /// The `i`-th entry of the table of known commands.
    pub fn known(i: usize) -> (r: Option<Command>)
        ensures
            r == known_command(i),
    {
        match i {
            0 => Some(Command::Ping),
            1 => Some(Command::Pong),
            2 => Some(Command::Pass),
            3 => Some(Command::Nick),
            4 => Some(Command::Join),
            5 => Some(Command::Part),
            6 => Some(Command::Privmsg),
            7 => Some(Command::Whisper),
            8 => Some(Command::ClearChat),
            9 => Some(Command::ClearMsg),
            10 => Some(Command::GlobalUserState),
            11 => Some(Command::HostTarget),
            12 => Some(Command::Notice),
            13 => Some(Command::Reconnect),
            14 => Some(Command::RoomState),
            15 => Some(Command::UserNotice),
            16 => Some(Command::UserState),
            17 => Some(Command::Capability),
            18 => Some(Command::RplWelcome),
            19 => Some(Command::RplYourHost),
            20 => Some(Command::RplCreated),
            21 => Some(Command::RplMyInfo),
            22 => Some(Command::RplNamReply),
            23 => Some(Command::RplEndOfNames),
            _ => None,
        }
    }

    /// Resolves the bytes of a command token found at `span`.
    pub fn from_bytes(token: &[u8], span: Span) -> (r: Command)
        ensures
            r == resolve_command(token@, span),
    {
        let mut i: usize = 0;
        while i < KNOWN_COMMANDS
            invariant
                i <= KNOWN_COMMANDS,
                lookup_command_from(token@, 0) == lookup_command_from(token@, i as int),
            decreases KNOWN_COMMANDS - i,
        {
            let c = Command::known(i).unwrap();
            if bytes_eq(token, c.name().as_bytes()) {
                return c;
            }
            i += 1;
        }
        Command::Other(span)
    }
}

} // verus!
