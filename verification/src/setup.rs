//! The minimal settings (token and prefix), and how they are obtained: from
//! the settings file, or from the user when asked to.
use crate::text::{chars_of, string_of, trim_chars, trimmed};
use vstd::prelude::*;

verus! {

/// The bot token and command prefix.
#[derive(Clone)]
pub struct Config {
    token: String,
    prefix: String,
}

impl View for Config {
    type V = (Seq<char>, Seq<char>);

    closed spec fn view(&self) -> (Seq<char>, Seq<char>) {
        (self.token@, self.prefix@)
    }
}

impl Config {
    /// Settings with the given token and prefix.
    pub fn new(token: String, prefix: String) -> (r: Config)
        ensures
            r@ == (token@, prefix@),
    {
        Config { token, prefix }
    }

    /// The bot token.
    pub fn token(&self) -> (r: String)
        ensures
            r@ == self@.0,
    {
        self.token.clone()
    }

    /// The command prefix.
    pub fn prefix(&self) -> (r: String)
        ensures
            r@ == self@.1,
    {
        self.prefix.clone()
    }
}

/// The settings from the two lines a user typed, token first: leading and
/// trailing white space (the line break too) would break the token and the
/// prefix, so it is trimmed off.
pub fn get_config_from_user(token_line: &str, prefix_line: &str) -> (r: Config)
    ensures
        r@ == (trimmed(token_line@), trimmed(prefix_line@)),
{
    let token = trim_chars(&chars_of(token_line));
    let prefix = trim_chars(&chars_of(prefix_line));
    Config { token: string_of(token.as_slice()), prefix: string_of(prefix.as_slice()) }
}

/// Where the settings come from.
#[derive(Clone, Copy, Debug, PartialEq, Eq, Structural)]
pub enum ConfigSource {
    /// Ask the user, and write the answer to the settings file.
    AskUser,
    /// Use what the settings file holds.
    UseFile,
    /// Stop: the file is missing or unreadable and the user is not asked.
    Abort,
}

/// A missing file is created from the user's answers when asked to, and a
/// file that does not parse is replaced the same way; without asking, both
/// stop the bot.
pub open spec fn spec_config_source(interactively: bool, file_exists: bool, file_parses: bool) -> ConfigSource {
    if !file_exists {
        if interactively {
            ConfigSource::AskUser
        } else {
            ConfigSource::Abort
        }
    } else if file_parses {
        ConfigSource::UseFile
    } else if interactively {
        ConfigSource::AskUser
    } else {
        ConfigSource::Abort
    }
}

/// Decides where the settings come from.
pub fn config_source(interactively: bool, file_exists: bool, file_parses: bool) -> (r: ConfigSource)
    ensures
        r == spec_config_source(interactively, file_exists, file_parses),
{
    if !file_exists && interactively {
        return ConfigSource::AskUser;
    }
    if !file_exists {
        return ConfigSource::Abort;
    }
    if file_parses {
        ConfigSource::UseFile
    } else if interactively {
        ConfigSource::AskUser
    } else {
        ConfigSource::Abort
    }
}

/// The settings come from the file exactly when it exists and parses, whether
/// or not the start is interactive. Otherwise the user is asked exactly when
/// the start is interactive, and the bot stops when it is not.
pub proof fn lemma_config_source_rules(interactively: bool, file_exists: bool, file_parses: bool)
    ensures
        (spec_config_source(interactively, file_exists, file_parses) == ConfigSource::UseFile) <==> (
        file_exists && file_parses),
        (spec_config_source(interactively, file_exists, file_parses) == ConfigSource::AskUser) <==> (!(
        file_exists && file_parses) && interactively),
        (spec_config_source(interactively, file_exists, file_parses) == ConfigSource::Abort) <==> (!(
        file_exists && file_parses) && !interactively),
{
}

} // verus!
