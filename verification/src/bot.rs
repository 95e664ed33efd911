//! The settings the bot starts with, merged from the environment and the
//! settings files, and the defaults that fill their gaps.
use crate::text::{chars_of, parse_u32_radix, parse_u32_radix_chars, replace_all, replace_all_chars, string_of, IntErrorKind};
use vstd::prelude::*;
use vstd::string::*;

verus! {

/// The settings file in TOML.
pub const TOML_CONFIG: &'static str = "config.toml";

/// The settings file in JSON.
pub const JSON_CONFIG: &'static str = "config.json";

/// The prefix of settings taken from the environment.
pub const ENV_PREFIX: &'static str = "AYAME_";

/// The embed colour when none is set.
pub const DEFAULT_COLOR: &'static str = "23272A";

/// The command prefix when none is set.
pub const DEFAULT_PREFIX: &'static str = "~";

/// The settings: the Discord token, optional API tokens, prefix and colour.
#[derive(Debug)]
pub struct Config {
    pub discord_token: String,
    pub youtube_token: Option<String>,
    pub swfr_token: Option<String>,
    pub prefix: Option<String>,
    pub color: Option<String>,
}

/// The data that every command gets.
#[non_exhaustive]
pub struct Data;

impl Data {
    /// The command data.
    pub fn new() -> Data {
        Data
    }
}

/// The colour setting with `#` and `0x` taken out, then read as a
/// hexadecimal number; `23272A` where none is set.
pub open spec fn spec_color_code(color: Option<Seq<char>>) -> Result<u32, IntErrorKind> {
    let text = match color {
        Some(c) => c,
        None => "23272A"@,
    };
    parse_u32_radix(replace_all(replace_all(text, seq!['#'], Seq::<char>::empty()), seq!['0', 'x'], Seq::<char>::empty()), 16)
}

impl Config {
    /// The command prefix, `~` where none is set.
    pub fn prefix_or_default(&self) -> (r: String)
        ensures
            r@ == match self.prefix {
                Some(p) => p@,
                None => "~"@,
            },
    {
        match &self.prefix {
            Some(p) => p.clone(),
            None => String::from_str("~"),
        }
    }

    /// The embed colour as a number, or why it does not read.
    pub fn color_code(&self) -> (r: Result<u32, IntErrorKind>)
        ensures
            r == spec_color_code(match self.color {
                Some(c) => Some(c@),
                None => None,
            }),
    {
        let text = match &self.color {
            Some(c) => chars_of(c.as_str()),
            None => chars_of("23272A"),
        };
        let mut hash: Vec<char> = Vec::new();
        hash.push('#');
        let mut hex: Vec<char> = Vec::new();
        hex.push('0');
        hex.push('x');
        let empty: Vec<char> = Vec::new();
        assert(hash@ =~= seq!['#']);
        assert(hex@ =~= seq!['0', 'x']);
        let no_hash = replace_all_chars(&text, &hash, &empty);
        let plain = replace_all_chars(&no_hash, &hex, &empty);
        parse_u32_radix_chars(plain.as_slice(), 16)
    }
}


/// A colour reads the same whether it is written plainly, like `#000000`, or
/// like `0x000000`.
pub proof fn lemma_color_prefixes(x: Seq<char>)
    ensures
        spec_color_code(Some(seq!['#'] + x)) == spec_color_code(Some(x)),
        spec_color_code(Some(seq!['0', 'x'] + x)) == spec_color_code(Some(x)),
{
    let hash = seq!['#'];
    let hex = seq!['0', 'x'];
    let empty = Seq::<char>::empty();
    let a = hash + x;
    assert(a.subrange(0, 1) =~= hash);
    assert(a.subrange(1, a.len() as int) =~= x);
    assert(replace_all(a, hash, empty) =~= replace_all(x, hash, empty));
    let b = hex + x;
    let r1 = replace_all(x, hash, empty);
    assert(b.subrange(0, 1) =~= seq!['0']);
    assert(b.drop_first() =~= seq!['x'] + x);
    assert((seq!['x'] + x).subrange(0, 1) =~= seq!['x']);
    assert((seq!['x'] + x).drop_first() =~= x);
    assert(seq!['x'] != hash) by {
        assert(seq!['x'][0] != hash[0]);
    }
    assert(seq!['0'] != hash) by {
        assert(seq!['0'][0] != hash[0]);
    }
    assert(replace_all(seq!['x'] + x, hash, empty) =~= seq!['x'] + r1);
    assert(replace_all(b, hash, empty) =~= hex + r1);
    let c = hex + r1;
    assert(c.subrange(0, 2) =~= hex);
    assert(c.subrange(2, c.len() as int) =~= r1);
    assert(replace_all(c, hex, empty) =~= replace_all(r1, hex, empty));
}

} // verus!
