//! The bot's settings as read from `config.toml`.
use crate::error::Error;
use crate::text::{chars_of, parse_u32_radix, parse_u32_radix_chars};
use vstd::prelude::*;

verus! {

/// The settings: token, prefix, application id, whether to copy codecs when
/// cutting, API keys and the embed colour.
#[derive(Clone)]
pub struct Config {
    token: String,
    prefix: String,
    application_id: u64,
    copy_codec: Option<bool>,
    youtube_api_key: String,
    mensa_api_key: Option<String>,
    color: String,
}

/// The settings as plain values.
pub struct ConfigView {
    pub token: Seq<char>,
    pub prefix: Seq<char>,
    pub application_id: u64,
    pub copy_codec: Option<bool>,
    pub youtube_api_key: Seq<char>,
    pub mensa_api_key: Option<Seq<char>>,
    pub color: Seq<char>,
}

pub open spec fn opt_string_view(s: Option<String>) -> Option<Seq<char>> {
    match s {
        Some(v) => Some(v@),
        None => None,
    }
}

impl View for Config {
    type V = ConfigView;

    closed spec fn view(&self) -> ConfigView {
        ConfigView {
            token: self.token@,
            prefix: self.prefix@,
            application_id: self.application_id,
            copy_codec: self.copy_codec,
            youtube_api_key: self.youtube_api_key@,
            mensa_api_key: opt_string_view(self.mensa_api_key),
            color: self.color@,
        }
    }
}

/// What reading the colour setting gives: the hexadecimal number, or the
/// error that it does not parse.
pub open spec fn spec_color(color: Seq<char>) -> Result<u32, Seq<char>> {
    match parse_u32_radix(color, 16) {
        Ok(v) => Ok(v),
        Err(_) => Err("couldn't parse color"@),
    }
}

impl Config {
    /// Settings with the given values.
    pub fn new(
        token: String,
        prefix: String,
        application_id: u64,
        copy_codec: Option<bool>,
        youtube_api_key: String,
        mensa_api_key: Option<String>,
        color: String,
    ) -> (r: Config)
        ensures
            r@ == (ConfigView {
                token: token@,
                prefix: prefix@,
                application_id,
                copy_codec,
                youtube_api_key: youtube_api_key@,
                mensa_api_key: opt_string_view(mensa_api_key),
                color: color@,
            }),
    {
        Config { token, prefix, application_id, copy_codec, youtube_api_key, mensa_api_key, color }
    }

    /// The bot token.
    pub fn token<'a>(&'a self) -> (r: &'a String)
        ensures
            r@ == self@.token,
    {
        &self.token
    }

    /// The command prefix.
    pub fn prefix<'a>(&'a self) -> (r: &'a String)
        ensures
            r@ == self@.prefix,
    {
        &self.prefix
    }

    /// The application id.
    pub fn get_application_id<'a>(&'a self) -> (r: &'a u64)
        ensures
            *r == self@.application_id,
    {
        &self.application_id
    }

    /// Whether cuts copy the streams instead of encoding them; off unless set.
    pub fn copy_codec(&self) -> (r: bool)
        ensures
            r == (self@.copy_codec == Some(true)),
    {
        if let Some(b) = self.copy_codec {
            b
        } else {
            false
        }
    }

    /// The key for the canteen API, if set.
    pub fn mensa_api_key<'a>(&'a self) -> (r: &'a Option<String>)
        ensures
            opt_string_view(*r) == self@.mensa_api_key,
    {
        &self.mensa_api_key
    }

    /// The YouTube API key.
    pub fn youtube_api_key<'a>(&'a self) -> (r: &'a String)
        ensures
            r@ == self@.youtube_api_key,
    {
        &self.youtube_api_key
    }

    /// The colour setting as written.
    pub fn color_text<'a>(&'a self) -> (r: &'a String)
        ensures
            r@ == self@.color,
    {
        &self.color
    }

    /// The stream copy setting as written.
    pub fn copy_codec_setting(&self) -> (r: Option<bool>)
        ensures
            r == self@.copy_codec,
    {
        self.copy_codec
    }

    /// The embed colour, read as a hexadecimal number.
    pub fn color(&self) -> (r: Result<u32, Error>)
        ensures
            match r {
                Ok(v) => spec_color(self@.color) == Ok::<u32, Seq<char>>(v),
                Err(e) => spec_color(self@.color) == Err::<u32, Seq<char>>(e@),
            },
    {
        let chars = chars_of(self.color.as_str());
        match parse_u32_radix_chars(chars.as_slice(), 16) {
            Ok(v) => Ok(v),
            Err(_) => Err(Error::Failure("couldn't parse color")),
        }
    }
}

} // verus!
