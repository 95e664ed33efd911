//! The settings that are kept for a guild.
use vstd::prelude::*;

verus! {

/// A guild's id, command prefix and playback volume.
#[derive(Debug)]
pub struct Guild {
    id: u64,
    prefix: String,
    volume: u8,
}

impl Guild {
    /// The settings of the guild with the given id.
    pub fn new(id: u64, prefix: String, volume: u8) -> (r: Guild)
        ensures
            r.get_id() == id,
            r.spec_prefix() == prefix@,
            r.spec_volume() == volume,
    {
        Guild { id, prefix, volume }
    }

    pub closed spec fn spec_prefix(&self) -> Seq<char> {
        self.prefix@
    }

    pub closed spec fn spec_id(&self) -> u64 {
        self.id
    }

    pub closed spec fn spec_volume(&self) -> u8 {
        self.volume
    }

    /// The command prefix.
    pub fn get_prefix(&self) -> (r: &str)
        ensures
            r@ == self.spec_prefix(),
    {
        self.prefix.as_str()
    }

    /// The guild's id.
    #[verifier::when_used_as_spec(spec_id)]
    pub fn get_id(&self) -> (r: u64)
        ensures
            r == self.spec_id(),
    {
        self.id
    }

    /// The playback volume.
    pub fn get_volume(&self) -> (r: u8)
        ensures
            r == self.spec_volume(),
    {
        self.volume
    }

    /// Replaces the prefix; the id and volume stay.
    pub fn set_prefix(&mut self, new_prefix: String)
        ensures
            final(self).spec_prefix() == new_prefix@,
            final(self).spec_id() == old(self).spec_id(),
            final(self).spec_volume() == old(self).spec_volume(),
    {
        self.prefix = new_prefix;
    }

    /// Replaces the volume; the id and prefix stay.
    pub fn set_volume(&mut self, new_volume: u8)
        ensures
            final(self).spec_volume() == new_volume,
            final(self).spec_id() == old(self).spec_id(),
            final(self).spec_prefix() == old(self).spec_prefix(),
    {
        self.volume = new_volume;
    }
}

} // verus!
