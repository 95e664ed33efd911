//! Exclusions between users, and Discord time tags.
use crate::text::{chars_of, decimal, push_decimal, push_signed_decimal, push_str, signed_decimal, string_of};
use vstd::prelude::*;

verus! {

/// The Discord tag that shows a Unix time relative to now (`<t:…:R>`).
pub open spec fn relative_tag(unix: int) -> Seq<char> {
    "<t:"@ + signed_decimal(unix) + ":R>"@
}

/// The Discord tag that shows a Unix time as a short time of day (`<t:…:t>`).
pub open spec fn short_tag(unix: int) -> Seq<char> {
    "<t:"@ + signed_decimal(unix) + ":t>"@
}

/// The tag that shows the given Unix time relative to now.
pub fn to_relative_timestamp(unix: i64) -> (r: String)
    ensures
        r@ == relative_tag(unix as int),
{
    let mut v = chars_of("<t:");
    push_signed_decimal(&mut v, unix);
    push_str(&mut v, ":R>");
    string_of(v.as_slice())
}

/// The tag that shows the given Unix time as a short time of day.
pub fn to_short_timestamp(unix: i64) -> (r: String)
    ensures
        r@ == short_tag(unix as int),
{
    let mut v = chars_of("<t:");
    push_signed_decimal(&mut v, unix);
    push_str(&mut v, ":t>");
    string_of(v.as_slice())
}

/// Two users that should not see each other.
#[derive(Clone, Copy, Debug)]
pub struct Exclusion((u64, u64));

impl View for Exclusion {
    type V = (u64, u64);

    closed spec fn view(&self) -> (u64, u64) {
        self.0
    }
}

impl Exclusion {
    /// The two users.
    pub fn users(&self) -> (r: &(u64, u64))
        ensures
            *r == self@,
    {
        &self.0
    }
}

impl From<(u64, u64)> for Exclusion {
    /// The exclusion of the two users of the pair, in order.
    fn from(tuple: (u64, u64)) -> (r: Exclusion)
        ensures
            r@ == tuple,
    {
        Exclusion((tuple.0, tuple.1))
    }
}

impl vstd::std_specs::convert::FromSpecImpl<(u64, u64)> for Exclusion {
    open spec fn obeys_from_spec() -> bool {
        true
    }

    closed spec fn from_spec(v: (u64, u64)) -> Exclusion {
        Exclusion(v)
    }
}

impl From<(i64, i64)> for Exclusion {
    /// Ids stored as signed numbers are taken back bit for bit.
    fn from(tuple: (i64, i64)) -> (r: Exclusion)
        ensures
            r@ == (tuple.0 as u64, tuple.1 as u64),
            r@.0 as i64 == tuple.0,
            r@.1 as i64 == tuple.1,
    {
        proof {
            let (a, b) = tuple;
            assert((a as u64) as i64 == a) by (bit_vector);
            assert((b as u64) as i64 == b) by (bit_vector);
        }
        Exclusion((tuple.0 as u64, tuple.1 as u64))
    }
}

impl vstd::std_specs::convert::FromSpecImpl<(i64, i64)> for Exclusion {
    open spec fn obeys_from_spec() -> bool {
        true
    }

    closed spec fn from_spec(v: (i64, i64)) -> Exclusion {
        Exclusion((v.0 as u64, v.1 as u64))
    }
}

/// Converting a pair of user ids into an exclusion keeps the pair, and a pair
/// of signed ids is taken bit for bit, so that storing it signed again gives
/// the same ids back.
pub proof fn lemma_exclusion_from(pair: (u64, u64), stored: (i64, i64))
    ensures
        <Exclusion as vstd::std_specs::convert::FromSpec<(u64, u64)>>::from_spec(pair)@ == pair,
        <Exclusion as vstd::std_specs::convert::FromSpec<(i64, i64)>>::from_spec(stored)@ == (
            stored.0 as u64,
            stored.1 as u64,
        ),
        (stored.0 as u64) as i64 == stored.0,
        (stored.1 as u64) as i64 == stored.1,
{
    let (a, b) = stored;
    assert((a as u64) as i64 == a) by (bit_vector);
    assert((b as u64) as i64 == b) by (bit_vector);
}

impl Exclusion {
    /// An exclusion of two users.
    pub fn of_users(user_1: u64, user_2: u64) -> (r: Exclusion)
        ensures
            r@ == (user_1, user_2),
    {
        Exclusion((user_1, user_2))
    }

    /// An exclusion read from storage, where ids are signed numbers.
    pub fn from_stored(user_1: i64, user_2: i64) -> (r: Exclusion)
        ensures
            r@ == (user_1 as u64, user_2 as u64),
    {
        Exclusion((user_1 as u64, user_2 as u64))
    }
}

/// The users to hide a channel from: for each exclusion in order, the second
/// user if the first is in the channel, else the first if the second is.
pub open spec fn exclusion_targets(ex: Seq<(u64, u64)>, members: Seq<u64>) -> Seq<u64>
    decreases ex.len(),
{
    if ex.len() == 0 {
        Seq::<u64>::empty()
    } else {
        let (u1, u2) = ex.last();
        exclusion_targets(ex.drop_last(), members) + (if members.contains(u1) {
            seq![u2]
        } else if members.contains(u2) {
            seq![u1]
        } else {
            Seq::<u64>::empty()
        })
    }
}

pub open spec fn exclusions_view(v: Seq<Exclusion>) -> Seq<(u64, u64)> {
    v.map_values(|e: Exclusion| e@)
}

fn contains_user(members: &Vec<u64>, user: u64) -> (r: bool)
    ensures
        r == members@.contains(user),
{
    let mut i: usize = 0;
    while i < members.len()
        invariant
            i <= members.len(),
            forall|j: int| 0 <= j < i ==> members@[j] != user,
        decreases members.len() - i,
    {
        if members[i] == user {
            assert(members@[i as int] == user);
            return true;
        }
        i = i + 1;
    }
    false
}

/// The users that must not see a channel whose members are `members`.
pub fn exclusion_collisions(exclusions: &Vec<Exclusion>, members: &Vec<u64>) -> (r: Vec<u64>)
    ensures
        r@ == exclusion_targets(exclusions_view(exclusions@), members@),
{
    let ghost ex = exclusions_view(exclusions@);
    let mut out: Vec<u64> = Vec::new();
    let mut i: usize = 0;
    assert(ex.subrange(0, 0) =~= Seq::<(u64, u64)>::empty());
    while i < exclusions.len()
        invariant
            ex == exclusions_view(exclusions@),
            i <= exclusions.len(),
            out@ == exclusion_targets(ex.subrange(0, i as int), members@),
        decreases exclusions.len() - i,
    {
        let (u1, u2) = *exclusions[i].users();
        let ghost prefix = ex.subrange(0, i + 1);
        assert(prefix.drop_last() =~= ex.subrange(0, i as int));
        assert(prefix.last() == (u1, u2));
        if contains_user(members, u1) {
            out.push(u2);
        } else if contains_user(members, u2) {
            out.push(u1);
        }
        assert(out@ =~= exclusion_targets(prefix, members@));
        i = i + 1;
    }
    assert(ex.subrange(0, exclusions.len() as int) =~= ex);
    out
}

/// `t` is hidden because of `e`: `t` is one side of `e` and the other side
/// is in the channel.
pub open spec fn hidden_because(e: (u64, u64), t: u64, members: Seq<u64>) -> bool {
    (e.1 == t && members.contains(e.0)) || (e.0 == t && members.contains(e.1))
}

/// Every user a channel is hidden from is excluded from someone who is in
/// the channel.
pub proof fn lemma_targets_have_partner(ex: Seq<(u64, u64)>, members: Seq<u64>, k: int)
    requires
        0 <= k < exclusion_targets(ex, members).len(),
    ensures
        exists|j: int|
            0 <= j < ex.len() && hidden_because(#[trigger] ex[j], exclusion_targets(ex, members)[k], members),
    decreases ex.len(),
{
    let rest = exclusion_targets(ex.drop_last(), members);
    let t = exclusion_targets(ex, members)[k];
    if k < rest.len() {
        lemma_targets_have_partner(ex.drop_last(), members, k);
        let j = choose|j: int|
            0 <= j < ex.drop_last().len() && hidden_because(#[trigger] ex.drop_last()[j], rest[k], members);
        assert(ex[j] == ex.drop_last()[j]);
        assert(hidden_because(ex[j], t, members));
    } else {
        let j = ex.len() - 1;
        assert(ex[j] == ex.last());
        assert(hidden_because(ex[j], t, members));
    }
}


/// The period of a map in the rotation: `from <start> to <end>`, as short
/// time tags.
pub open spec fn spec_map_period(start: int, end: int) -> Seq<char> {
    "from "@ + short_tag(start) + " to "@ + short_tag(end)
}

/// The period of a map from its start and end (Unix times).
pub fn map_period(start: i64, end: i64) -> (r: String)
    ensures
        r@ == spec_map_period(start as int, end as int),
{
    let mut v = chars_of("from ");
    let a = to_short_timestamp(start);
    push_str(&mut v, a.as_str());
    push_str(&mut v, " to ");
    let b = to_short_timestamp(end);
    push_str(&mut v, b.as_str());
    string_of(v.as_slice())
}

/// When a map is due: for the current map ` ` and its start relative to
/// now, otherwise `next map ` and its end.
pub open spec fn spec_map_time(next_map: bool, start: int, end: int) -> Seq<char> {
    if next_map {
        " "@ + relative_tag(start)
    } else {
        "next map "@ + relative_tag(end)
    }
}

/// When a map is due, from its start and end (Unix times).
pub fn map_time(next_map: bool, start: i64, end: i64) -> (r: String)
    ensures
        r@ == spec_map_time(next_map, start as int, end as int),
{
    let (text, time) = if next_map {
        ("", start)
    } else {
        ("next map", end)
    };
    let mut v = chars_of(text);
    push_str(&mut v, " ");
    let t = to_relative_timestamp(time);
    push_str(&mut v, t.as_str());
    proof {
        reveal_strlit("");
        reveal_strlit(" ");
        reveal_strlit("next map");
        reveal_strlit("next map ");
    }
    string_of(v.as_slice())
}

/// The field of the `index`-th exclusion in the list: its name and the
/// mentions of both users.
pub fn exclusion_field(index: usize, exclusion: &Exclusion) -> (r: (String, String))
    ensures
        r.0@ == decimal(index as nat) + " Exclusion"@,
        r.1@ == "<@"@ + decimal(exclusion@.0 as nat) + "> ignores <@"@ + decimal(exclusion@.1 as nat) + ">"@,
{
    let (id_1, id_2) = *exclusion.users();
    let mut name: Vec<char> = Vec::new();
    push_decimal(&mut name, index as u64);
    push_str(&mut name, " Exclusion");
    let mut value = chars_of("<@");
    push_decimal(&mut value, id_1);
    push_str(&mut value, "> ignores <@");
    push_decimal(&mut value, id_2);
    push_str(&mut value, ">");
    (string_of(name.as_slice()), string_of(value.as_slice()))
}

} // verus!
