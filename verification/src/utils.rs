//! Weekday names in German and English, and mocking text.
use crate::outside::{lowercase, regex_replace_first, regex_replaced, str_lower};
use crate::text::{all_ascii, ascii_lowered, chars_of, push_str, string_of};
use vstd::prelude::*;
use vstd::string::*;

verus! {

/// A day of the week.
#[derive(Clone, Copy, Debug, PartialEq, Eq, Structural)]
pub enum Weekday {
    Mon,
    Tue,
    Wed,
    Thu,
    Fri,
    Sat,
    Sun,
}

/// The English short name of a weekday, as chrono displays it.
pub open spec fn weekday_abbrev(wd: Weekday) -> Seq<char> {
    match wd {
        Weekday::Mon => "Mon"@,
        Weekday::Tue => "Tue"@,
        Weekday::Wed => "Wed"@,
        Weekday::Thu => "Thu"@,
        Weekday::Fri => "Fri"@,
        Weekday::Sat => "Sat"@,
        Weekday::Sun => "Sun"@,
    }
}

/// The German name of a weekday.
pub open spec fn german_name(wd: Weekday) -> Seq<char> {
    match wd {
        Weekday::Mon => "Montag"@,
        Weekday::Tue => "Dienstag"@,
        Weekday::Wed => "Mittwoch"@,
        Weekday::Thu => "Donnerstag"@,
        Weekday::Fri => "Freitag"@,
        Weekday::Sat => "Samstag"@,
        Weekday::Sun => "Sonntag"@,
    }
}

/// The weekday that a lower case German name or its two-letter short form
/// stands for.
pub open spec fn german_weekday(lower: Seq<char>) -> Option<Weekday> {
    if lower == "montag"@ || lower == "mo"@ {
        Some(Weekday::Mon)
    } else if lower == "dienstag"@ || lower == "di"@ {
        Some(Weekday::Tue)
    } else if lower == "mittwoch"@ || lower == "mi"@ {
        Some(Weekday::Wed)
    } else if lower == "donnerstag"@ || lower == "do"@ {
        Some(Weekday::Thu)
    } else if lower == "freitag"@ || lower == "fr"@ {
        Some(Weekday::Fri)
    } else if lower == "samstag"@ || lower == "sa"@ {
        Some(Weekday::Sat)
    } else if lower == "sonntag"@ || lower == "so"@ {
        Some(Weekday::Sun)
    } else {
        None
    }
}

/// The English short name for a German weekday name, or the text itself.
pub open spec fn spec_translate(lower: Seq<char>, fallback: Seq<char>) -> Seq<char> {
    match german_weekday(lower) {
        Some(wd) => weekday_abbrev(wd),
        None => fallback,
    }
}

/// The German name of a weekday, in any mix of ASCII upper and lower case, or
/// its first two letters, stands for that weekday, and translates to that
/// weekday's English short name; the short names of different weekdays differ.
pub proof fn lemma_translate_german_names(wd: Weekday, other: Weekday, t: Seq<char>)
    requires
        all_ascii(t),
        ascii_lowered(t) == ascii_lowered(german_name(wd)) || ascii_lowered(t) == ascii_lowered(
            german_name(wd),
        ).subrange(0, 2),
    ensures
        german_weekday(ascii_lowered(t)) == Some(wd),
        spec_translate(ascii_lowered(t), t) == weekday_abbrev(wd),
        wd != other ==> weekday_abbrev(wd) != weekday_abbrev(other),
{
    reveal_strlit("Montag");
    reveal_strlit("Dienstag");
    reveal_strlit("Mittwoch");
    reveal_strlit("Donnerstag");
    reveal_strlit("Freitag");
    reveal_strlit("Samstag");
    reveal_strlit("Sonntag");
    reveal_strlit("montag");
    reveal_strlit("dienstag");
    reveal_strlit("mittwoch");
    reveal_strlit("donnerstag");
    reveal_strlit("freitag");
    reveal_strlit("samstag");
    reveal_strlit("sonntag");
    reveal_strlit("mo");
    reveal_strlit("di");
    reveal_strlit("mi");
    reveal_strlit("do");
    reveal_strlit("fr");
    reveal_strlit("sa");
    reveal_strlit("so");
    reveal_strlit("Mon");
    reveal_strlit("Tue");
    reveal_strlit("Wed");
    reveal_strlit("Thu");
    reveal_strlit("Fri");
    reveal_strlit("Sat");
    reveal_strlit("Sun");
    let l = ascii_lowered(t);
    assert("montag"@[0] == 'm' && "montag"@[1] == 'o' && "montag"@.len() == 6);
    assert("mo"@[0] == 'm' && "mo"@[1] == 'o' && "mo"@.len() == 2);
    assert("dienstag"@[0] == 'd' && "dienstag"@[1] == 'i' && "dienstag"@.len() == 8);
    assert("di"@[0] == 'd' && "di"@[1] == 'i' && "di"@.len() == 2);
    assert("mittwoch"@[0] == 'm' && "mittwoch"@[1] == 'i' && "mittwoch"@.len() == 8);
    assert("mi"@[0] == 'm' && "mi"@[1] == 'i' && "mi"@.len() == 2);
    assert("donnerstag"@[0] == 'd' && "donnerstag"@[1] == 'o' && "donnerstag"@.len() == 10);
    assert("do"@[0] == 'd' && "do"@[1] == 'o' && "do"@.len() == 2);
    assert("freitag"@[0] == 'f' && "freitag"@[1] == 'r' && "freitag"@.len() == 7);
    assert("fr"@[0] == 'f' && "fr"@[1] == 'r' && "fr"@.len() == 2);
    assert("samstag"@[0] == 's' && "samstag"@[1] == 'a' && "samstag"@.len() == 7);
    assert("sa"@[0] == 's' && "sa"@[1] == 'a' && "sa"@.len() == 2);
    assert("sonntag"@[0] == 's' && "sonntag"@[1] == 'o' && "sonntag"@.len() == 7);
    assert("so"@[0] == 's' && "so"@[1] == 'o' && "so"@.len() == 2);
    match wd {
        Weekday::Mon => {
            assert(ascii_lowered(german_name(wd)) =~= "montag"@);
            assert("montag"@.subrange(0, 2) =~= "mo"@);
            assert(l.len() >= 2 && l[0] == 'm' && l[1] == 'o');
        },
        Weekday::Tue => {
            assert(ascii_lowered(german_name(wd)) =~= "dienstag"@);
            assert("dienstag"@.subrange(0, 2) =~= "di"@);
            assert(l.len() >= 2 && l[0] == 'd' && l[1] == 'i');
        },
        Weekday::Wed => {
            assert(ascii_lowered(german_name(wd)) =~= "mittwoch"@);
            assert("mittwoch"@.subrange(0, 2) =~= "mi"@);
            assert(l.len() >= 2 && l[0] == 'm' && l[1] == 'i');
        },
        Weekday::Thu => {
            assert(ascii_lowered(german_name(wd)) =~= "donnerstag"@);
            assert("donnerstag"@.subrange(0, 2) =~= "do"@);
            assert(l.len() >= 2 && l[0] == 'd' && l[1] == 'o');
        },
        Weekday::Fri => {
            assert(ascii_lowered(german_name(wd)) =~= "freitag"@);
            assert("freitag"@.subrange(0, 2) =~= "fr"@);
            assert(l.len() >= 2 && l[0] == 'f' && l[1] == 'r');
        },
        Weekday::Sat => {
            assert(ascii_lowered(german_name(wd)) =~= "samstag"@);
            assert("samstag"@.subrange(0, 2) =~= "sa"@);
            assert(l.len() >= 2 && l[0] == 's' && l[1] == 'a');
        },
        Weekday::Sun => {
            assert(ascii_lowered(german_name(wd)) =~= "sonntag"@);
            assert("sonntag"@.subrange(0, 2) =~= "so"@);
            assert(l.len() >= 2 && l[0] == 's' && l[1] == 'o');
        },
    }
    if wd != other {
        if weekday_abbrev(wd) == weekday_abbrev(other) {
            match wd {
                Weekday::Mon => { assert(weekday_abbrev(other)[0] == 'M'); assert(weekday_abbrev(other)[1] == 'o'); },
                Weekday::Tue => { assert(weekday_abbrev(other)[0] == 'T'); assert(weekday_abbrev(other)[1] == 'u'); },
                Weekday::Wed => { assert(weekday_abbrev(other)[0] == 'W'); },
                Weekday::Thu => { assert(weekday_abbrev(other)[0] == 'T'); assert(weekday_abbrev(other)[1] == 'h'); },
                Weekday::Fri => { assert(weekday_abbrev(other)[0] == 'F'); },
                Weekday::Sat => { assert(weekday_abbrev(other)[0] == 'S'); assert(weekday_abbrev(other)[1] == 'a'); },
                Weekday::Sun => { assert(weekday_abbrev(other)[0] == 'S'); assert(weekday_abbrev(other)[1] == 'u'); },
            }
        }
    }
}

impl Weekday {
    /// The English short name, as chrono displays it.
    pub fn abbrev(&self) -> (r: String)
        ensures
            r@ == weekday_abbrev(*self),
    {
        match self {
            Weekday::Mon => String::from_str("Mon"),
            Weekday::Tue => String::from_str("Tue"),
            Weekday::Wed => String::from_str("Wed"),
            Weekday::Thu => String::from_str("Thu"),
            Weekday::Fri => String::from_str("Fri"),
            Weekday::Sat => String::from_str("Sat"),
            Weekday::Sun => String::from_str("Sun"),
        }
    }
}

/// The German name of a weekday.
pub fn weekday_german(wd: &Weekday) -> (r: String)
    ensures
        r@ == german_name(*wd),
{
    match wd {
        Weekday::Mon => String::from_str("Montag"),
        Weekday::Tue => String::from_str("Dienstag"),
        Weekday::Wed => String::from_str("Mittwoch"),
        Weekday::Thu => String::from_str("Donnerstag"),
        Weekday::Fri => String::from_str("Freitag"),
        Weekday::Sat => String::from_str("Samstag"),
        Weekday::Sun => String::from_str("Sonntag"),
    }
}

fn is(s: &String, lit: &str) -> (r: bool)
    ensures
        r == (s@ == lit@),
{
    *s == String::from_str(lit)
}

/// The English short name for the weekday whose lower case German name is
/// `lower`; `fallback` where `lower` names no weekday.
pub fn translate_lowercase_weekday(lower: &str, fallback: &str) -> (r: String)
    ensures
        r@ == spec_translate(lower@, fallback@),
{
    let l = String::from_str(lower);
    if is(&l, "montag") || is(&l, "mo") {
        Weekday::Mon.abbrev()
    } else if is(&l, "dienstag") || is(&l, "di") {
        Weekday::Tue.abbrev()
    } else if is(&l, "mittwoch") || is(&l, "mi") {
        Weekday::Wed.abbrev()
    } else if is(&l, "donnerstag") || is(&l, "do") {
        Weekday::Thu.abbrev()
    } else if is(&l, "freitag") || is(&l, "fr") {
        Weekday::Fri.abbrev()
    } else if is(&l, "samstag") || is(&l, "sa") {
        Weekday::Sat.abbrev()
    } else if is(&l, "sonntag") || is(&l, "so") {
        Weekday::Sun.abbrev()
    } else {
        String::from_str(fallback)
    }
}

/// Translates a German weekday name (any case, long or two-letter form) to
/// chrono's English short name; other texts come back as they are.
pub fn translate_weekday(wd: &str) -> (r: String)
    ensures
        r@ == spec_translate(str_lower(wd@), wd@),
        all_ascii(wd@) ==> r@ == spec_translate(ascii_lowered(wd@), wd@),
{
    let lower = lowercase(wd);
    translate_lowercase_weekday(lower.as_str(), wd)
}

/// Puts each character of the text in upper or lower case at random.
pub fn mock_text(text: &str) -> (r: String)
    ensures
        exists|choices: Seq<bool>| choices.len() == text@.len() && r@ == crate::model::mocked(text@, choices),
{
    crate::model::mock_text(text)
}


/// The pattern of a run of two or more dashes, which separates the parts of
/// a dish's name.
pub const DASH_RUN_PATTERN: &'static str = r"--+";

/// The text of a dish once the dashes in its name are replaced.
pub open spec fn spec_menu_text_with(name: Seq<char>, food_type: Option<Seq<char>>, prices: (Seq<char>, Seq<char>, Seq<char>)) -> Seq<char> {
    name + "\n\nZusatz: "@ + match food_type {
        Some(t) => t,
        None => "None"@,
    } + "\n\nPreis: "@ + prices.0 + "/"@ + prices.1 + "/"@ + prices.2
}

/// The text of a dish from its name with the dashes already replaced.
pub fn menu_text_with(name: &str, food_type: Option<&str>, students: &str, workers: &str, guests: &str) -> (r: String)
    ensures
        r@ == spec_menu_text_with(name@, match food_type {
            Some(t) => Some(t@),
            None => None,
        }, (students@, workers@, guests@)),
{
    let mut v = chars_of(name);
    push_str(&mut v, "\n\nZusatz: ");
    match food_type {
        Some(t) => push_str(&mut v, t),
        None => push_str(&mut v, "None"),
    }
    push_str(&mut v, "\n\nPreis: ");
    push_str(&mut v, students);
    push_str(&mut v, "/");
    push_str(&mut v, workers);
    push_str(&mut v, "/");
    push_str(&mut v, guests);
    string_of(v.as_slice())
}

/// The text of a dish in the canteen plan; `None` only where the dash
/// pattern does not compile.
pub fn menu_text(name: &str, food_type: Option<&str>, students: &str, workers: &str, guests: &str) -> (r: Option<String>)
    ensures
        r is Some <==> regex_replaced(DASH_RUN_PATTERN@, name@, "\n\n!!! "@) is Some,
        r matches Some(s) ==> s@ == spec_menu_text_with(
            regex_replaced(DASH_RUN_PATTERN@, name@, "\n\n!!! "@)->0,
            match food_type {
                Some(t) => Some(t@),
                None => None,
            },
            (students@, workers@, guests@),
        ),
{
    match regex_replace_first(DASH_RUN_PATTERN, name, "\n\n!!! ") {
        Some(n) => Some(menu_text_with(n.as_str(), food_type, students, workers, guests)),
        None => None,
    }
}

} // verus!
