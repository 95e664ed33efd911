//! Discord limits that depend on a guild, error titles, and the page
//! selection that a reaction menu walks through.
use crate::menu::{next_index, prev_index};
use crate::text::{chars_of, push_str, string_of};
use vstd::prelude::*;
use vstd::string::*;

verus! {

/// A guild's boost level.
#[derive(Clone, Copy, Debug, PartialEq, Eq, Structural)]
pub enum PremiumTier {
    Tier0,
    Tier1,
    Tier2,
    Tier3,
    Unknown,
}

/// The largest upload a guild takes, in bytes: 50 MB at tier 2, 100 MB at
/// tier 3, 8 MB otherwise.
pub open spec fn spec_max_uploadsize(tier: PremiumTier) -> u64 {
    match tier {
        PremiumTier::Tier2 => 50_000_000,
        PremiumTier::Tier3 => 100_000_000,
        _ => 8_000_000,
    }
}

/// The largest upload a guild of the given tier takes, in bytes.
pub fn get_max_uploadsize(tier: PremiumTier) -> (r: u64)
    ensures
        r == spec_max_uploadsize(tier),
{
    match tier {
        PremiumTier::Tier2 => 50_000_000,
        PremiumTier::Tier3 => 100_000_000,
        _ => 8_000_000,
    }
}


/// The title of an error embed: `Error: ` and the message.
pub fn error_title(message: &str) -> (r: String)
    ensures
        r@ == "Error: "@ + message@,
{
    let mut v = chars_of("Error: ");
    push_str(&mut v, message);
    string_of(v.as_slice())
}

/// The reactions of a selection menu, in the order they are offered.
#[derive(Clone, Copy, Debug, PartialEq, Eq, Structural)]
pub enum MenuControl {
    Prev,
    Select,
    Cancel,
    Next,
}

/// The controls a selection menu offers unless told otherwise.
pub fn default_controls() -> (r: Vec<MenuControl>)
    ensures
        r@ == seq![MenuControl::Prev, MenuControl::Select, MenuControl::Cancel, MenuControl::Next],
{
    let mut v: Vec<MenuControl> = Vec::new();
    v.push(MenuControl::Prev);
    v.push(MenuControl::Select);
    v.push(MenuControl::Cancel);
    v.push(MenuControl::Next);
    assert(v@ =~= seq![MenuControl::Prev, MenuControl::Select, MenuControl::Cancel, MenuControl::Next]);
    v
}

/// The seconds a selection menu waits for a reaction.
pub const DEFAULT_SELECT_TIMEOUT: u64 = 30;

/// What happened while a page was shown.
#[derive(Clone, Copy, Debug, PartialEq, Eq, Structural)]
pub enum SelectEvent {
    /// The user picked one of the controls.
    Pressed(MenuControl),
    /// The user reacted with an emoji that is no control of the menu.
    UnknownControl,
    /// No reaction came in time.
    Timeout,
    /// Reactions came, none of them a control.
    NoMatchingReaction,
}

/// Why a selection ended without a page.
#[derive(Clone, Copy, Debug, PartialEq, Eq, Structural)]
pub enum SelectFailure {
    PagesEmpty,
    PageOutOfBounds,
    Canceled,
    Timeout,
    InvalidInput,
}

impl SelectFailure {
    /// The message of the failure.
    pub fn message(&self) -> (r: String)
        ensures
            r@ == select_failure_message(*self),
    {
        match self {
            SelectFailure::PagesEmpty => crate::text::string_of(chars_of("`pages` is empty.").as_slice()),
            SelectFailure::PageOutOfBounds => crate::text::string_of(chars_of("`page` is out of bounds.").as_slice()),
            SelectFailure::Canceled => crate::text::string_of(chars_of("selection was canceled by user").as_slice()),
            SelectFailure::Timeout => crate::text::string_of(chars_of("no reaction in time").as_slice()),
            SelectFailure::InvalidInput => crate::text::string_of(chars_of("invalid input").as_slice()),
        }
    }
}

pub open spec fn select_failure_message(f: SelectFailure) -> Seq<char> {
    match f {
        SelectFailure::PagesEmpty => "`pages` is empty."@,
        SelectFailure::PageOutOfBounds => "`page` is out of bounds."@,
        SelectFailure::Canceled => "selection was canceled by user"@,
        SelectFailure::Timeout => "no reaction in time"@,
        SelectFailure::InvalidInput => "invalid input"@,
    }
}

/// What the menu does next.
#[derive(Clone, Copy, Debug, PartialEq, Eq, Structural)]
pub enum SelectStep {
    /// Show the page and wait for a reaction.
    Show(usize),
    /// The selection ended on the page.
    Finish(usize),
    /// The selection failed.
    Abort(SelectFailure),
}

/// The state of a selection menu over a number of pages.
pub struct SelectState {
    current_page: usize,
    pages: usize,
    has_selected: bool,
    was_canceled: bool,
    stopped: bool,
    failure: Option<SelectFailure>,
}

/// A selection menu as plain values.
pub struct SelectView {
    pub current_page: nat,
    pub pages: nat,
    pub has_selected: bool,
    pub was_canceled: bool,
    pub stopped: bool,
    pub failure: Option<SelectFailure>,
}

impl View for SelectState {
    type V = SelectView;

    closed spec fn view(&self) -> SelectView {
        SelectView {
            current_page: self.current_page as nat,
            pages: self.pages as nat,
            has_selected: self.has_selected,
            was_canceled: self.was_canceled,
            stopped: self.stopped,
            failure: self.failure,
        }
    }
}

/// The next step: a selected or left menu finishes on its page, a canceled
/// one fails, a failure is reported; otherwise the page is shown if there are
/// pages and it is one of them.
pub open spec fn spec_step(s: SelectView) -> SelectStep {
    if s.has_selected || s.stopped {
        SelectStep::Finish(s.current_page as usize)
    } else if s.was_canceled {
        SelectStep::Abort(SelectFailure::Canceled)
    } else if s.failure is Some {
        SelectStep::Abort(s.failure->0)
    } else if s.pages == 0 {
        SelectStep::Abort(SelectFailure::PagesEmpty)
    } else if s.current_page > s.pages - 1 {
        SelectStep::Abort(SelectFailure::PageOutOfBounds)
    } else {
        SelectStep::Show(s.current_page as usize)
    }
}

/// The state after an event on the shown page: the arrows move one page with
/// wrap-around, select and cancel end the selection, an unknown control
/// leaves the menu on its page, and a timeout or unmatched reactions fail it.
pub open spec fn spec_handle(s: SelectView, e: SelectEvent) -> SelectView {
    match e {
        SelectEvent::Pressed(MenuControl::Next) => SelectView {
            current_page: next_index(s.pages, s.current_page),
            ..s
        },
        SelectEvent::Pressed(MenuControl::Prev) => SelectView {
            current_page: prev_index(s.pages, s.current_page),
            ..s
        },
        SelectEvent::Pressed(MenuControl::Select) => SelectView { has_selected: true, ..s },
        SelectEvent::Pressed(MenuControl::Cancel) => SelectView { was_canceled: true, ..s },
        SelectEvent::UnknownControl => SelectView { stopped: true, ..s },
        SelectEvent::Timeout => SelectView { failure: Some(SelectFailure::Timeout), ..s },
        SelectEvent::NoMatchingReaction => SelectView {
            failure: Some(SelectFailure::InvalidInput),
            ..s
        },
    }
}

impl SelectState {
    /// A menu over `pages` pages, on the first.
    pub fn new(pages: usize) -> (r: SelectState)
        ensures
            r@ == (SelectView {
                current_page: 0,
                pages: pages as nat,
                has_selected: false,
                was_canceled: false,
                stopped: false,
                failure: None,
            }),
    {
        SelectState {
            current_page: 0,
            pages,
            has_selected: false,
            was_canceled: false,
            stopped: false,
            failure: None,
        }
    }

    /// What the menu does next.
    pub fn step(&self) -> (r: SelectStep)
        ensures
            r == spec_step(self@),
    {
        if self.has_selected || self.stopped {
            SelectStep::Finish(self.current_page)
        } else if self.was_canceled {
            SelectStep::Abort(SelectFailure::Canceled)
        } else if let Some(f) = self.failure {
            SelectStep::Abort(f)
        } else if self.pages == 0 {
            SelectStep::Abort(SelectFailure::PagesEmpty)
        } else if self.current_page > self.pages - 1 {
            SelectStep::Abort(SelectFailure::PageOutOfBounds)
        } else {
            SelectStep::Show(self.current_page)
        }
    }

    /// Takes in what happened while the page was shown.
    pub fn handle(&mut self, event: SelectEvent)
        requires
            spec_step(old(self)@) is Show,
        ensures
            final(self)@ == spec_handle(old(self)@, event),
    {
        match event {
            SelectEvent::Pressed(MenuControl::Next) => {
                self.current_page = if self.current_page == self.pages - 1 {
                    0
                } else {
                    self.current_page + 1
                };
            },
            SelectEvent::Pressed(MenuControl::Prev) => {
                self.current_page = if self.current_page == 0 {
                    self.pages - 1
                } else {
                    self.current_page - 1
                };
            },
            SelectEvent::Pressed(MenuControl::Select) => {
                self.has_selected = true;
            },
            SelectEvent::Pressed(MenuControl::Cancel) => {
                self.was_canceled = true;
            },
            SelectEvent::UnknownControl => {
                self.stopped = true;
            },
            SelectEvent::Timeout => {
                self.failure = Some(SelectFailure::Timeout);
            },
            SelectEvent::NoMatchingReaction => {
                self.failure = Some(SelectFailure::InvalidInput);
            },
        }
    }
}

/// The emojis of the default controls, in the order of `default_controls`:
/// back, select, cancel and forward.
pub fn default_emojis() -> (r: Vec<String>)
    ensures
        r.len() == 4,
        r@[0]@ == "\u{25C0}"@,
        r@[1]@ == "\u{2705}"@,
        r@[2]@ == "\u{1F6AB}"@,
        r@[3]@ == "\u{25B6}"@,
{
    let mut v: Vec<String> = Vec::new();
    v.push(String::from_str("\u{25C0}"));
    v.push(String::from_str("\u{2705}"));
    v.push(String::from_str("\u{1F6AB}"));
    v.push(String::from_str("\u{25B6}"));
    v
}

/// No control has the emoji `emoji`.
pub open spec fn no_control_for(controls: Seq<String>, emoji: Seq<char>) -> bool {
    forall|j: int| 0 <= j < controls.len() ==> (#[trigger] controls[j])@ != emoji
}

/// Control `c` is the first whose emoji is `emoji`.
pub open spec fn first_control_for(controls: Seq<String>, emoji: Seq<char>, c: int) -> bool {
    &&& 0 <= c < controls.len()
    &&& controls[c]@ == emoji
    &&& forall|j: int| 0 <= j < c ==> (#[trigger] controls[j])@ != emoji
}

/// The index of the first control whose emoji (in its text form) is `emoji`;
/// `None` where no control has it.
pub fn control_for(controls: &Vec<String>, emoji: &str) -> (r: Option<usize>)
    ensures
        match r {
            Some(i) => first_control_for(controls@, emoji@, i as int),
            None => no_control_for(controls@, emoji@),
        },
{
    let key = String::from_str(emoji);
    let mut i: usize = 0;
    while i < controls.len()
        invariant
            i <= controls.len(),
            key@ == emoji@,
            forall|j: int| 0 <= j < i ==> (#[trigger] controls@[j])@ != emoji@,
        decreases controls.len() - i,
    {
        if controls[i] == key {
            return Some(i);
        }
        i = i + 1;
    }
    None
}

/// What the reaction collector hands over, in order: a reaction added or
/// removed by the user, by the text form of its emoji.
#[derive(Debug)]
pub enum ReactionAction {
    Added(String),
    Removed(String),
}

/// The emoji of an added reaction; `None` for a removed one.
pub open spec fn added_emoji(a: ReactionAction) -> Option<Seq<char>> {
    match a {
        ReactionAction::Added(e) => Some(e@),
        ReactionAction::Removed(_) => None,
    }
}

/// The reaction was removed, or was added with an emoji that no control has.
pub open spec fn unmatched_or_removed(controls: Seq<String>, a: ReactionAction) -> bool {
    match added_emoji(a) {
        Some(e) => no_control_for(controls, e),
        None => true,
    }
}

/// The decision on the reactions that came in before the timeout: the first
/// added reaction whose emoji is a control's gives that control (the first
/// such) and the reaction's position; with no added reaction at all the
/// selection timed out, and with added reactions none of which is a control
/// the input was invalid.
pub fn choose_reaction(controls: &Vec<String>, reactions: &Vec<ReactionAction>) -> (r: Result<
    (usize, usize),
    SelectFailure,
>)
    ensures
        match r {
            Ok((c, k)) => {
                &&& k < reactions.len()
                &&& added_emoji(reactions@[k as int]) matches Some(e) && first_control_for(
                    controls@,
                    e,
                    c as int,
                )
                &&& forall|j: int|
                    0 <= j < k ==> unmatched_or_removed(controls@, #[trigger] reactions@[j])
            },
            Err(SelectFailure::Timeout) => forall|j: int|
                0 <= j < reactions.len() ==> (#[trigger] reactions@[j]) is Removed,
            Err(SelectFailure::InvalidInput) => {
                &&& exists|j: int| 0 <= j < reactions.len() && (#[trigger] reactions@[j]) is Added
                &&& forall|j: int|
                    0 <= j < reactions.len() ==> unmatched_or_removed(controls@, #[trigger] reactions@[j])
            },
            Err(_) => false,
        },
{
    let mut found_one = false;
    let mut k: usize = 0;
    while k < reactions.len()
        invariant
            k <= reactions.len(),
            !found_one ==> forall|j: int| 0 <= j < k ==> (#[trigger] reactions@[j]) is Removed,
            found_one ==> exists|j: int| 0 <= j < k && (#[trigger] reactions@[j]) is Added,
            forall|j: int| 0 <= j < k ==> unmatched_or_removed(controls@, #[trigger] reactions@[j]),
        decreases reactions.len() - k,
    {
        match &reactions[k] {
            ReactionAction::Added(e) => {
                found_one = true;
                assert(reactions@[k as int] is Added);
                match control_for(controls, e.as_str()) {
                    Some(c) => {
                        return Ok((c, k));
                    },
                    None => {},
                }
            },
            ReactionAction::Removed(_) => {},
        }
        k = k + 1;
    }
    if !found_one {
        Err(SelectFailure::Timeout)
    } else {
        Err(SelectFailure::InvalidInput)
    }
}

/// The event a decision on the reactions makes for the selection menu: the
/// control's action where the chosen control has one, an unknown control
/// where it has none, a timeout, or reactions that matched no control.
pub fn select_event(actions: &Vec<MenuControl>, choice: Result<(usize, usize), SelectFailure>) -> (r: SelectEvent)
    ensures
        match choice {
            Ok((c, _)) => if c < actions.len() {
                r == SelectEvent::Pressed(actions@[c as int])
            } else {
                r == SelectEvent::UnknownControl
            },
            Err(SelectFailure::Timeout) => r == SelectEvent::Timeout,
            Err(_) => r == SelectEvent::NoMatchingReaction,
        },
{
    match choice {
        Ok((c, _)) => if c < actions.len() {
            SelectEvent::Pressed(actions[c])
        } else {
            SelectEvent::UnknownControl
        },
        Err(SelectFailure::Timeout) => SelectEvent::Timeout,
        Err(_) => SelectEvent::NoMatchingReaction,
    }
}

/// A page that is shown or finished on is one of the pages, whatever events
/// come: stepping from a shown page keeps the page in range.
pub proof fn lemma_select_stays_in_range(s: SelectView, e: SelectEvent)
    requires
        spec_step(s) is Show,
    ensures
        spec_handle(s, e).current_page < s.pages,
        spec_handle(s, e).pages == s.pages,
        spec_step(spec_handle(s, e)) matches SelectStep::Show(p) ==> p < s.pages,
        spec_step(spec_handle(s, e)) matches SelectStep::Finish(p) ==> p < s.pages,
{
}

} // verus!
