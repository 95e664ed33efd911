//! Interactive menus: which control a click belongs to, when the menu
//! closes, and a cursor that walks a list of results in a circle.
use crate::error::Error;
use vstd::prelude::*;
use vstd::string::*;

verus! {

/// The ids of a menu's controls, row by row.
pub open spec fn rows_view(rows: Seq<Vec<String>>) -> Seq<Seq<Seq<char>>> {
    rows.map_values(|row: Vec<String>| row@.map_values(|s: String| s@))
}

/// The control in row `r`, column `c` has the id `id`.
pub open spec fn holds_id(rows: Seq<Seq<Seq<char>>>, r: int, c: int, id: Seq<char>) -> bool {
    &&& 0 <= r < rows.len()
    &&& 0 <= c < rows[r].len()
    &&& rows[r][c] == id
}

/// Row `r1`, column `c1` comes before row `r2`, column `c2`, reading row by row.
pub open spec fn comes_before(r1: int, c1: int, r2: int, c2: int) -> bool {
    r1 < r2 || (r1 == r2 && c1 < c2)
}

/// The control at `(r, c)` is the first, row by row, with the id `id`.
pub open spec fn first_with_id(rows: Seq<Seq<Seq<char>>>, id: Seq<char>, r: int, c: int) -> bool {
    &&& holds_id(rows, r, c, id)
    &&& forall|r2: int, c2: int| #[trigger] holds_id(rows, r2, c2, id) ==> !comes_before(r2, c2, r, c)
}

/// No control has the id `id`.
pub open spec fn no_control_with_id(rows: Seq<Seq<Seq<char>>>, id: Seq<char>) -> bool {
    forall|r: int, c: int| !#[trigger] holds_id(rows, r, c, id)
}

/// The error for a click on something that is no control of the menu.
pub open spec fn is_unknown_interaction(e: Error) -> bool {
    e matches Error::InvalidInput(m) && m@ == "got unknown interaction"@
}

/// How a menu is laid out: how long it waits for a click, in seconds, and the
/// ids of its controls, row by row.
pub struct MenuLayout {
    timeout: u64,
    rows: Vec<Vec<String>>,
}

impl View for MenuLayout {
    type V = (u64, Seq<Seq<Seq<char>>>);

    closed spec fn view(&self) -> (u64, Seq<Seq<Seq<char>>>) {
        (self.timeout, rows_view(self.rows@))
    }
}

impl MenuLayout {
    /// A menu with no controls that waits two minutes for each click.
    pub fn new() -> (r: MenuLayout)
        ensures
            r@.0 == 120,
            r@.1 == Seq::<Seq<Seq<char>>>::empty(),
    {
        let r = MenuLayout { timeout: 120, rows: Vec::new() };
        assert(r@.1 =~= Seq::<Seq<Seq<char>>>::empty());
        r
    }

    /// Sets how long the menu waits for a click.
    pub fn set_timeout<'a>(&'a mut self, timeout: u64) -> (r: &'a mut MenuLayout)
        ensures
            (*r)@ == (timeout, old(self)@.1),
            *final(self) == *final(r),
    {
        self.timeout = timeout;
        self
    }

    /// Adds a row of controls with the given ids, below the others.
    pub fn add_row<'a>(&'a mut self, ids: Vec<String>) -> (r: &'a mut MenuLayout)
        ensures
            (*r)@ == (old(self)@.0, old(self)@.1.push(ids@.map_values(|s: String| s@))),
            *final(self) == *final(r),
    {
        let ghost before = self.rows@;
        self.rows.push(ids);
        assert(rows_view(self.rows@) =~= rows_view(before).push(ids@.map_values(|s: String| s@)));
        self
    }

    /// How long the menu waits for a click, in seconds.
    pub fn timeout(&self) -> (r: u64)
        ensures
            r == self@.0,
    {
        self.timeout
    }

    /// The row and column of the first control, row by row, whose id is
    /// `custom_id`; an unknown id is refused.
    pub fn find_control(&self, custom_id: &str) -> (r: Result<(usize, usize), Error>)
        ensures
            match r {
                Ok((row, col)) => first_with_id(self@.1, custom_id@, row as int, col as int),
                Err(e) => is_unknown_interaction(e) && no_control_with_id(self@.1, custom_id@),
            },
    {
        let ghost rows = self@.1;
        let ghost id = custom_id@;
        let key = String::from_str(custom_id);
        let mut i: usize = 0;
        while i < self.rows.len()
            invariant
                i <= self.rows.len(),
                rows == rows_view(self.rows@),
                id == custom_id@,
                key@ == id,
                forall|r2: int, c2: int| 0 <= r2 < i ==> !#[trigger] holds_id(rows, r2, c2, id),
            decreases self.rows.len() - i,
        {
            let row = &self.rows[i];
            assert(rows[i as int] == row@.map_values(|s: String| s@));
            let mut j: usize = 0;
            while j < row.len()
                invariant
                    i < self.rows.len(),
                    j <= row.len(),
                    row == &self.rows@[i as int],
                    rows == rows_view(self.rows@),
                    rows[i as int] == row@.map_values(|s: String| s@),
                    id == custom_id@,
                    key@ == id,
                    forall|r2: int, c2: int| 0 <= r2 < i ==> !#[trigger] holds_id(rows, r2, c2, id),
                    forall|c2: int| 0 <= c2 < j ==> !#[trigger] holds_id(rows, i as int, c2, id),
                decreases row.len() - j,
            {
                if row[j] == key {
                    assert(holds_id(rows, i as int, j as int, id));
                    assert forall|r2: int, c2: int| #[trigger] holds_id(rows, r2, c2, id) implies !comes_before(
                        r2,
                        c2,
                        i as int,
                        j as int,
                    ) by {
                        if r2 < i {
                        } else if r2 == i {
                            assert(!(c2 < j));
                        }
                    }
                    return Ok((i, j));
                }
                assert(!holds_id(rows, i as int, j as int, id));
                j = j + 1;
            }
            assert forall|r2: int, c2: int| 0 <= r2 < i + 1 implies !#[trigger] holds_id(rows, r2, c2, id) by {
                if r2 == i {
                    if 0 <= c2 < rows[r2].len() {
                        assert(c2 < j);
                    }
                }
            }
            i = i + 1;
        }
        proof {
            reveal_strlit("got unknown interaction");
        }
        Err(Error::InvalidInput("got unknown interaction"))
    }
}

/// What happened while a menu waits: no click came in time, a control was
/// clicked (by its id), or the clicked control's work finished or failed.
pub enum MenuEvent {
    TimedOut,
    Clicked(String),
    ControlFinished,
    ControlFailed,
}

/// What the menu does next.
#[derive(Debug)]
pub enum MenuAction {
    /// Runs the work of the control at this row and column.
    RunControl(usize, usize),
    /// Acknowledges the click and waits for the next one.
    Continue,
    /// Acknowledges the click, deletes the clicked message and closes.
    CloseAfterClick,
    /// Deletes the menu message, runs the closing hook and ends.
    Close,
    /// Runs the closing hook and ends with this error.
    Abort(Error),
    /// Runs the closing hook and ends with the error of the control's work.
    AbortWithControlError,
}

/// A running menu: its layout, and whether one of its controls stopped it.
pub struct MenuState {
    layout: MenuLayout,
    running: bool,
}

impl MenuState {
    /// A menu with the given layout that has not been stopped.
    pub fn new(layout: MenuLayout) -> (r: MenuState)
        ensures
            r.layout() == layout@,
            r.is_running(),
    {
        MenuState { layout, running: true }
    }

    /// The layout of the menu.
    pub closed spec fn layout(&self) -> (u64, Seq<Seq<Seq<char>>>) {
        self.layout@
    }

    /// Whether the menu still runs.
    pub closed spec fn is_running(&self) -> bool {
        self.running
    }

    /// Whether the menu still runs.
    pub fn running(&self) -> (r: bool)
        ensures
            r == self.is_running(),
    {
        self.running
    }

    /// How long the menu waits for a click, in seconds.
    pub fn timeout(&self) -> (r: u64)
        ensures
            r == self.layout().0,
    {
        self.layout.timeout()
    }

    /// Stops the menu: it closes after the work of the current click.
    pub fn stop(&mut self)
        ensures
            final(self).layout() == old(self).layout(),
            !final(self).is_running(),
    {
        self.running = false;
    }

    /// What the menu does on an event: a click runs the first control with
    /// the clicked id, or ends the menu with an error where none has it; a
    /// control's work that fails ends the menu with that error; one that
    /// finishes lets the menu wait again unless it was stopped; no click in
    /// time closes the menu.
    pub fn step(&self, event: &MenuEvent) -> (r: MenuAction)
        ensures
            match event {
                MenuEvent::TimedOut => r is Close,
                MenuEvent::ControlFailed => r is AbortWithControlError,
                MenuEvent::ControlFinished => if self.is_running() {
                    r is Continue
                } else {
                    r is CloseAfterClick
                },
                MenuEvent::Clicked(id) => match r {
                    MenuAction::RunControl(row, col) => first_with_id(
                        self.layout().1,
                        id@,
                        row as int,
                        col as int,
                    ),
                    MenuAction::Abort(e) => is_unknown_interaction(e) && no_control_with_id(
                        self.layout().1,
                        id@,
                    ),
                    _ => false,
                },
            },
    {
        match event {
            MenuEvent::TimedOut => MenuAction::Close,
            MenuEvent::ControlFailed => MenuAction::AbortWithControlError,
            MenuEvent::ControlFinished => if self.running {
                MenuAction::Continue
            } else {
                MenuAction::CloseAfterClick
            },
            MenuEvent::Clicked(id) => match self.layout.find_control(id.as_str()) {
                Ok((row, col)) => MenuAction::RunControl(row, col),
                Err(e) => MenuAction::Abort(e),
            },
        }
    }
}

/// Adding a row below a menu does not change which control a click on an id
/// that the menu already had runs, and an id that it lacked is found, if at
/// all, in the new row.
pub proof fn lemma_add_row_keeps_found(
    rows: Seq<Seq<Seq<char>>>,
    row: Seq<Seq<char>>,
    id: Seq<char>,
    r: int,
    c: int,
)
    ensures
        first_with_id(rows, id, r, c) ==> first_with_id(rows.push(row), id, r, c),
        no_control_with_id(rows, id) && first_with_id(rows.push(row), id, r, c) ==> r == rows.len(),
{
    let grown = rows.push(row);
    assert forall|r2: int, c2: int| 0 <= r2 < rows.len() implies holds_id(grown, r2, c2, id) == holds_id(
        rows,
        r2,
        c2,
        id,
    ) by {
        assert(grown[r2] == rows[r2]);
    }
    if first_with_id(rows, id, r, c) {
        assert forall|r2: int, c2: int| #[trigger] holds_id(grown, r2, c2, id) implies !comes_before(
            r2,
            c2,
            r,
            c,
        ) by {
            if r2 < rows.len() {
                assert(holds_id(rows, r2, c2, id));
            }
        }
    }
    if no_control_with_id(rows, id) && first_with_id(grown, id, r, c) {
        if r < rows.len() {
            assert(holds_id(rows, r, c, id));
        }
    }
}

/// The index after `i` in a circle of `len` entries.
pub open spec fn next_index(len: nat, i: nat) -> nat {
    if i >= len - 1 {
        0
    } else {
        (i + 1) as nat
    }
}

/// The index before `i` in a circle of `len` entries.
pub open spec fn prev_index(len: nat, i: nat) -> nat {
    if i <= 0 {
        (len - 1) as nat
    } else {
        (i - 1) as nat
    }
}

/// A position in a borrowed list; stepping past either end wraps around.
pub struct Cursor<'a, T> {
    list: &'a Vec<T>,
    current_index: usize,
}

impl<'a, T> Cursor<'a, T> {
    #[verifier::type_invariant]
    spec fn index_in_list(&self) -> bool {
        &&& self.list.len() == 0 ==> self.current_index == 0
        &&& self.list.len() > 0 ==> self.current_index < self.list.len()
    }

    /// The entries of the list.
    pub closed spec fn items(&self) -> Seq<T> {
        self.list@
    }

    /// The current position.
    pub closed spec fn index(&self) -> nat {
        self.current_index as nat
    }

    /// A cursor at the first entry of `list`.
    pub fn new(list: &'a Vec<T>) -> (r: Self)
        ensures
            r.items() == list@,
            r.index() == 0,
    {
        Cursor { list, current_index: 0 }
    }

    /// Steps to the next entry, from the last back to the first, and returns it.
    pub fn next(&mut self) -> (r: Option<&'a T>)
        requires
            old(self).items().len() > 0,
        ensures
            final(self).items() == old(self).items(),
            final(self).index() == next_index(old(self).items().len(), old(self).index()),
            final(self).index() < final(self).items().len(),
            r == Some(&final(self).items()[final(self).index() as int]),
    {
        proof {
            use_type_invariant(&*self);
        }
        let list: &'a Vec<T> = self.list;
        self.current_index = if self.current_index >= list.len() - 1 {
            0
        } else {
            self.current_index + 1
        };
        Some(&list[self.current_index])
    }

    /// Steps to the previous entry, from the first to the last, and returns it.
    pub fn prev(&mut self) -> (r: Option<&'a T>)
        requires
            old(self).items().len() > 0,
        ensures
            final(self).items() == old(self).items(),
            final(self).index() == prev_index(old(self).items().len(), old(self).index()),
            final(self).index() < final(self).items().len(),
            r == Some(&final(self).items()[final(self).index() as int]),
    {
        proof {
            use_type_invariant(&*self);
        }
        let list: &'a Vec<T> = self.list;
        self.current_index = if self.current_index <= 0 {
            list.len() - 1
        } else {
            self.current_index - 1
        };
        Some(&list[self.current_index])
    }

    /// The entry at the current position; `None` for an empty list.
    pub fn current(&self) -> (r: Option<&'a T>)
        ensures
            self.items().len() == 0 ==> r is None,
            self.items().len() > 0 ==> self.index() < self.items().len()
                && r == Some(&self.items()[self.index() as int]),
    {
        proof {
            use_type_invariant(self);
        }
        let list: &'a Vec<T> = self.list;
        if self.current_index < list.len() {
            Some(&list[self.current_index])
        } else {
            None
        }
    }
}

impl<'a, T> From<&'a Vec<T>> for Cursor<'a, T> {
    /// A cursor at the first entry of `list`.
    fn from(list: &'a Vec<T>) -> (r: Cursor<'a, T>)
        ensures
            r.items() == list@,
            r.index() == 0,
    {
        Cursor { list, current_index: 0 }
    }
}

impl<'a, T> vstd::std_specs::convert::FromSpecImpl<&'a Vec<T>> for Cursor<'a, T> {
    open spec fn obeys_from_spec() -> bool {
        true
    }

    closed spec fn from_spec(v: &'a Vec<T>) -> Cursor<'a, T> {
        Cursor { list: v, current_index: 0 }
    }
}

/// A cursor made from a list holds that list and stands on its first entry.
pub proof fn lemma_cursor_from<'a, T>(list: &'a Vec<T>)
    ensures
        <Cursor<'a, T> as vstd::std_specs::convert::FromSpec<&'a Vec<T>>>::from_spec(list).items() == list@,
        <Cursor<'a, T> as vstd::std_specs::convert::FromSpec<&'a Vec<T>>>::from_spec(list).index() == 0,
{
}

/// Stepping forward and then back, or back and then forward, returns to the
/// same entry of a non-empty list.
pub proof fn lemma_next_prev_inverse(len: nat, i: nat)
    requires
        i < len,
    ensures
        prev_index(len, next_index(len, i)) == i,
        next_index(len, prev_index(len, i)) == i,
        next_index(len, i) < len,
        prev_index(len, i) < len,
{
}

/// Stepping forward `len` times from the first entry comes back to it.
pub proof fn lemma_next_cycle(len: nat, k: nat)
    requires
        0 < len,
        k <= len,
    ensures
        iterate_next(len, k) == (if k == len { 0 } else { k }),
    decreases k,
{
    if k > 0 {
        lemma_next_cycle(len, (k - 1) as nat);
    }
}

/// The index reached from the first entry after `k` steps forward.
pub open spec fn iterate_next(len: nat, k: nat) -> nat
    decreases k,
{
    if k == 0 {
        0
    } else {
        next_index(len, iterate_next(len, (k - 1) as nat))
    }
}

} // verus!
