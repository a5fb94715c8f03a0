//! The dashboard's navigation state: which screen is shown, what is
//! selected on it, and the history stack that deeper screens are resolved
//! through.

use vstd::prelude::*;
use crate::connections::entries_model;
use crate::connections::ConnectionLog;
use crate::connections::EntryModel;
use crate::text::centered;
use crate::text::split_lines;
use crate::text::trimmed;
use crate::text::trim_text;
use crate::text::lines_of;
use crate::tui::elements::entry_text;
use crate::tui::elements::list_lines;
use crate::tui::elements::placed_element;
use crate::tui::elements::placed_model;
use crate::tui::elements::AddressList;
use crate::tui::elements::ConnectionsList;
use crate::tui::elements::DetailWindow;
use crate::tui::elements::PlacedLine;
use crate::tui::elements::PlacedLineModel;
use crate::tui::elements::ProgramHeader;
use crate::tui::elements::StyledLineModel;
use crate::tui::elements::StyleVariants;
use crate::connections::TuiResponse;

pub mod elements;

verus! {

/// The screen the dashboard currently shows: the peer address list, the
/// entry list of one peer, or the full text of one entry.
#[derive(Debug, Clone, Copy, PartialEq, Eq, Structural)]
pub enum Screen {
    List,
    Details,
    Detail,
}

/// A rectangle of terminal cells, as half-open column and row bounds.
#[derive(Debug, Clone, Copy)]
pub struct Rect {
    pub cols: (usize, usize),
    pub rows: (usize, usize),
}

/// The width a rectangle spans: the distance between its column bounds.
pub open spec fn rect_width(r: Rect) -> int {
    if r.cols.0 <= r.cols.1 {
        r.cols.1 - r.cols.0
    } else {
        r.cols.0 - r.cols.1
    }
}

/// The height a rectangle spans: the distance between its row bounds.
pub open spec fn rect_height(r: Rect) -> int {
    if r.rows.0 <= r.rows.1 {
        r.rows.1 - r.rows.0
    } else {
        r.rows.0 - r.rows.1
    }
}

impl Rect {
    pub fn new(cols: (usize, usize), rows: (usize, usize)) -> (r: Rect)
        ensures
            r == (Rect { cols, rows }),
    {
        Rect { cols, rows }
    }

    pub fn width(self) -> (r: usize)
        ensures
            r == rect_width(self),
    {
        if self.cols.0 <= self.cols.1 {
            self.cols.1 - self.cols.0
        } else {
            self.cols.0 - self.cols.1
        }
    }

    pub fn height(self) -> (r: usize)
        ensures
            r == rect_height(self),
    {
        if self.rows.0 <= self.rows.1 {
            self.rows.1 - self.rows.0
        } else {
            self.rows.0 - self.rows.1
        }
    }
}

/// The highlighted row of the active screen: an index into the address
/// list, an index into one peer's entry list, or nothing selectable.
#[derive(Debug, Clone, Copy, PartialEq, Eq, Structural)]
pub enum Select {
    Addr(usize),
    Member(usize),
    Unselectable,
}

/// The index a selection stands on; `0` where nothing is selectable.
pub open spec fn select_value(s: Select) -> int {
    match s {
        Select::Addr(v) => v as int,
        Select::Member(v) => v as int,
        Select::Unselectable => 0,
    }
}

/// `s` with its index replaced by `v`, keeping the selection's kind;
/// `Unselectable` is unchanged.
pub open spec fn select_with(s: Select, v: int) -> Select {
    match s {
        Select::Addr(_) => Select::Addr(v as usize),
        Select::Member(_) => Select::Member(v as usize),
        Select::Unselectable => Select::Unselectable,
    }
}

/// Moving a selection down by `n`, clamped into `[0, max]`.
pub open spec fn select_add(s: Select, n: int, max: int) -> Select {
    select_with(s, if select_value(s) + n <= max { select_value(s) + n } else { max })
}

/// Moving a selection up by `n`, saturating at `0`.
pub open spec fn select_sub(s: Select, n: int) -> Select {
    select_with(s, if select_value(s) - n >= 0 { select_value(s) - n } else { 0 })
}

impl Select {
    /// Replaces the selection index: `value` clamped into `[0, max_value]`,
    /// `0` where no value is given or nothing can be selected.
    pub fn select(&mut self, value: Option<usize>, max_value: usize)
        ensures
            *final(self) == select_with(*old(self), {
                if max_value == 0 {
                    0
                } else {
                    match value {
                        Some(v) => if v <= max_value { v as int } else { max_value as int },
                        None => 0,
                    }
                }
            }),
    {
        let parsed_value: usize = if max_value == 0 {
            0
        } else {
            match value {
                Some(value) => if value <= max_value { value } else { max_value },
                _ => 0,
            }
        };

        match &self {
            Self::Addr(_) => *self = Self::Addr(parsed_value),
            Self::Member(_) => *self = Self::Member(parsed_value),
            Self::Unselectable => *self = Self::Unselectable,
        }
    }

    /// Whether this selection stands on `value`; never true for
    /// `Unselectable`.
    pub fn has_same_value(self, value: usize) -> (r: bool)
        ensures
            r == match self {
                Select::Addr(inner) => inner == value,
                Select::Member(inner) => inner == value,
                Select::Unselectable => false,
            },
    {
        match self {
            Self::Addr(inner) => inner == value,
            Self::Member(inner) => inner == value,
            Self::Unselectable => false,
        }
    }

    /// Moves the selection up by `subtract`, saturating at `0`.
    pub fn sub(&mut self, subtract: usize)
        ensures
            *final(self) == select_sub(*old(self), subtract as int),
    {
        let cur = self.value();
        let nv = if subtract >= cur { 0 } else { cur - subtract };
        match &self {
            Self::Addr(_) => *self = Self::Addr(nv),
            Self::Member(_) => *self = Self::Member(nv),
            Self::Unselectable => *self = Self::Unselectable,
        }
    }

    /// Moves the selection down by `add`, clamped into `[0, max_value]`.
    pub fn add(&mut self, add: usize, max_value: usize)
        ensures
            *final(self) == select_add(*old(self), add as int, max_value as int),
            select_value(*final(self)) <= max_value,
    {
        let cur = self.value();
        let nv = if cur >= max_value {
            max_value
        } else if add <= max_value - cur {
            cur + add
        } else {
            max_value
        };
        match &self {
            Self::Addr(_) => *self = Self::Addr(nv),
            Self::Member(_) => *self = Self::Member(nv),
            Self::Unselectable => *self = Self::Unselectable,
        }
    }

    /// The index this selection stands on, `0` where nothing is selectable.
    pub fn value(&self) -> (r: usize)
        ensures
            r == select_value(*self),
    {
        match *self {
            Select::Addr(v) => v,
            Select::Member(v) => v,
            Select::Unselectable => 0,
        }
    }
}

/// The navigation history: the active `(screen, selection)` pair and the
/// stack of pairs that were active before it.
#[derive(Debug)]
pub struct History {
    pub current: (Screen, Select),
    pub prev: Vec<(Screen, Select)>,
}

/// Mathematical model of a [`History`].
pub ghost struct HistoryModel {
    pub current: (Screen, Select),
    pub prev: Seq<(Screen, Select)>,
}

impl View for History {
    type V = HistoryModel;

    open spec fn view(&self) -> HistoryModel {
        HistoryModel { current: self.current, prev: self.prev@ }
    }
}

/// The pair every history starts from and falls back to: the address list
/// with its first row selected.
pub open spec fn initial_pair() -> (Screen, Select) {
    (Screen::List, Select::Addr(0))
}

/// Saving the active pair on the stack and making `new` active.
pub open spec fn history_push(h: HistoryModel, new: (Screen, Select)) -> HistoryModel {
    HistoryModel { current: new, prev: h.prev.push(h.current) }
}

/// Going one level back: the top of the stack becomes active, or the
/// initial pair where the stack is empty.
pub open spec fn history_pop(h: HistoryModel) -> HistoryModel {
    if h.prev.len() == 0 {
        HistoryModel { current: initial_pair(), prev: h.prev }
    } else {
        HistoryModel { current: h.prev.last(), prev: h.prev.drop_last() }
    }
}

impl History {
    /// A history at the initial pair with an empty stack.
    pub fn new() -> (r: History)
        ensures
            r@.current == initial_pair(),
            r@.prev.len() == 0,
    {
        History { current: (Screen::List, Select::Addr(0)), prev: Vec::new() }
    }

    /// The pair `n` levels back: the active pair for `n == 0`, the `n`th
    /// most recent stack entry otherwise, `None` where the stack is not
    /// that deep.
    pub fn peek_prev(&self, n: usize) -> (r: Option<&(Screen, Select)>)
        ensures
            n == 0 ==> (r matches Some(p) && *p == self@.current),
            1 <= n <= self@.prev.len() ==> (r matches Some(p) && *p == self@.prev[self@.prev.len() - n]),
            n > self@.prev.len() ==> r is None,
    {
        if n < 1 {
            return Some(&self.current);
        }
        if n <= self.prev.len() {
            Some(&self.prev[self.prev.len() - n])
        } else {
            None
        }
    }

    /// Goes one level back; popping past the bottom resets to the initial
    /// pair instead of failing.
    pub fn pop(&mut self)
        ensures
            final(self)@ == history_pop(old(self)@),
            old(self)@.prev.len() == 0 ==> final(self)@.current == initial_pair(),
    {
        if let Some(prev) = self.prev.pop() {
            self.current = prev;
        } else {
            self.current = (Screen::List, Select::Addr(0));
        }
    }

    /// Saves the active pair and makes `new` active.
    pub fn push(&mut self, new: (Screen, Select))
        ensures
            final(self)@ == history_push(old(self)@, new),
    {
        self.prev.push(self.current);
        self.current = new;
    }
}

/// Two pushes followed by two pops land back exactly on the history they
/// started from, whatever was pushed.
pub proof fn lemma_history_round_trip(h: HistoryModel, a: (Screen, Select), b: (Screen, Select))
    ensures
        history_pop(history_pop(history_push(history_push(h, a), b))) == h,
{
    let once = history_push(h, a);
    let twice = history_push(once, b);
    assert(history_pop(twice).prev =~= once.prev);
    assert(history_pop(history_pop(twice)).prev =~= h.prev);
}

/// A discrete navigation input: one step up or one step down the active
/// list.
#[derive(Debug, Clone, Copy, PartialEq, Eq, Structural)]
pub enum NavAction {
    Up,
    Down,
}

/// The selection after a sequence of up/down steps, each taken against
/// the item bound that held at that moment.
pub open spec fn apply_nav(s: Select, steps: Seq<(NavAction, int)>) -> Select
    decreases steps.len(),
{
    if steps.len() == 0 {
        s
    } else {
        let next = match steps[0].0 {
            NavAction::Up => select_sub(s, 1),
            NavAction::Down => select_add(s, 1, steps[0].1),
        };
        apply_nav(next, steps.drop_first())
    }
}

/// A down step lands within `[0, max]` from any starting selection: the
/// clamp re-applies even to an index that has gone out of range.
pub proof fn lemma_add_clamps(s: Select, n: int, max: int)
    requires
        n >= 0,
        max >= 0,
    ensures
        select_value(select_add(s, n, max)) <= max,
{
}

/// A selection within its list stays within its list under any sequence
/// of up/down steps, even while the list grows between steps: with the
/// per-step bounds never shrinking, the index after the last step is
/// within `[0, last bound]`.
pub proof fn lemma_nav_within_bounds(s: Select, steps: Seq<(NavAction, int)>)
    requires
        steps.len() > 0,
        0 <= select_value(s) <= steps[0].1,
        forall|i: int| 0 <= i < steps.len() - 1 ==> #[trigger] steps[i].1 <= steps[i + 1].1,
    ensures
        0 <= select_value(apply_nav(s, steps)) <= steps.last().1,
    decreases steps.len(),
{
    let next = match steps[0].0 {
        NavAction::Up => select_sub(s, 1),
        NavAction::Down => select_add(s, 1, steps[0].1),
    };
    if steps.len() == 1 {
    } else {
        let rest = steps.drop_first();
        assert(select_value(next) <= steps[0].1);
        assert(steps[0].1 <= steps[1].1);
        assert(rest[0] == steps[1]);
        assert forall|i: int| 0 <= i < rest.len() - 1 implies #[trigger] rest[i].1 <= rest[i
            + 1].1 by {
            assert(rest[i] == steps[i + 1]);
            assert(rest[i + 1] == steps[i + 2]);
        }
        lemma_nav_within_bounds(next, rest);
        assert(rest.last() == steps.last());
    }
}


/// One discrete input the dashboard reacts to, as the shell read it off
/// the terminal.
#[derive(Debug, Clone, Copy, PartialEq, Eq, Structural)]
pub enum InputEvent {
    CtrlC,
    Up,
    Down,
    Left,
    Right,
    Enter,
    Escape,
    OtherKey,
    Resize(u16, u16),
    FocusGained,
    FocusLost,
    Mouse,
    Paste,
}

/// What the shell should do after an input was handled: carry on, or
/// shut the process down.
#[derive(Debug, Clone, Copy, PartialEq, Eq, Structural)]
pub enum InputOutcome {
    Continue,
    Exit,
}

/// The dashboard state: the window's geometry, the cached snapshot of the
/// connection log, whether that cache is stale, and where the user has
/// navigated to.
#[derive(Debug)]
pub struct TuiState {
    pub window_size: Rect,
    pub connections_cache: ConnectionLog,
    pub needs_update: bool,
    pub history: History,
    pub screen: Screen,
    pub prompt: String,
}

/// Mathematical model of a [`TuiState`].
pub ghost struct TuiModel {
    pub window_size: Rect,
    pub connections_cache: Seq<(Seq<char>, Seq<EntryModel>)>,
    pub needs_update: bool,
    pub history: HistoryModel,
    pub screen: Screen,
    pub prompt: Seq<char>,
}

impl View for TuiState {
    type V = TuiModel;

    open spec fn view(&self) -> TuiModel {
        TuiModel {
            window_size: self.window_size,
            connections_cache: self.connections_cache@,
            needs_update: self.needs_update,
            history: self.history@,
            screen: self.screen,
            prompt: self.prompt@,
        }
    }
}

/// The highest selectable index on the active screen: the last peer on
/// the address list, the last entry of the peer one level back on the
/// entry list, `0` wherever the list is empty, missing or unselectable.
pub open spec fn spec_max_select(s: TuiModel) -> int {
    match s.history.current.0 {
        Screen::List => if s.connections_cache.len() == 0 {
            0
        } else {
            s.connections_cache.len() - 1
        },
        Screen::Details => if s.history.prev.len() >= 1 {
            let a = select_value(s.history.prev.last().1);
            if a < s.connections_cache.len() {
                if s.connections_cache[a].1.len() == 0 {
                    0
                } else {
                    s.connections_cache[a].1.len() - 1
                }
            } else {
                0
            }
        } else {
            0
        },
        Screen::Detail => 0,
    }
}

/// The dashboard's transition function: what one discrete input does to
/// the state.  Up and down move the selection, clamped to the active
/// list; enter descends, from the address list only if it has peers;
/// escape goes one level back; a resize replaces the window geometry;
/// every other input changes nothing.
pub open spec fn transition(s: TuiModel, e: InputEvent) -> TuiModel {
    match e {
        InputEvent::Up => TuiModel {
            history: HistoryModel {
                current: (s.history.current.0, select_sub(s.history.current.1, 1)),
                prev: s.history.prev,
            },
            ..s
        },
        InputEvent::Down => TuiModel {
            history: HistoryModel {
                current: (
                    s.history.current.0,
                    select_add(s.history.current.1, 1, spec_max_select(s)),
                ),
                prev: s.history.prev,
            },
            ..s
        },
        InputEvent::Enter => match s.history.current.0 {
            Screen::List => if s.connections_cache.len() > 0 {
                TuiModel {
                    history: history_push(s.history, (Screen::Details, Select::Member(0))),
                    ..s
                }
            } else {
                s
            },
            Screen::Details => TuiModel {
                history: history_push(s.history, (Screen::Detail, Select::Unselectable)),
                ..s
            },
            Screen::Detail => s,
        },
        InputEvent::Escape => TuiModel { history: history_pop(s.history), ..s },
        InputEvent::Resize(c, r) => TuiModel {
            window_size: Rect { cols: (0, c as usize), rows: (0, r as usize) },
            ..s
        },
        _ => s,
    }
}

/// What the shell should do after each input: shut down on the quit key,
/// carry on otherwise.
pub open spec fn input_outcome(e: InputEvent) -> InputOutcome {
    match e {
        InputEvent::CtrlC => InputOutcome::Exit,
        _ => InputOutcome::Continue,
    }
}

/// The keys of the log, in first-seen order.
pub open spec fn log_keys(log: Seq<(Seq<char>, Seq<EntryModel>)>) -> Seq<Seq<char>> {
    log.map(|i: int, p: (Seq<char>, Seq<EntryModel>)| p.0)
}

/// A selection index made valid for a list drawn with `len` items: the
/// last row where the index has outgrown the list, `0` where the list is
/// empty.  Rendering re-clamps every selection through this, so the
/// highlight stays on a drawn row however the log has moved since the
/// last input.
pub open spec fn clamped_index(sel: int, len: int) -> int {
    if len <= 0 {
        0
    } else if sel >= len {
        len - 1
    } else {
        sel
    }
}

/// The lines of the screen-specific panes, placed.  Every highlight index
/// is the selection re-clamped to the drawn list's item count.
pub open spec fn screen_frame(s: TuiModel) -> Seq<PlacedLineModel> {
    match s.history.current.0 {
        Screen::List => {
            let b = Rect { cols: (0, s.window_size.cols.1), rows: (1, s.window_size.rows.1) };
            placed_element(
                b,
                StyledLineModel {
                    text: centered("Address"@, rect_width(b) as nat),
                    style: StyleVariants::Header(true),
                },
                list_lines(
                    log_keys(s.connections_cache),
                    rect_height(b) as nat,
                    rect_width(b) as nat,
                    clamped_index(
                        select_value(s.history.current.1),
                        s.connections_cache.len() as int,
                    ),
                    true,
                ),
            )
        },
        Screen::Details => {
            let ab = Rect {
                cols: (0, s.window_size.cols.1 / 3),
                rows: (1, s.window_size.rows.1),
            };
            let cb = Rect {
                cols: (rect_width(ab) as usize, s.window_size.cols.1),
                rows: (1, s.window_size.rows.1),
            };
            let picked = s.history.prev.len() >= 1 && s.history.prev.last().1 is Addr;
            let address = clamped_index(
                select_value(s.history.prev.last().1),
                s.connections_cache.len() as int,
            );
            let addr_part = if picked {
                placed_element(
                    ab,
                    StyledLineModel {
                        text: centered("Address"@, rect_width(ab) as nat),
                        style: StyleVariants::Header(false),
                    },
                    list_lines(
                        log_keys(s.connections_cache),
                        rect_height(ab) as nat,
                        rect_width(ab) as nat,
                        address,
                        true,
                    ),
                )
            } else {
                Seq::<PlacedLineModel>::empty()
            };
            let items = if picked && address < s.connections_cache.len() {
                s.connections_cache[address].1
            } else {
                Seq::<EntryModel>::empty()
            };
            addr_part + placed_element(
                cb,
                StyledLineModel {
                    text: centered("Connections"@, rect_width(cb) as nat),
                    style: StyleVariants::Header(true),
                },
                list_lines(
                    items.map(|i: int, e: EntryModel| entry_text(e)),
                    rect_height(cb) as nat,
                    rect_width(cb) as nat,
                    clamped_index(select_value(s.history.current.1), items.len() as int),
                    true,
                ),
            )
        },
        Screen::Detail => {
            let db = Rect { cols: (0, s.window_size.cols.1), rows: (1, s.window_size.rows.1) };
            let deep = s.history.prev.len() >= 2;
            let two_back = s.history.prev[s.history.prev.len() - 2];
            let one_back = s.history.prev[s.history.prev.len() - 1];
            if deep && two_back.0 is List && two_back.1 is Addr && select_value(two_back.1)
                < s.connections_cache.len() && one_back.0 is Details && one_back.1 is Member
                && select_value(one_back.1) < s.connections_cache[select_value(two_back.1)].1.len()
                && s.connections_cache[select_value(two_back.1)].1[select_value(
                one_back.1,
            )].content is Some {
                let key = s.connections_cache[select_value(two_back.1)].0;
                let content = s.connections_cache[select_value(two_back.1)].1[select_value(
                    one_back.1,
                )].content->Some_0;
                placed_element(
                    db,
                    StyledLineModel {
                        text: centered(key, rect_width(db) as nat),
                        style: StyleVariants::Header(true),
                    },
                    list_lines(
                        split_lines(trimmed(content)),
                        rect_height(db) as nat,
                        rect_width(db) as nat,
                        -1,
                        false,
                    ),
                )
            } else {
                Seq::<PlacedLineModel>::empty()
            }
        },
    }
}

/// The whole frame the dashboard shows: the program title across the top
/// of the window, then the active screen's panes.
pub open spec fn frame_spec(s: TuiModel) -> Seq<PlacedLineModel> {
    let hb = Rect { cols: (0, s.window_size.cols.1), rows: (0, 0) };
    seq![
        PlacedLineModel {
            col: 0,
            row: 0,
            line: StyledLineModel {
                text: centered("Testsuite"@, rect_width(hb) as nat),
                style: StyleVariants::Title,
            },
        },
    ] + screen_frame(s)
}

impl TuiState {
    /// The cached snapshot is a well-formed log.
    pub open spec fn well_formed(&self) -> bool {
        self.connections_cache.well_formed()
    }

    /// A dashboard showing the address list over the given snapshot, with
    /// nothing stale and nowhere navigated yet.
    pub fn new(window_size: Rect, connections_cache: ConnectionLog) -> (r: TuiState)
        requires
            connections_cache.well_formed(),
        ensures
            r.well_formed(),
            r@.window_size == window_size,
            r@.connections_cache == connections_cache@,
            r@.needs_update == false,
            r@.history.current == initial_pair(),
            r@.history.prev.len() == 0,
            r@.screen == Screen::List,
            r@.prompt.len() == 0,
    {
        TuiState {
            window_size,
            connections_cache,
            needs_update: false,
            history: History::new(),
            screen: Screen::List,
            prompt: String::new(),
        }
    }

    /// Replaces the cached snapshot with a fresh one and clears the
    /// stale mark; nothing else moves.
    pub fn refresh(&mut self, snapshot: ConnectionLog)
        requires
            snapshot.well_formed(),
        ensures
            final(self).well_formed(),
            final(self)@ == (TuiModel {
                connections_cache: snapshot@,
                needs_update: false,
                ..old(self)@
            }),
    {
        self.connections_cache = snapshot;
        self.needs_update = false;
    }

    /// Sets which screen is shown.
    pub fn set_screen(&mut self, screen: Screen)
        ensures
            final(self)@ == (TuiModel { screen, ..old(self)@ }),
    {
        self.screen = screen
    }

    /// The highest selectable index on the active screen.
    pub fn get_max_select_size(&self) -> (r: usize)
        ensures
            r as int == spec_max_select(self@),
    {
        match self.history.current.0 {
            Screen::List => {
                let n = self.connections_cache.len();
                if n == 0 {
                    0
                } else {
                    n - 1
                }
            },
            Screen::Details => {
                match self.history.peek_prev(1) {
                    Some(pair) => {
                        let a = pair.1.value();
                        match self.connections_cache.get_index(a) {
                            Some(group) => {
                                let c = group.1.len();
                                proof {
                                    assert(entries_model(group.1@).len() == group.1@.len());
                                }
                                if c == 0 {
                                    0
                                } else {
                                    c - 1
                                }
                            },
                            None => 0,
                        }
                    },
                    None => 0,
                }
            },
            Screen::Detail => 0,
        }
    }

    /// Reacts to one discrete input, as [`transition`] says, and tells
    /// the shell whether to carry on.
    pub fn handle_input(&mut self, event: &InputEvent) -> (r: InputOutcome)
        requires
            old(self).well_formed(),
        ensures
            final(self).well_formed(),
            final(self)@ == transition(old(self)@, *event),
            r == input_outcome(*event),
    {
        match event {
            InputEvent::CtrlC => InputOutcome::Exit,
            InputEvent::Up => {
                let mut sel = self.history.current.1;
                sel.sub(1);
                self.history.current.1 = sel;
                InputOutcome::Continue
            },
            InputEvent::Down => {
                let max = self.get_max_select_size();
                let mut sel = self.history.current.1;
                sel.add(1, max);
                self.history.current.1 = sel;
                InputOutcome::Continue
            },
            InputEvent::Enter => {
                match self.history.current.0 {
                    Screen::List => {
                        if !self.connections_cache.is_empty() {
                            self.history.push((Screen::Details, Select::Member(0)));
                        }
                    },
                    Screen::Details => {
                        self.history.push((Screen::Detail, Select::Unselectable));
                    },
                    Screen::Detail => {},
                }
                InputOutcome::Continue
            },
            InputEvent::Escape => {
                self.history.pop();
                InputOutcome::Continue
            },
            InputEvent::Resize(c, r) => {
                self.window_size = Rect { cols: (0, *c as usize), rows: (0, *r as usize) };
                InputOutcome::Continue
            },
            _ => InputOutcome::Continue,
        }
    }

    /// The peer keys of the cached snapshot, in first-seen order.
    fn collect_keys(&self) -> (r: Vec<String>)
        ensures
            r@.map(|i: int, s: String| s@) == log_keys(self@.connections_cache),
    {
        let mut out: Vec<String> = Vec::new();
        let n = self.connections_cache.len();
        let mut i: usize = 0;
        while i < n
            invariant
                0 <= i <= n,
                n == self@.connections_cache.len(),
                out@.len() == i,
                forall|k: int|
                    0 <= k < i ==> #[trigger] out@[k]@ == self@.connections_cache[k].0,
            decreases n - i,
        {
            match self.connections_cache.get_index(i) {
                Some(pair) => {
                    out.push(pair.0.clone());
                },
                None => {
                    proof {
                        assert(false);
                    }
                },
            }
            i += 1;
        }
        proof {
            assert(out@.map(|k: int, s: String| s@) =~= log_keys(self@.connections_cache));
        }
        out
    }

    /// One selection index re-clamped to a list of `len` drawn items.
    fn clamp_to_list(sel: usize, len: usize) -> (r: usize)
        ensures
            r as int == clamped_index(sel as int, len as int),
    {
        if len == 0 {
            0
        } else if sel >= len {
            len - 1
        } else {
            sel
        }
    }

    /// The whole frame to draw: the program title, then the active
    /// screen's panes, every row padded to its pane's width and every
    /// highlight re-clamped to the list actually drawn.  The same state
    /// always renders the same frame.
    pub fn render(&self) -> (r: Vec<PlacedLine>)
        requires
            self.well_formed(),
        ensures
            placed_model(r@) == frame_spec(self@),
    {
        let header = ProgramHeader {
            bounds: Rect { cols: (0, self.window_size.cols.1), rows: (0, 0) },
        };
        let mut out = header.render();
        match self.history.current.0 {
            Screen::List => {
                let b = Rect {
                    cols: (0, self.window_size.cols.1),
                    rows: (1, self.window_size.rows.1),
                };
                let keys = self.collect_keys();
                let sel = TuiState::clamp_to_list(self.history.current.1.value(), self.connections_cache.len());
                let list = AddressList::default(b, keys, true, sel);
                let mut part = list.render();
                out.append(&mut part);
            },
            Screen::Details => {
                let ab = Rect {
                    cols: (0, self.window_size.cols.1 / 3),
                    rows: (1, self.window_size.rows.1),
                };
                let cb = Rect {
                    cols: (ab.width(), self.window_size.cols.1),
                    rows: (1, self.window_size.rows.1),
                };
                let mut items: Vec<TuiResponse> = Vec::new();
                let picked = match self.history.peek_prev(1) {
                    Some(pair) => match pair.1 {
                        Select::Addr(address) => Some(address),
                        _ => None,
                    },
                    None => None,
                };
                if let Some(address_raw) = picked {
                    let address = TuiState::clamp_to_list(address_raw, self.connections_cache.len());
                    let keys = self.collect_keys();
                    let list = AddressList::default(ab, keys, false, address);
                    let mut part = list.render();
                    out.append(&mut part);
                    if let Some(group) = self.connections_cache.get_index(address) {
                        let m = group.1.len();
                        let mut j: usize = 0;
                        while j < m
                            invariant
                                0 <= j <= m,
                                m == group.1@.len(),
                                items@.len() == j,
                                forall|k: int|
                                    0 <= k < j ==> #[trigger] items@[k]@ == group.1@[k]@,
                            decreases m - j,
                        {
                            items.push(group.1[j].duplicate());
                            j += 1;
                        }
                    }
                }
                let ghost s = self@;
                let ghost address_clamped = clamped_index(
                    select_value(s.history.prev.last().1),
                    s.connections_cache.len() as int,
                );
                proof {
                    if picked is Some && address_clamped < s.connections_cache.len() {
                        assert(items@.map(|i: int, e: TuiResponse| entry_text(e@)) =~= s
                            .connections_cache[address_clamped].1.map(
                            |i: int, e: EntryModel| entry_text(e),
                        ));
                    } else {
                        assert(items@.map(|i: int, e: TuiResponse| entry_text(e@)) =~= Seq::<
                            EntryModel,
                        >::empty().map(|i: int, e: EntryModel| entry_text(e)));
                    }
                }
                let sel = TuiState::clamp_to_list(self.history.current.1.value(), items.len());
                let list = ConnectionsList::default(items, cb, true, sel);
                let mut part = list.render();
                out.append(&mut part);
            },
            Screen::Detail => {
                let db = Rect {
                    cols: (0, self.window_size.cols.1),
                    rows: (1, self.window_size.rows.1),
                };
                if let Some(two_back) = self.history.peek_prev(2) {
                    if let (Screen::List, Select::Addr(address)) = *two_back {
                        if let Some(group) = self.connections_cache.get_index(address) {
                            if let Some(one_back) = self.history.peek_prev(1) {
                                if let (Screen::Details, Select::Member(member)) = *one_back {
                                    if member < group.1.len() {
                                        if let Some(content) = &group.1[member].content {
                                            let cut = trim_text(content.as_str());
                                            let lines = lines_of(cut.as_str());
                                            let window = DetailWindow::default(
                                                db,
                                                lines,
                                                true,
                                                group.0.clone(),
                                            );
                                            let mut part = window.render();
                                            out.append(&mut part);
                                        }
                                    }
                                }
                            }
                        }
                    }
                }
            },
        }
        proof {
            assert(placed_model(out@) =~= frame_spec(self@));
        }
        out
    }
}

} // verus!
