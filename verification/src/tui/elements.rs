//! The render layer: stateless widgets that turn items and a selection
//! into styled terminal lines.  Every widget shows at most as many rows
//! as its rectangle is high, pads or cuts every row to exactly its
//! rectangle's width, and marks the selected row by its style alone.
//! Putting the styled lines on the terminal — colors, cursor moves — is
//! the application shell's job.

use vstd::prelude::*;
use crate::connections::EntryModel;
use crate::connections::TuiResponse;
use crate::text::centered;
use crate::text::center_to_width;
use crate::text::joined_lines;
use crate::text::pad_or_cut;
use crate::text::pad_to_width;
use crate::text::trimmed;
use crate::text::trim_text;
use crate::tui::Rect;
use crate::tui::rect_height;
use crate::tui::rect_width;

verus! {

/// How a piece of terminal text is styled: a list row, selected or not;
/// a pane header, focused or not; or the program title.
#[derive(Debug, Clone, Copy, PartialEq, Eq, Structural)]
pub enum StyleVariants {
    Selected(bool),
    Header(bool),
    Title,
}

/// One styled line of terminal output.
#[derive(Debug)]
pub struct StyledLine {
    pub text: String,
    pub style: StyleVariants,
}

/// Mathematical model of a [`StyledLine`].
pub ghost struct StyledLineModel {
    pub text: Seq<char>,
    pub style: StyleVariants,
}

impl View for StyledLine {
    type V = StyledLineModel;

    open spec fn view(&self) -> StyledLineModel {
        StyledLineModel { text: self.text@, style: self.style }
    }
}

impl StyledLine {
    /// A copy whose model equals this line's.
    pub fn duplicate(&self) -> (r: StyledLine)
        ensures
            r@ == self@,
    {
        StyledLine { text: self.text.clone(), style: self.style }
    }
}

/// A styled line placed at a terminal position.
#[derive(Debug)]
pub struct PlacedLine {
    pub col: usize,
    pub row: usize,
    pub line: StyledLine,
}

/// Mathematical model of a [`PlacedLine`].
pub ghost struct PlacedLineModel {
    pub col: usize,
    pub row: usize,
    pub line: StyledLineModel,
}

impl View for PlacedLine {
    type V = PlacedLineModel;

    open spec fn view(&self) -> PlacedLineModel {
        PlacedLineModel { col: self.col, row: self.row, line: self.line@ }
    }
}

/// The model of a vector of styled lines.
pub open spec fn lines_model(v: Seq<StyledLine>) -> Seq<StyledLineModel> {
    v.map(|i: int, l: StyledLine| l@)
}

/// The model of a vector of placed lines.
pub open spec fn placed_model(v: Seq<PlacedLine>) -> Seq<PlacedLineModel> {
    v.map(|i: int, p: PlacedLine| p@)
}

/// A blank row: `width` spaces, unselected.
pub open spec fn blank_line(width: nat) -> StyledLineModel {
    StyledLineModel {
        text: pad_or_cut(Seq::<char>::empty(), width),
        style: StyleVariants::Selected(false),
    }
}

/// One list row: the item's text, trimmed where the widget trims, padded
/// or cut to the width, highlighted exactly where selected.
pub open spec fn item_line(text: Seq<char>, selected: bool, width: nat, trim: bool) -> StyledLineModel {
    StyledLineModel {
        text: pad_or_cut(
            if trim {
                trimmed(text)
            } else {
                text
            },
            width,
        ),
        style: StyleVariants::Selected(selected),
    }
}

/// The rows a list widget shows: exactly `height` of them, the `i`th
/// showing the `i`th item, rows past the items blank, items past the
/// height silently dropped.
pub open spec fn list_lines(
    texts: Seq<Seq<char>>,
    height: nat,
    width: nat,
    selected: int,
    trim: bool,
) -> Seq<StyledLineModel> {
    Seq::new(
        height,
        |i: int|
            if i < texts.len() {
                item_line(texts[i], i == selected, width, trim)
            } else {
                blank_line(width)
            },
    )
}

/// How many of `n` rows fit strictly inside the row bounds, below the
/// header row.
pub open spec fn placed_count(bounds: Rect, n: nat) -> nat {
    let avail = if bounds.rows.1 - bounds.rows.0 - 1 >= 0 {
        (bounds.rows.1 - bounds.rows.0 - 1) as nat
    } else {
        0
    };
    if n <= avail {
        n
    } else {
        avail
    }
}

/// A widget's placed output: its header on its first row, then as many
/// of its rows as fit strictly inside its row bounds, each at the
/// widget's left column; a rectangle without rows shows nothing.
pub open spec fn placed_element(
    bounds: Rect,
    header: StyledLineModel,
    lines: Seq<StyledLineModel>,
) -> Seq<PlacedLineModel> {
    if bounds.rows.0 < bounds.rows.1 {
        seq![PlacedLineModel { col: bounds.cols.0, row: bounds.rows.0, line: header }] + Seq::new(
            placed_count(bounds, lines.len()),
            |i: int|
                PlacedLineModel {
                    col: bounds.cols.0,
                    row: (bounds.rows.0 + i + 1) as usize,
                    line: lines[i],
                },
        )
    } else {
        Seq::empty()
    }
}

/// Places a header and its rows inside `bounds`, dropping whatever does
/// not fit.
fn emit_element(bounds: Rect, header: StyledLine, lines: Vec<StyledLine>) -> (r: Vec<PlacedLine>)
    ensures
        placed_model(r@) == placed_element(bounds, header@, lines_model(lines@)),
{
    let mut out: Vec<PlacedLine> = Vec::new();
    if bounds.rows.0 < bounds.rows.1 {
        out.push(PlacedLine { col: bounds.cols.0, row: bounds.rows.0, line: header });
        let avail = bounds.rows.1 - bounds.rows.0 - 1;
        let n = lines.len();
        let count = if n <= avail {
            n
        } else {
            avail
        };
        let mut i: usize = 0;
        while i < count
            invariant
                0 <= i <= count,
                count == placed_count(bounds, lines_model(lines@).len()),
                n == lines@.len(),
                bounds.rows.0 < bounds.rows.1,
                count <= bounds.rows.1 - bounds.rows.0 - 1,
                count <= n,
                out@.len() == i + 1,
                out@[0]@ == (PlacedLineModel {
                    col: bounds.cols.0,
                    row: bounds.rows.0,
                    line: header@,
                }),
                forall|k: int|
                    0 <= k < i ==> #[trigger] out@[k + 1]@ == (PlacedLineModel {
                        col: bounds.cols.0,
                        row: (bounds.rows.0 + k + 1) as usize,
                        line: lines@[k]@,
                    }),
            decreases count - i,
        {
            out.push(
                PlacedLine {
                    col: bounds.cols.0,
                    row: bounds.rows.0 + i + 1,
                    line: lines[i].duplicate(),
                },
            );
            i += 1;
        }
        proof {
            let pm = placed_element(bounds, header@, lines_model(lines@));
            assert forall|k: int| 0 <= k < pm.len() implies placed_model(out@)[k] == pm[k] by {
                if k >= 1 {
                    assert(out@[(k - 1) + 1]@ == (PlacedLineModel {
                        col: bounds.cols.0,
                        row: (bounds.rows.0 + (k - 1) + 1) as usize,
                        line: lines@[k - 1]@,
                    }));
                    assert(lines_model(lines@)[k - 1] == lines@[k - 1]@);
                }
            }
            assert(placed_model(out@) =~= pm);
        }
    } else {
        proof {
            assert(placed_model(out@) =~= placed_element(bounds, header@, lines_model(lines@)));
        }
    }
    out
}

/// The peer address pane: one row per peer key, the selected one
/// highlighted.
#[derive(Debug)]
pub struct AddressList {
    pub bounds: Rect,
    pub list: Vec<String>,
    pub current: bool,
    pub selected_item: usize,
}

impl AddressList {
    /// The texts this pane lists.
    pub open spec fn texts(&self) -> Seq<Seq<char>> {
        self.list@.map(|i: int, s: String| s@)
    }

    pub open spec fn spec_bounds(&self) -> Rect {
        self.bounds
    }

    pub open spec fn spec_selected(&self) -> int {
        self.selected_item as int
    }

    pub open spec fn spec_current(&self) -> bool {
        self.current
    }

    pub fn new(items: Vec<String>, bounds: Rect, current: bool, selected_item: usize) -> (r: AddressList)
        ensures
            r.texts() == items@.map(|i: int, s: String| s@),
            r.spec_bounds() == bounds,
            r.spec_current() == current,
            r.spec_selected() == selected_item as int,
    {
        AddressList { bounds, list: items, selected_item, current }
    }

    pub fn default(bounds: Rect, list: Vec<String>, current: bool, selected_item: usize) -> (r: AddressList)
        ensures
            r.texts() == list@.map(|i: int, s: String| s@),
            r.spec_bounds() == bounds,
            r.spec_current() == current,
            r.spec_selected() == selected_item as int,
    {
        AddressList { list, current, bounds, selected_item }
    }

    pub fn get_selected_index(&self) -> (r: usize)
        ensures
            r as int == self.spec_selected(),
    {
        self.selected_item
    }

    pub fn bounds(&self) -> (r: Rect)
        ensures
            r == self.spec_bounds(),
    {
        self.bounds
    }

    pub fn is_current(&self) -> (r: bool)
        ensures
            r == self.spec_current(),
    {
        self.current
    }

    /// The pane's rows: each address trimmed and padded to the width, the
    /// selected one highlighted, blank rows past the items.
    pub fn print(&self) -> (r: Vec<StyledLine>)
        ensures
            lines_model(r@) == list_lines(
                self.texts(),
                rect_height(self.spec_bounds()) as nat,
                rect_width(self.spec_bounds()) as nat,
                self.spec_selected(),
                true,
            ),
    {
        print_item_lines(&self.list, self.bounds, self.selected_item)
    }

    /// The pane's centered header.
    pub fn get_header(&self, current: bool) -> (r: StyledLine)
        ensures
            r@ == (StyledLineModel {
                text: centered("Address"@, rect_width(self.spec_bounds()) as nat),
                style: StyleVariants::Header(current),
            }),
    {
        let width = self.bounds.width();
        StyledLine {
            text: center_to_width("Address", width),
            style: StyleVariants::Header(current),
        }
    }

    /// The pane rendered into placed lines: header first, rows below,
    /// whatever does not fit dropped.
    pub fn render(&self) -> (r: Vec<PlacedLine>)
        ensures
            placed_model(r@) == placed_element(
                self.spec_bounds(),
                (StyledLineModel {
                    text: centered("Address"@, rect_width(self.spec_bounds()) as nat),
                    style: StyleVariants::Header(self.spec_current()),
                }),
                list_lines(
                    self.texts(),
                    rect_height(self.spec_bounds()) as nat,
                    rect_width(self.spec_bounds()) as nat,
                    self.spec_selected(),
                    true,
                ),
            ),
    {
        let header = self.get_header(self.is_current());
        let lines = self.print();
        emit_element(self.bounds, header, lines)
    }
}

/// The rows of a pane of plain texts: each trimmed and padded, the
/// selected one highlighted.
fn print_item_lines(list: &Vec<String>, bounds: Rect, selected: usize) -> (r: Vec<StyledLine>)
    ensures
        lines_model(r@) == list_lines(
            list@.map(|i: int, s: String| s@),
            rect_height(bounds) as nat,
            rect_width(bounds) as nat,
            selected as int,
            true,
        ),
{
    let height = bounds.height();
    let width = bounds.width();
    let ghost texts = list@.map(|i: int, s: String| s@);
    let mut out: Vec<StyledLine> = Vec::new();
    let mut i: usize = 0;
    while i < height
        invariant
            0 <= i <= height,
            height == rect_height(bounds),
            width == rect_width(bounds),
            texts == list@.map(|k: int, s: String| s@),
            out@.len() == i,
            forall|k: int|
                0 <= k < i ==> #[trigger] out@[k]@ == if k < texts.len() {
                    item_line(texts[k], k == selected as int, width as nat, true)
                } else {
                    blank_line(width as nat)
                },
        decreases height - i,
    {
        if i < list.len() {
            let t = trim_text(list[i].as_str());
            let padded = pad_to_width(t.as_str(), width);
            out.push(StyledLine { text: padded, style: StyleVariants::Selected(i == selected) });
        } else {
            let empty = String::new();
            let padded = pad_to_width(empty.as_str(), width);
            out.push(StyledLine { text: padded, style: StyleVariants::Selected(false) });
        }
        i += 1;
    }
    proof {
        assert(lines_model(out@) =~= list_lines(
            texts,
            rect_height(bounds) as nat,
            rect_width(bounds) as nat,
            selected as int,
            true,
        ));
    }
    out
}

/// The text an entry is listed under: its content joined to one row, or
/// a placeholder.
pub open spec fn entry_text(e: EntryModel) -> Seq<char> {
    match e.content {
        Some(c) => joined_lines(c),
        None => "No content"@,
    }
}

/// The entry pane: one row per logged entry of one peer, the selected
/// one highlighted.
#[derive(Debug)]
pub struct ConnectionsList {
    pub bounds: Rect,
    pub list: Vec<TuiResponse>,
    pub current: bool,
    pub selected_item: usize,
}

impl ConnectionsList {
    /// The texts this pane lists: each entry joined to one row.
    pub open spec fn texts(&self) -> Seq<Seq<char>> {
        self.list@.map(|i: int, e: TuiResponse| entry_text(e@))
    }

    pub open spec fn spec_bounds(&self) -> Rect {
        self.bounds
    }

    pub open spec fn spec_selected(&self) -> int {
        self.selected_item as int
    }

    pub open spec fn spec_current(&self) -> bool {
        self.current
    }

    pub fn new(items: Vec<TuiResponse>, bounds: Rect, current: bool, selected_item: usize) -> (r: ConnectionsList)
        ensures
            r.texts() == items@.map(|i: int, e: TuiResponse| entry_text(e@)),
            r.spec_bounds() == bounds,
            r.spec_current() == current,
            r.spec_selected() == selected_item as int,
    {
        ConnectionsList { bounds, list: items, current, selected_item }
    }

    pub fn default(list: Vec<TuiResponse>, bounds: Rect, current: bool, selected_item: usize) -> (r: ConnectionsList)
        ensures
            r.texts() == list@.map(|i: int, e: TuiResponse| entry_text(e@)),
            r.spec_bounds() == bounds,
            r.spec_current() == current,
            r.spec_selected() == selected_item as int,
    {
        ConnectionsList { list, bounds, current, selected_item }
    }

    pub fn bounds(&self) -> (r: Rect)
        ensures
            r == self.spec_bounds(),
    {
        self.bounds
    }

    pub fn get_selected_index(&self) -> (r: usize)
        ensures
            r as int == self.spec_selected(),
    {
        self.selected_item
    }

    pub fn is_current(&self) -> (r: bool)
        ensures
            r == self.spec_current(),
    {
        self.current
    }

    /// The pane's rows: each entry's one-row text, trimmed and padded,
    /// the selected one highlighted, blank rows past the entries.
    pub fn print(&self) -> (r: Vec<StyledLine>)
        ensures
            lines_model(r@) == list_lines(
                self.texts(),
                rect_height(self.spec_bounds()) as nat,
                rect_width(self.spec_bounds()) as nat,
                self.spec_selected(),
                true,
            ),
    {
        self.create_member_list()
    }

    /// The rows of the member list, built entry by entry.
    fn create_member_list(&self) -> (r: Vec<StyledLine>)
        ensures
            lines_model(r@) == list_lines(
                self.texts(),
                rect_height(self.spec_bounds()) as nat,
                rect_width(self.spec_bounds()) as nat,
                self.spec_selected(),
                true,
            ),
    {
        let height = self.bounds.height();
        let width = self.bounds.width();
        let ghost texts = self.texts();
        let mut out: Vec<StyledLine> = Vec::new();
        let mut i: usize = 0;
        while i < height
            invariant
                0 <= i <= height,
                height == rect_height(self.bounds),
                width == rect_width(self.bounds),
                texts == self.texts(),
                out@.len() == i,
                forall|k: int|
                    0 <= k < i ==> #[trigger] out@[k]@ == if k < texts.len() {
                        item_line(texts[k], k == self.spec_selected(), width as nat, true)
                    } else {
                        blank_line(width as nat)
                    },
            decreases height - i,
        {
            if i < self.list.len() {
                let line = self.list[i].get_response_as_line();
                let t = trim_text(line.as_str());
                let padded = pad_to_width(t.as_str(), width);
                out.push(
                    StyledLine {
                        text: padded,
                        style: StyleVariants::Selected(i == self.selected_item),
                    },
                );
            } else {
                let empty = String::new();
                let padded = pad_to_width(empty.as_str(), width);
                out.push(StyledLine { text: padded, style: StyleVariants::Selected(false) });
            }
            i += 1;
        }
        proof {
            assert(lines_model(out@) =~= list_lines(
                texts,
                rect_height(self.bounds) as nat,
                rect_width(self.bounds) as nat,
                self.spec_selected(),
                true,
            ));
        }
        out
    }

    /// The pane's centered header.
    pub fn get_header(&self, current: bool) -> (r: StyledLine)
        ensures
            r@ == (StyledLineModel {
                text: centered("Connections"@, rect_width(self.spec_bounds()) as nat),
                style: StyleVariants::Header(current),
            }),
    {
        let width = self.bounds.width();
        StyledLine {
            text: center_to_width("Connections", width),
            style: StyleVariants::Header(current),
        }
    }

    /// The pane rendered into placed lines.
    pub fn render(&self) -> (r: Vec<PlacedLine>)
        ensures
            placed_model(r@) == placed_element(
                self.spec_bounds(),
                (StyledLineModel {
                    text: centered("Connections"@, rect_width(self.spec_bounds()) as nat),
                    style: StyleVariants::Header(self.spec_current()),
                }),
                list_lines(
                    self.texts(),
                    rect_height(self.spec_bounds()) as nat,
                    rect_width(self.spec_bounds()) as nat,
                    self.spec_selected(),
                    true,
                ),
            ),
    {
        let header = self.get_header(self.is_current());
        let lines = self.print();
        emit_element(self.bounds, header, lines)
    }
}

/// The one-row program header across the top of the window.
#[derive(Debug)]
pub struct ProgramHeader {
    pub bounds: Rect,
}

impl ProgramHeader {
    /// The centered program title.
    pub fn get_header(&self) -> (r: StyledLine)
        ensures
            r@ == (StyledLineModel {
                text: centered("Testsuite"@, rect_width(self.bounds) as nat),
                style: StyleVariants::Title,
            }),
    {
        let width = self.bounds.width();
        StyledLine { text: center_to_width("Testsuite", width), style: StyleVariants::Title }
    }

    /// The header rendered: the title, always at the window's top left
    /// corner.
    pub fn render(&self) -> (r: Vec<PlacedLine>)
        ensures
            placed_model(r@) == seq![
                PlacedLineModel {
                    col: 0,
                    row: 0,
                    line: StyledLineModel {
                        text: centered("Testsuite"@, rect_width(self.bounds) as nat),
                        style: StyleVariants::Title,
                    },
                },
            ],
    {
        let header = self.get_header();
        let mut out: Vec<PlacedLine> = Vec::new();
        out.push(PlacedLine { col: 0, row: 0, line: header });
        proof {
            assert(placed_model(out@) =~= seq![
                PlacedLineModel {
                    col: 0,
                    row: 0,
                    line: StyledLineModel {
                        text: centered("Testsuite"@, rect_width(self.bounds) as nat),
                        style: StyleVariants::Title,
                    },
                },
            ]);
        }
        out
    }
}

/// The full-text pane of one entry: its content line by line, headed by
/// the peer's address.
#[derive(Debug)]
pub struct DetailWindow {
    pub bounds: Rect,
    pub current: bool,
    pub details: Vec<String>,
    pub addr: String,
}

impl DetailWindow {
    /// The lines this pane shows, as they are.
    pub open spec fn texts(&self) -> Seq<Seq<char>> {
        self.details@.map(|i: int, s: String| s@)
    }

    pub open spec fn spec_bounds(&self) -> Rect {
        self.bounds
    }

    pub open spec fn spec_current(&self) -> bool {
        self.current
    }

    pub open spec fn spec_addr(&self) -> Seq<char> {
        self.addr@
    }

    pub fn new(items: Vec<String>, bounds: Rect, current: bool) -> (r: DetailWindow)
        ensures
            r.texts() == items@.map(|i: int, s: String| s@),
            r.spec_bounds() == bounds,
            r.spec_current() == current,
            r.spec_addr() == Seq::<char>::empty(),
    {
        DetailWindow { bounds, current, details: items, addr: String::new() }
    }

    pub fn default(bounds: Rect, details: Vec<String>, current: bool, addr: String) -> (r: DetailWindow)
        ensures
            r.texts() == details@.map(|i: int, s: String| s@),
            r.spec_bounds() == bounds,
            r.spec_current() == current,
            r.spec_addr() == addr@,
    {
        DetailWindow { details, current, bounds, addr }
    }

    pub fn bounds(&self) -> (r: Rect)
        ensures
            r == self.spec_bounds(),
    {
        self.bounds
    }

    pub fn is_current(&self) -> (r: bool)
        ensures
            r == self.spec_current(),
    {
        self.current
    }

    /// The pane's rows: the content's lines as they are, padded or cut
    /// to the width, none highlighted, blank rows past the lines.
    pub fn print(&self) -> (r: Vec<StyledLine>)
        ensures
            lines_model(r@) == list_lines(
                self.texts(),
                rect_height(self.spec_bounds()) as nat,
                rect_width(self.spec_bounds()) as nat,
                -1,
                false,
            ),
    {
        let height = self.bounds.height();
        let width = self.bounds.width();
        let ghost texts = self.texts();
        let mut out: Vec<StyledLine> = Vec::new();
        let mut i: usize = 0;
        while i < height
            invariant
                0 <= i <= height,
                height == rect_height(self.bounds),
                width == rect_width(self.bounds),
                texts == self.texts(),
                out@.len() == i,
                forall|k: int|
                    0 <= k < i ==> #[trigger] out@[k]@ == if k < texts.len() {
                        item_line(texts[k], false, width as nat, false)
                    } else {
                        blank_line(width as nat)
                    },
            decreases height - i,
        {
            if i < self.details.len() {
                let padded = pad_to_width(self.details[i].as_str(), width);
                out.push(StyledLine { text: padded, style: StyleVariants::Selected(false) });
            } else {
                let empty = String::new();
                let padded = pad_to_width(empty.as_str(), width);
                out.push(StyledLine { text: padded, style: StyleVariants::Selected(false) });
            }
            i += 1;
        }
        proof {
            assert(lines_model(out@) =~= list_lines(
                texts,
                rect_height(self.bounds) as nat,
                rect_width(self.bounds) as nat,
                -1,
                false,
            ));
        }
        out
    }

    /// The pane's header: the peer's address, centered.
    pub fn get_header(&self, current: bool) -> (r: StyledLine)
        ensures
            r@ == (StyledLineModel {
                text: centered(self.spec_addr(), rect_width(self.spec_bounds()) as nat),
                style: StyleVariants::Header(current),
            }),
    {
        let width = self.bounds.width();
        StyledLine {
            text: center_to_width(self.addr.as_str(), width),
            style: StyleVariants::Header(current),
        }
    }

    /// The pane rendered into placed lines.
    pub fn render(&self) -> (r: Vec<PlacedLine>)
        ensures
            placed_model(r@) == placed_element(
                self.spec_bounds(),
                (StyledLineModel {
                    text: centered(self.spec_addr(), rect_width(self.spec_bounds()) as nat),
                    style: StyleVariants::Header(self.spec_current()),
                }),
                list_lines(
                    self.texts(),
                    rect_height(self.spec_bounds()) as nat,
                    rect_width(self.spec_bounds()) as nat,
                    -1,
                    false,
                ),
            ),
    {
        let header = self.get_header(self.is_current());
        let lines = self.print();
        emit_element(self.bounds, header, lines)
    }
}

} // verus!
