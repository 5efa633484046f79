//! What the cadence view shows, line by line.

use ratatui::buffer::Buffer;
use ratatui::layout::Rect;
use ratatui::text::{Line, Span};
use ratatui::widgets::{Paragraph, Widget};
use vstd::prelude::*;
use vstd::string::*;

use crate::cadence_view;
use crate::cadence_view::{CompactionCadenceView, Step, MAX_CHECKPOINTS};
use crate::keys::KeyCode;
use crate::text;
use crate::text::{chars_of, join_texts, numeral, push_repeated, trim_tail};

verus! {

/// How a piece of a line looks.
#[derive(Clone, Copy, Debug, PartialEq, Eq, Structural)]
pub enum Look {
    Plain,
    Bold,
    Dim,
    Cyan,
}

/// A piece of a line.
#[derive(Debug, PartialEq, Eq)]
pub enum Piece {
    /// Text with a look of its own.
    Words { words: String, look: Look },
    /// The name of a key, as hints spell it.
    Hint { code: KeyCode, shift: bool },
}

/// What a `Piece` holds.
pub enum PieceModel {
    Words { words: Seq<char>, look: Look },
    Hint { code: KeyCode, shift: bool },
}

impl DeepView for Piece {
    type V = PieceModel;

    open spec fn deep_view(&self) -> PieceModel {
        match self {
            Piece::Words { words, look } => PieceModel::Words { words: words@, look: *look },
            Piece::Hint { code, shift } => PieceModel::Hint { code: *code, shift: *shift },
        }
    }
}

fn words(text: &str, look: Look) -> (piece: Piece)
    ensures
        piece.deep_view() == (PieceModel::Words { words: text@, look }),
{
    Piece::Words { words: text.to_owned(), look }
}

/// Text with a look.
pub open spec fn piece(words: Seq<char>, look: Look) -> PieceModel {
    PieceModel::Words { words, look }
}

/// The name of a key without shift.
pub open spec fn plain_key(code: KeyCode) -> PieceModel {
    PieceModel::Hint { code, shift: false }
}

/// The name of a key with shift.
pub open spec fn shift_key(code: KeyCode) -> PieceModel {
    PieceModel::Hint { code, shift: true }
}

/// Bold where the focus is, else dim.
pub open spec fn emphasis(focused: bool) -> Look {
    if focused {
        Look::Bold
    } else {
        Look::Dim
    }
}

/// The mark before a line.
pub open spec fn pointer(focused: bool) -> Seq<char> {
    if focused {
        "› "@
    } else {
        "  "@
    }
}

/// `s` with spaces after it up to `width` characters.
pub open spec fn left_aligned(s: Seq<char>, width: nat) -> Seq<char> {
    if s.len() < width {
        s + text::repeated(' ', (width - s.len()) as nat)
    } else {
        s
    }
}

/// `s` with spaces before it up to `width` characters.
pub open spec fn right_aligned(s: Seq<char>, width: nat) -> Seq<char> {
    if s.len() < width {
        text::repeated(' ', (width - s.len()) as nat) + s
    } else {
        s
    }
}

/// How many bytes `s` takes in UTF-8.
pub open spec fn byte_len(s: Seq<char>) -> nat {
    vstd::utf8::encode_utf8(s).len()
}

/// The label column of a slider.
pub open spec fn label_column(label: Seq<char>) -> Seq<char> {
    left_aligned(label, 13)
}

/// The value column of a slider.
pub open spec fn value_column(value: u8) -> Seq<char> {
    seq![' '] + right_aligned(text::decimal(value as nat), 3) + seq!['%']
}

/// How many cells the bar of a slider has: what the columns leave, between ten and sixty.
pub open spec fn bar_width(label: Seq<char>, value: u8, width: u16) -> int {
    let left = width - (byte_len(label_column(label)) + byte_len(value_column(value)) + 4);
    if left < 10 {
        10
    } else if left > 60 {
        60
    } else {
        left
    }
}

/// How many cells of the bar are filled.
pub open spec fn filled(label: Seq<char>, value: u8, width: u16) -> int {
    bar_width(label, value, width) * value / 100
}

/// Whether the filled cells fit into the bar.
pub open spec fn fits(label: Seq<char>, value: u8, width: u16) -> bool {
    filled(label, value, width) <= bar_width(label, value, width)
}

/// One slider.
pub open spec fn slider(
    label: Seq<char>,
    value: u8,
    width: u16,
    focused: bool,
) -> Seq<PieceModel> {
    let full = filled(label, value, width);
    let rest = bar_width(label, value, width) - full;
    seq![
        piece(pointer(focused), Look::Plain),
        piece(label_column(label), emphasis(focused)),
        piece("▕"@, Look::Dim),
        piece(
            text::repeated('█', full as nat),
            if focused {
                Look::Cyan
            } else {
                Look::Dim
            },
        ),
        piece(text::repeated('░', rest as nat), Look::Dim),
        piece("▏"@, Look::Dim),
        piece(value_column(value), emphasis(focused)),
    ]
}

/// A percentage of at most a hundred fits into any bar.
pub proof fn lemma_percentages_fit(label: Seq<char>, value: u8, width: u16)
    requires
        value <= 100,
    ensures
        fits(label, value, width),
        0 <= filled(label, value, width),
{
    let bar = bar_width(label, value, width);
    assert(0 <= bar * value <= bar * 100) by (nonlinear_arith)
        requires
            0 <= value <= 100,
            bar >= 0,
    ;
}

fn align_label(label: &str) -> (out: String)
    ensures
        out@ == label_column(label@),
{
    let len: usize = chars_of(label).len();
    let mut out = label.to_owned();
    if len < 13 {
        push_repeated(&mut out, ' ', 13 - len);
    }
    out
}

fn align_value(value: u8) -> (out: String)
    ensures
        out@ == value_column(value),
{
    let digits = numeral(value as u64);
    let len: usize = chars_of(digits.as_str()).len();
    let mut out = String::new();
    out.push(' ');
    if len < 3 {
        push_repeated(&mut out, ' ', 3 - len);
    }
    out.append(digits.as_str());
    out.push('%');
    assert(out@ =~= value_column(value));
    out
}

fn measure_bar(label: &str, value: u8, width: u16) -> (bar: usize)
    ensures
        bar == bar_width(label@, value, width),
{
    let left = align_label(label);
    let right = align_value(value);
    let label_bytes: usize = left.as_str().as_bytes().len();
    let value_bytes: usize = right.as_str().as_bytes().len();
    let room: usize = (width as usize).saturating_sub(label_bytes).saturating_sub(
        value_bytes,
    ).saturating_sub(4);
    if room < 10 {
        10
    } else if room > 60 {
        60
    } else {
        room
    }
}

/// Whether the filled cells of a slider fit into its bar.
pub fn slider_fits(label: &str, value: u8, width: u16) -> (yes: bool)
    ensures
        yes == fits(label@, value, width),
{
    let bar: usize = measure_bar(label, value, width);
    assert(0 <= bar * value <= 60 * 255) by (nonlinear_arith)
        requires
            bar <= 60,
            value <= 255,
    ;
    bar * (value as usize) / 100 <= bar
}

impl CompactionCadenceView {
    /// One slider: the pointer and label, the bar between its ends, and the value.
    pub fn slider_line(&self, label: &str, value: u8, width: u16, focused: bool) -> (line: Vec<
        Piece,
    >)
        requires
            fits(label@, value, width),
        ensures
            line.deep_view() == slider(label@, value, width, focused),
    {
        let label_text = align_label(label);
        let value_text = align_value(value);
        let bar: usize = measure_bar(label, value, width);
        assert(0 <= bar * value <= 60 * 255) by (nonlinear_arith)
            requires
                bar <= 60,
                value <= 255,
        ;
        let full: usize = bar * (value as usize) / 100;
        let mut done = String::new();
        push_repeated(&mut done, '█', full);
        assert(done@ =~= text::repeated('█', full as nat));
        let mut open = String::new();
        push_repeated(&mut open, '░', bar - full);
        assert(open@ =~= text::repeated('░', (bar - full) as nat));
        let look = if focused {
            Look::Bold
        } else {
            Look::Dim
        };
        let line = vec![
            words(
                if focused {
                    "› "
                } else {
                    "  "
                },
                Look::Plain,
            ),
            words(label_text.as_str(), look),
            words("▕", Look::Dim),
            words(
                done.as_str(),
                if focused {
                    Look::Cyan
                } else {
                    Look::Dim
                },
            ),
            words(open.as_str(), Look::Dim),
            words("▏", Look::Dim),
            words(value_text.as_str(), look),
        ];
        assert(line.deep_view() =~= slider(label@, value, width, focused));
        line
    }
}

/// The label of the handle `index`.
pub open spec fn handle_label(view: cadence_view::ViewModel, index: int) -> Seq<char> {
    if index < view.divisions {
        "checkpoint "@ + text::decimal((index + 1) as nat)
    } else {
        "compaction"@
    }
}

/// The slider of the handle `index`.
pub open spec fn handle_line(
    view: cadence_view::ViewModel,
    width: u16,
    index: int,
) -> Seq<PieceModel> {
    slider(
        handle_label(view, index),
        view.cadence.values()[index],
        width,
        view.step == Step::Sliders && index == view.focus,
    )
}

/// The title line.
pub open spec fn title_line(view: cadence_view::ViewModel) -> Seq<PieceModel> {
    seq![
        piece("Compaction cadence"@, Look::Bold),
        piece(" — "@, Look::Dim),
        piece(view.provider_label, Look::Plain),
    ]
}

/// The line with the number of stages.
pub open spec fn count_line(view: cadence_view::ViewModel) -> Seq<PieceModel> {
    let focused = view.step == Step::Divisions;
    seq![
        piece(pointer(focused), Look::Plain),
        piece("Checkpoints  "@, emphasis(focused)),
        piece("◂"@, Look::Dim),
        piece(" "@ + text::decimal(view.divisions as nat) + " "@, emphasis(focused)),
        piece("▸"@, Look::Dim),
        piece(
            "   (0–"@ + text::decimal(MAX_CHECKPOINTS as nat)
                + "; each stage summarizes what came after the previous one)"@,
            Look::Dim,
        ),
    ]
}

/// The line that says which keys do what.
pub open spec fn hint_line(step: Step) -> Seq<PieceModel> {
    match step {
        Step::Divisions => seq![
            plain_key(KeyCode::Left),
            plain_key(KeyCode::Right),
            piece(" count  "@, Look::Dim),
            plain_key(KeyCode::Enter),
            piece(" set percentages  "@, Look::Dim),
            plain_key(KeyCode::Esc),
            piece(" cancel"@, Look::Dim),
        ],
        Step::Sliders => seq![
            plain_key(KeyCode::Up),
            plain_key(KeyCode::Down),
            piece(" select  "@, Look::Dim),
            plain_key(KeyCode::Left),
            plain_key(KeyCode::Right),
            piece(" ±1  "@, Look::Dim),
            shift_key(KeyCode::Left),
            piece(" "@, Look::Plain),
            shift_key(KeyCode::Right),
            piece(" ±5  "@, Look::Dim),
            plain_key(KeyCode::Enter),
            piece(" save  "@, Look::Dim),
            plain_key(KeyCode::Esc),
            piece(" cancel"@, Look::Dim),
        ],
    }
}

/// Everything the view shows at a width.
pub open spec fn shown(view: cadence_view::ViewModel, width: u16) -> Seq<Seq<PieceModel>> {
    seq![title_line(view), Seq::empty(), count_line(view), Seq::empty()] + Seq::new(
        view.cadence.values().len(),
        |i: int| handle_line(view, width, i),
    ) + seq![Seq::empty(), hint_line(view.step)]
}

/// Whether every slider fits.
pub open spec fn drawable(view: cadence_view::ViewModel, width: u16) -> bool {
    forall|i: int|
        0 <= i < view.cadence.values().len() ==> fits(
            handle_label(view, i),
            #[trigger] view.cadence.values()[i],
            width,
        )
}

/// What a list of lines holds.
pub open spec fn line_models(lines: Seq<Vec<Piece>>) -> Seq<Seq<PieceModel>> {
    Seq::new(lines.len(), |i: int| lines[i].deep_view())
}

fn plain(code: KeyCode) -> (piece: Piece)
    ensures
        piece.deep_view() == plain_key(code),
{
    Piece::Hint { code, shift: false }
}

fn shifted(code: KeyCode) -> (piece: Piece)
    ensures
        piece.deep_view() == shift_key(code),
{
    Piece::Hint { code, shift: true }
}

fn blank_line() -> (line: Vec<Piece>)
    ensures
        line.deep_view() == Seq::<PieceModel>::empty(),
{
    let line: Vec<Piece> = Vec::new();
    assert(line.deep_view() =~= Seq::empty());
    line
}

fn hints(step: Step) -> (line: Vec<Piece>)
    ensures
        line.deep_view() == hint_line(step),
{
    let line = match step {
        Step::Divisions => vec![
            plain(KeyCode::Left),
            plain(KeyCode::Right),
            words(" count  ", Look::Dim),
            plain(KeyCode::Enter),
            words(" set percentages  ", Look::Dim),
            plain(KeyCode::Esc),
            words(" cancel", Look::Dim),
        ],
        Step::Sliders => vec![
            plain(KeyCode::Up),
            plain(KeyCode::Down),
            words(" select  ", Look::Dim),
            plain(KeyCode::Left),
            plain(KeyCode::Right),
            words(" ±1  ", Look::Dim),
            shifted(KeyCode::Left),
            words(" ", Look::Plain),
            shifted(KeyCode::Right),
            words(" ±5  ", Look::Dim),
            plain(KeyCode::Enter),
            words(" save  ", Look::Dim),
            plain(KeyCode::Esc),
            words(" cancel", Look::Dim),
        ],
    };
    assert(line.deep_view() =~= hint_line(step));
    line
}

impl CompactionCadenceView {
    fn title(&self) -> (line: Vec<Piece>)
        ensures
            line.deep_view() == title_line(self@),
    {
        let line = vec![
            words("Compaction cadence", Look::Bold),
            words(" — ", Look::Dim),
            words(self.label(), Look::Plain),
        ];
        assert(line.deep_view() =~= title_line(self@));
        line
    }

    fn count(&self) -> (line: Vec<Piece>)
        requires
            self@.valid(),
        ensures
            line.deep_view() == count_line(self@),
    {
        let focused = self.current_step() == Step::Divisions;
        let look = if focused {
            Look::Bold
        } else {
            Look::Dim
        };
        let mut count = " ".to_owned();
        count.append(numeral(self.stage_count() as u64).as_str());
        count.append(" ");
        let mut range = "   (0–".to_owned();
        range.append(numeral(MAX_CHECKPOINTS as u64).as_str());
        range.append("; each stage summarizes what came after the previous one)");
        let line = vec![
            words(
                if focused {
                    "› "
                } else {
                    "  "
                },
                Look::Plain,
            ),
            words("Checkpoints  ", look),
            words("◂", Look::Dim),
            words(count.as_str(), look),
            words("▸", Look::Dim),
            words(range.as_str(), Look::Dim),
        ];
        assert(line.deep_view() =~= count_line(self@));
        line
    }

    fn label_of(&self, index: usize) -> (label: String)
        requires
            self@.valid(),
            index <= self@.divisions,
        ensures
            label@ == handle_label(self@, index as int),
    {
        if index < self.stage_count() {
            let mut label = "checkpoint ".to_owned();
            label.append(numeral(index as u64 + 1).as_str());
            label
        } else {
            "compaction".to_owned()
        }
    }

    /// Whether every slider fits at a width. One does not only where a value lies above a
    /// hundred.
    pub fn is_drawable(&self, width: u16) -> (yes: bool)
        requires
            self@.valid(),
        ensures
            yes == drawable(self@, width),
    {
        let values = self.cadence().values();
        let mut i: usize = 0;
        while i < values.len()
            invariant
                self@.valid(),
                values@ == self@.cadence.values(),
                i <= values@.len(),
                forall|k: int|
                    0 <= k < i ==> fits(
                        handle_label(self@, k),
                        #[trigger] self@.cadence.values()[k],
                        width,
                    ),
            decreases values@.len() - i,
        {
            let label = self.label_of(i);
            if !slider_fits(label.as_str(), values[i], width) {
                assert(!fits(
                    handle_label(self@, i as int),
                    self@.cadence.values()[i as int],
                    width,
                ));
                return false;
            }
            i += 1;
        }
        true
    }

    /// Everything the view shows at a width.
    pub fn lines(&self, width: u16) -> (lines: Vec<Vec<Piece>>)
        requires
            self@.valid(),
            drawable(self@, width),
        ensures
            line_models(lines@) == shown(self@, width),
    {
        let mut lines: Vec<Vec<Piece>> = Vec::new();
        lines.push(self.title());
        lines.push(blank_line());
        lines.push(self.count());
        lines.push(blank_line());
        let values = self.cadence().values();
        let ghost all = shown(self@, width);
        let mut index: usize = 0;
        assert(line_models(lines@) =~= all.take(4));
        while index < values.len()
            invariant
                self@.valid(),
                drawable(self@, width),
                values@ == self@.cadence.values(),
                all == shown(self@, width),
                all.len() == values@.len() + 6,
                index <= values@.len(),
                line_models(lines@) == all.take(4 + index),
            decreases values@.len() - index,
        {
            let focused = self.current_step() == Step::Sliders && index == self.focused_handle();
            let label = self.label_of(index);
            let line = self.slider_line(label.as_str(), values[index], width, focused);
            let ghost before = line_models(lines@);
            let ghost added = line.deep_view();
            assert(added == all[4 + index]);
            lines.push(line);
            assert(line_models(lines@) =~= before.push(added));
            index += 1;
            assert(line_models(lines@) =~= all.take(4 + index));
        }
        let ghost sliders = line_models(lines@);
        lines.push(blank_line());
        assert(line_models(lines@) =~= sliders.push(Seq::empty()));
        let last = hints(self.current_step());
        let ghost added = last.deep_view();
        lines.push(last);
        assert(line_models(lines@) =~= sliders.push(Seq::empty()).push(added));
        assert(line_models(lines@) =~= all);
        lines
    }

    /// Whether the rows that the view needs can be counted in 16 bits.
    pub fn has_height(&self, padding_height: u16) -> (yes: bool)
        requires
            self@.valid(),
        ensures
            yes == (self@.divisions + 7 + padding_height <= u16::MAX),
    {
        self.stage_count() as u32 + 7 + padding_height as u32 <= u16::MAX as u32
    }

    /// How many rows the view needs inside a menu surface with `padding_height` rows of its own.
    pub fn desired_height(&self, width: u16, padding_height: u16) -> (height: u16)
        requires
            self@.valid(),
            drawable(self@, width),
            self@.divisions + 7 + padding_height <= u16::MAX,
        ensures
            height == self@.divisions + 7 + padding_height,
            height == shown(self@, width).len() + padding_height,
    {
        let lines = self.lines(width);
        assert(lines@.len() == line_models(lines@).len());
        lines.len() as u16 + padding_height
    }
}

/// A view whose values strictly ascend can be drawn at any width.
pub proof fn law_steady_views_are_drawable(view: cadence_view::ViewModel, width: u16)
    requires
        cadence_view::steady(view),
    ensures
        drawable(view, width),
{
    assert forall|i: int| 0 <= i < view.cadence.values().len() implies fits(
        handle_label(view, i),
        #[trigger] view.cadence.values()[i],
        width,
    ) by {
        lemma_percentages_fit(handle_label(view, i), view.cadence.values()[i], width);
    }
}

/// There is one slider for each handle, and while the percentages are set exactly the focused
/// one has the pointer.
pub proof fn law_one_slider_per_handle(view: cadence_view::ViewModel, width: u16, index: int)
    requires
        view.valid(),
        0 <= index <= view.divisions,
    ensures
        shown(view, width).len() == view.divisions + 7,
        shown(view, width)[4 + index] == handle_line(view, width, index),
        shown(view, width)[4 + index][0] == piece(
            pointer(view.step == Step::Sliders && index == view.focus),
            Look::Plain,
        ),
{
}

/// How hints spell the keys that the view names.
#[derive(Debug, PartialEq, Eq)]
pub struct KeyLabels {
    pub left: String,
    pub right: String,
    pub up: String,
    pub down: String,
    pub enter: String,
    pub esc: String,
    pub shift_left: String,
    pub shift_right: String,
}

impl KeyLabels {
    /// How a key is spelt; a key that the view does not name is not spelt at all.
    pub open spec fn spelling(self, code: KeyCode, shift: bool) -> Seq<char> {
        match (code, shift) {
            (KeyCode::Left, false) => self.left@,
            (KeyCode::Right, false) => self.right@,
            (KeyCode::Up, false) => self.up@,
            (KeyCode::Down, false) => self.down@,
            (KeyCode::Enter, false) => self.enter@,
            (KeyCode::Esc, false) => self.esc@,
            (KeyCode::Left, true) => self.shift_left@,
            (KeyCode::Right, true) => self.shift_right@,
            _ => Seq::empty(),
        }
    }

    fn spell(&self, code: KeyCode, shift: bool) -> (label: String)
        ensures
            label@ == self.spelling(code, shift),
    {
        match (code, shift) {
            (KeyCode::Left, false) => self.left.clone(),
            (KeyCode::Right, false) => self.right.clone(),
            (KeyCode::Up, false) => self.up.clone(),
            (KeyCode::Down, false) => self.down.clone(),
            (KeyCode::Enter, false) => self.enter.clone(),
            (KeyCode::Esc, false) => self.esc.clone(),
            (KeyCode::Left, true) => self.shift_left.clone(),
            (KeyCode::Right, true) => self.shift_right.clone(),
            _ => String::new(),
        }
    }
}

/// A menu surface: its size, and the area inside it that is left for the view.
#[derive(Clone, Copy, Debug, PartialEq, Eq, Structural)]
pub struct MenuSurface {
    pub width: u16,
    pub height: u16,
    pub inner_x: u16,
    pub inner_y: u16,
    pub inner_width: u16,
    pub inner_height: u16,
}

impl MenuSurface {
    /// Whether the inner area lies inside the surface.
    pub open spec fn sound(self) -> bool {
        &&& self.inner_x + self.inner_width <= self.width
        &&& self.inner_y + self.inner_height <= self.height
    }
}

/// The text of a piece.
pub open spec fn spelt(piece: PieceModel, labels: KeyLabels) -> Seq<char> {
    match piece {
        PieceModel::Words { words, look: _ } => words,
        PieceModel::Hint { code, shift } => labels.spelling(code, shift),
    }
}

/// The texts of the pieces of each line.
pub open spec fn spelt_lines(
    lines: Seq<Seq<PieceModel>>,
    labels: KeyLabels,
) -> Seq<Seq<Seq<char>>> {
    Seq::new(
        lines.len(),
        |i: int| Seq::new(lines[i].len(), |j: int| spelt(lines[i][j], labels)),
    )
}

/// What a list of lists of texts holds.
pub open spec fn nested_texts(lines: Seq<Vec<String>>) -> Seq<Seq<Seq<char>>> {
    Seq::new(lines.len(), |i: int| text::texts(lines[i]@))
}

/// Most characters in a line whose columns are sure to be counted in 16 bits: no character is
/// wider than three columns.
pub const LINE_LIMIT: usize = 21845;

/// How many characters of a text lie outside ASCII.
pub open spec fn wide_chars(s: Seq<char>) -> nat
    decreases s.len(),
{
    if s.len() == 0 {
        0
    } else {
        wide_chars(s.drop_last()) + if s.last() as u32 >= 0x80 {
            1nat
        } else {
            0
        }
    }
}

/// How many characters the pieces of a line have together.
pub open spec fn line_len(line: Seq<Seq<char>>) -> nat
    decreases line.len(),
{
    if line.len() == 0 {
        0
    } else {
        line_len(line.drop_last()) + line.last().len()
    }
}

/// How many characters outside ASCII the pieces of a line have together.
pub open spec fn line_wide(line: Seq<Seq<char>>) -> nat
    decreases line.len(),
{
    if line.len() == 0 {
        0
    } else {
        line_wide(line.drop_last()) + wide_chars(line.last())
    }
}

/// Whether a line can be rendered into an area of a width, cut off where the area ends: its
/// columns are counted in 16 bits, those of one symbol and those of the area with one symbol
/// behind it. A symbol holds at most one ASCII character besides others, so long lines matter
/// only where they are full of other characters or the area is about as wide as can be.
pub open spec fn line_renderable(line: Seq<Seq<char>>, width: u16) -> bool {
    line_len(line) <= LINE_LIMIT || width + 3 * (line_wide(line) + 1) <= u16::MAX
}

/// Whether every line can be rendered into an area of a width.
pub open spec fn renderable(lines: Seq<Seq<Seq<char>>>, width: u16) -> bool {
    forall|i: int| 0 <= i < lines.len() ==> line_renderable(#[trigger] lines[i], width)
}

/// The rows of a blank buffer of the given size after `ratatui` has rendered a paragraph into
/// an area of it: the symbols of each row, one after the other.
pub uninterp spec fn drawn(
    lines: Seq<Seq<Seq<char>>>,
    width: u16,
    height: u16,
    inner_x: u16,
    inner_y: u16,
    inner_width: u16,
    inner_height: u16,
) -> Seq<Seq<char>>;

/// `ratatui::widgets::Paragraph::render` on a blank `ratatui::buffer::Buffer`. The rows depend
/// on the texts of the spans and on the two areas alone, and there is one for each row of the
/// buffer. The area must lie in the buffer, and each line must be such that the widths of its
/// symbols and their sum up to the end of the area can be counted in 16 bits, else rendering may
/// panic.
#[verifier::external_body]
fn draw_paragraph(lines: &Vec<Vec<String>>, surface: &MenuSurface) -> (rows: Vec<String>)
    requires
        surface.sound(),
        renderable(nested_texts(lines@), surface.inner_width),
    ensures
        text::texts(rows@) == drawn(
            nested_texts(lines@),
            surface.width,
            surface.height,
            surface.inner_x,
            surface.inner_y,
            surface.inner_width,
            surface.inner_height,
        ),
        rows@.len() == surface.height,
{
    let text = lines.iter().map(|line| line.iter().map(|s| Span::raw(s.as_str())).collect());
    let s = surface;
    let mut buf = Buffer::empty(Rect::new(0, 0, s.width, s.height));
    let inner = Rect::new(s.inner_x, s.inner_y, s.inner_width, s.inner_height);
    Paragraph::new(text.collect::<Vec<Line>>()).render(inner, &mut buf);
    (0..s.height).map(|y| (0..s.width).map(|x| buf[(x, y)].symbol()).collect()).collect()
}

fn spell_line(line: &Vec<Piece>, labels: &KeyLabels) -> (out: Vec<String>)
    ensures
        text::texts(out@) == Seq::new(
            line.deep_view().len(),
            |j: int| spelt(line.deep_view()[j], *labels),
        ),
{
    let mut out: Vec<String> = Vec::new();
    let mut j: usize = 0;
    while j < line.len()
        invariant
            j <= line@.len(),
            out@.len() == j,
            forall|k: int|
                0 <= k < j ==> (#[trigger] out@[k])@ == spelt(line@[k].deep_view(), *labels),
        decreases line@.len() - j,
    {
        let label = match &line[j] {
            Piece::Words { words, look: _ } => words.clone(),
            Piece::Hint { code, shift } => labels.spell(*code, *shift),
        };
        out.push(label);
        j += 1;
    }
    assert(text::texts(out@) =~= Seq::new(
        line.deep_view().len(),
        |j: int| spelt(line.deep_view()[j], *labels),
    ));
    out
}

/// Each row without the white space at its end, one row below the other.
pub open spec fn stacked(rows: Seq<Seq<char>>) -> Seq<char> {
    text::join(
        Seq::new(rows.len(), |i: int| text::trim_end(rows[i])),
        text::line_feed(),
    )
}

/// Puts rows one below the other, each without the white space at its end.
pub fn stack_rows(rows: &Vec<String>) -> (out: String)
    ensures
        out@ == stacked(text::texts(rows@)),
{
    let mut ends: Vec<String> = Vec::new();
    let mut i: usize = 0;
    while i < rows.len()
        invariant
            i <= rows@.len(),
            ends@.len() == i,
            forall|k: int| 0 <= k < i ==> (#[trigger] ends@[k])@ == text::trim_end(rows@[k]@),
        decreases rows@.len() - i,
    {
        ends.push(trim_tail(rows[i].as_str()));
        i += 1;
    }
    assert(text::texts(ends@) =~= Seq::new(
        text::texts(rows@).len(),
        |i: int| text::trim_end(text::texts(rows@)[i]),
    ));
    proof {
        reveal_strlit("\n");
        assert("\n"@ =~= text::line_feed());
    }
    join_texts(&ends, "\n")
}

fn spell_lines(view: &CompactionCadenceView, width: u16, labels: &KeyLabels) -> (out: Vec<
    Vec<String>,
>)
    requires
        view@.valid(),
        drawable(view@, width),
    ensures
        nested_texts(out@) == spelt_lines(shown(view@, width), *labels),
{
    let lines = view.lines(width);
    let ghost model = spelt_lines(line_models(lines@), *labels);
    let mut out: Vec<Vec<String>> = Vec::new();
    let mut i: usize = 0;
    while i < lines.len()
        invariant
            i <= lines@.len(),
            out@.len() == i,
            model == spelt_lines(line_models(lines@), *labels),
            forall|k: int| 0 <= k < i ==> text::texts((#[trigger] out@[k])@) == model[k],
        decreases lines@.len() - i,
    {
        let line = spell_line(&lines[i], labels);
        assert(text::texts(line@) =~= model[i as int]);
        out.push(line);
        i += 1;
    }
    assert(nested_texts(out@) =~= model);
    out
}

/// `n`, but no more than one above the limit.
pub open spec fn capped(n: nat) -> nat {
    if n > LINE_LIMIT {
        (LINE_LIMIT + 1) as nat
    } else {
        n
    }
}

fn capped_sum(sum: usize, n: usize) -> (out: usize)
    requires
        sum <= LINE_LIMIT + 1,
    ensures
        out == capped((sum + n) as nat),
{
    if n > LINE_LIMIT || sum + n > LINE_LIMIT {
        LINE_LIMIT + 1
    } else {
        sum + n
    }
}

fn count_wide(chars: &Vec<char>) -> (count: usize)
    ensures
        count == wide_chars(chars@),
{
    let mut count: usize = 0;
    let mut i: usize = 0;
    assert(wide_chars(chars@.take(0)) == 0);
    while i < chars.len()
        invariant
            count <= i <= chars@.len(),
            count == wide_chars(chars@.take(i as int)),
        decreases chars@.len() - i,
    {
        assert(chars@.take(i + 1).drop_last() =~= chars@.take(i as int));
        let n: u32 = chars[i] as u32;
        if n >= 0x80 {
            count += 1;
        }
        i += 1;
    }
    assert(chars@.take(i as int) =~= chars@);
    count
}

fn can_render_line(line: &Vec<String>, width: u16) -> (yes: bool)
    ensures
        yes == line_renderable(text::texts(line@), width),
{
    let ghost all = text::texts(line@);
    let mut len: usize = 0;
    let mut wide: usize = 0;
    let mut j: usize = 0;
    assert(line_len(all.take(0)) == 0);
    assert(line_wide(all.take(0)) == 0);
    while j < line.len()
        invariant
            all == text::texts(line@),
            j <= line@.len(),
            len == capped(line_len(all.take(j as int))),
            wide == capped(line_wide(all.take(j as int))),
        decreases line@.len() - j,
    {
        let chars = chars_of(line[j].as_str());
        assert(all.take(j + 1).drop_last() =~= all.take(j as int));
        assert(all.take(j + 1).last() == line@[j as int]@);
        len = capped_sum(len, chars.len());
        wide = capped_sum(wide, count_wide(&chars));
        j += 1;
    }
    assert(all.take(j as int) =~= all);
    len <= LINE_LIMIT || width as usize + 3 * (wide + 1) <= u16::MAX as usize
}

/// Whether every line of the view can be rendered into an area of a width. One cannot only where
/// the name of the provider or of a key is many thousands of characters long.
pub fn can_render(view: &CompactionCadenceView, width: u16, labels: &KeyLabels) -> (yes: bool)
    requires
        view@.valid(),
        drawable(view@, width),
    ensures
        yes == renderable(spelt_lines(shown(view@, width), *labels), width),
{
    let lines = spell_lines(view, width, labels);
    let ghost model = spelt_lines(shown(view@, width), *labels);
    let mut i: usize = 0;
    while i < lines.len()
        invariant
            model == nested_texts(lines@),
            model == spelt_lines(shown(view@, width), *labels),
            i <= lines@.len(),
            forall|k: int| 0 <= k < i ==> line_renderable(#[trigger] model[k], width),
        decreases lines@.len() - i,
    {
        assert(model[i as int] == text::texts(lines@[i as int]@));
        if !can_render_line(&lines[i], width) {
            assert(!line_renderable(model[i as int], width));
            return false;
        }
        i += 1;
    }
    true
}

/// The view on a menu surface, as rows of text without the white space at their ends.
pub fn rows(view: &CompactionCadenceView, surface: &MenuSurface, labels: &KeyLabels) -> (out:
    String)
    requires
        view@.valid(),
        surface.sound(),
        drawable(view@, surface.inner_width),
        renderable(
            spelt_lines(shown(view@, surface.inner_width), *labels),
            surface.inner_width,
        ),
    ensures
        out@ == stacked(
            drawn(
                spelt_lines(shown(view@, surface.inner_width), *labels),
                surface.width,
                surface.height,
                surface.inner_x,
                surface.inner_y,
                surface.inner_width,
                surface.inner_height,
            ),
        ),
{
    let lines = spell_lines(view, surface.inner_width, labels);
    let drawn_rows = draw_paragraph(&lines, surface);
    stack_rows(&drawn_rows)
}

} // verus!
