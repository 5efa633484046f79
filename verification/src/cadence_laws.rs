//! What holds of the cadence and of the view in which it is chosen, stated over percentages, keys
//! and what is shown.

use vstd::prelude::*;
use vstd::string::*;

use crate::cadence;
use crate::cadence::CadenceModel;
use crate::cadence_lines;
use crate::cadence_lines::{KeyLabels, Look, PieceModel};
use crate::cadence_view;
use crate::cadence_view::{AppEvent, AppEventModel, Step, ViewCompletion, ViewModel};
use crate::keys::{KeyCode, KeyEvent, KeyModifiers};
use crate::text;

verus! {

/// The lesser of two numbers.
pub open spec fn lesser(a: int, b: int) -> int {
    if a < b {
        a
    } else {
        b
    }
}

/// The greater of two numbers.
pub open spec fn greater(a: int, b: int) -> int {
    if a < b {
        b
    } else {
        a
    }
}

/// A new stage stands at its even share of the trigger, rounded down: with its neighbours it cuts
/// the way to the trigger into equal parts. Where that is less than its number it stands at its
/// number, and never at the trigger or above.
pub proof fn law_new_stages_have_their_even_share(
    cadence: CadenceModel,
    divisions: usize,
    i: int,
) -> (share: int)
    requires
        divisions != cadence.checkpoints.len(),
        divisions <= u32::MAX,
        cadence.trigger >= 1,
        0 <= i < divisions,
    ensures
        share * (divisions + 1) <= cadence.trigger * (i + 1) < (share + 1) * (divisions + 1),
        cadence.with_divisions(divisions).checkpoints.len() == divisions,
        cadence.with_divisions(divisions).trigger == cadence.trigger,
        cadence.with_divisions(divisions).checkpoints[i] == lesser(
            greater(share, i + 1),
            cadence.trigger - 1,
        ),
{
    let t = cadence.trigger as int;
    let d = divisions + 1;
    let share = t * (i + 1) / d;
    assert(share * d <= t * (i + 1) < (share + 1) * d) by (nonlinear_arith)
        requires
            share == t * (i + 1) / d,
            d > 0,
    ;
    assert(divisions as u32 as int == divisions);
    let stage = cadence::spaced(cadence.trigger, i + 1, divisions as int);
    assert(stage == lesser(greater(share, i + 1), t - 1));
    assert(0 <= stage < 256) by {
        assert(share >= 0) by (nonlinear_arith)
            requires
                share == t * (i + 1) / d,
                t >= 0,
                i >= 0,
                d > 0,
        ;
    }
    assert(cadence.with_divisions(divisions).checkpoints[i] == stage as u32 as u8);
    share
}

/// The same number of stages keeps every value.
pub proof fn law_the_same_number_of_stages_keeps_every_value(cadence: CadenceModel)
    requires
        cadence.checkpoints.len() <= usize::MAX,
    ensures
        cadence.with_divisions(cadence.checkpoints.len() as usize) == cadence,
{
}

/// The values are the checkpoint percentages in order and then the trigger.
pub proof fn law_the_trigger_is_the_last_value(cadence: CadenceModel)
    ensures
        cadence.values().len() == cadence.checkpoints.len() + 1,
        cadence.values().last() == cadence.trigger,
        forall|i: int|
            0 <= i < cadence.checkpoints.len() ==> #[trigger] cadence.values()[i]
                == cadence.checkpoints[i],
{
}

/// Whether `v` is a percentage of at least one that lies strictly between the neighbours of the
/// handle `index`, or, for the trigger, above its neighbour and at most at a hundred.
pub open spec fn lies_between(cadence: CadenceModel, index: int, v: int) -> bool {
    &&& 1 <= v
    &&& index > 0 ==> cadence.checkpoints[index - 1] < v
    &&& index < cadence.checkpoints.len() - 1 ==> v < cadence.checkpoints[index + 1]
    &&& index == cadence.checkpoints.len() - 1 ==> v < cadence.trigger
    &&& index == cadence.checkpoints.len() ==> v <= 100
}

/// A handle has room exactly if some percentage lies between its neighbours.
pub proof fn law_room_is_a_percentage_between_the_neighbours(cadence: CadenceModel, index: int)
    requires
        0 <= index <= cadence.checkpoints.len(),
    ensures
        cadence.has_room(index) <==> exists|v: int| #[trigger] lies_between(cadence, index, v),
{
    if cadence.has_room(index) {
        assert(lies_between(cadence, index, cadence.lower(index)));
    }
    if exists|v: int| #[trigger] lies_between(cadence, index, v) {
        let v = choose|v: int| #[trigger] lies_between(cadence, index, v);
        assert(cadence.lower(index) <= v <= cadence.upper(index));
    }
}

/// A handle that has room moves by exactly what it is asked to where that keeps it strictly
/// between its neighbours, and else as far as it can go in that direction; the trigger goes up to
/// a hundred and a first handle down to one.
pub proof fn law_handles_move_as_far_as_they_can(cadence: CadenceModel, index: int, delta: int)
    requires
        0 <= index <= cadence.checkpoints.len(),
        cadence.has_room(index),
    ensures
        ({
            let values = cadence.values();
            let lowest = if index == 0 {
                1
            } else {
                values[index - 1] + 1
            };
            let highest = if index == cadence.checkpoints.len() {
                100
            } else {
                values[index + 1] - 1
            };
            let out = cadence.nudged(index, delta);
            &&& out.values().len() == values.len()
            &&& lowest <= highest
            &&& out.values()[index] == lesser(greater(values[index] + delta, lowest), highest)
            &&& forall|j: int|
                0 <= j < values.len() && j != index ==> #[trigger] out.values()[j] == values[j]
        }),
{
}

/// Shift is held exactly if the lowest bit of the modifiers is set.
pub proof fn law_shift_is_the_lowest_bit(modifiers: KeyModifiers)
    ensures
        modifiers.shift() <==> modifiers.bits % 2 == 1,
{
    let bits = modifiers.bits;
    assert(bits & 1 == 1 <==> bits % 2 == 1) by (bit_vector);
}

/// The view with another number of stages: the focus stays on its handle, or goes to the trigger
/// where that handle is gone.
pub open spec fn resized(view: ViewModel, count: int) -> ViewModel {
    ViewModel {
        divisions: count,
        cadence: view.cadence.with_divisions(count as usize),
        focus: lesser(view.focus, count),
        ..view
    }
}

/// While the number of stages is chosen, each key does what it is there for, in every state: one
/// stage less but not below none, one more but not above four, the number that was typed, on to
/// the percentages, or out. Every other key does nothing.
pub proof fn law_keys_that_choose_the_number_of_stages(view: ViewModel, key: KeyEvent)
    requires
        view.valid(),
        view.step == Step::Divisions,
    ensures
        ({
            let out = view.after_key(key);
            let c = key.code;
            let less = c == KeyCode::Left || c == KeyCode::Char('h') || c == KeyCode::Char('-');
            let more = c == KeyCode::Right || c == KeyCode::Char('l') || c == KeyCode::Char('+')
                || c == KeyCode::Char('=');
            let on = c == KeyCode::Enter || c == KeyCode::Tab || c == KeyCode::Down;
            let typed = if c == KeyCode::Char('0') {
                Some(0int)
            } else if c == KeyCode::Char('1') {
                Some(1int)
            } else if c == KeyCode::Char('2') {
                Some(2int)
            } else if c == KeyCode::Char('3') {
                Some(3int)
            } else if c == KeyCode::Char('4') {
                Some(4int)
            } else {
                None
            };
            &&& less ==> out == resized(view, greater(view.divisions - 1, 0))
            &&& more ==> out == resized(view, lesser(view.divisions + 1, 4))
            &&& typed matches Some(n) ==> out == resized(view, n)
            &&& on ==> out == (ViewModel { step: Step::Sliders, focus: 0, ..view })
            &&& c == KeyCode::Esc ==> out == (ViewModel {
                completion: Some(ViewCompletion::Cancelled),
                ..view
            })
            &&& !less && !more && typed is None && !on && c != KeyCode::Esc ==> out == view
            &&& view.takes(key)
        }),
{
}

/// While the percentages are set, each key does what it is there for, in every state: the arrows
/// and `h` and `l` move the focused handle by one, or by five while shift is held, the page keys
/// by five, Home and End as far as it goes; the focus goes up and down, up from the first handle
/// back to the number of stages; Enter accepts and Esc cancels. Every other key does nothing.
pub proof fn law_keys_that_set_the_percentages(view: ViewModel, key: KeyEvent)
    requires
        view.valid(),
        view.step == Step::Sliders,
    ensures
        ({
            let out = view.after_key(key);
            let c = key.code;
            let step = if key.modifiers.bits % 2 == 1 {
                5int
            } else {
                1
            };
            let delta = if c == KeyCode::Left || c == KeyCode::Char('h') {
                Some(-step)
            } else if c == KeyCode::Right || c == KeyCode::Char('l') {
                Some(step)
            } else if c == KeyCode::PageDown {
                Some(-5int)
            } else if c == KeyCode::PageUp {
                Some(5int)
            } else if c == KeyCode::Home {
                Some(-100int)
            } else if c == KeyCode::End {
                Some(100int)
            } else {
                None
            };
            let up = c == KeyCode::Up || c == KeyCode::Char('k');
            let down = c == KeyCode::Down || c == KeyCode::Tab || c == KeyCode::Char('j');
            let left = c == KeyCode::Backspace || c == KeyCode::Enter || c == KeyCode::Esc;
            &&& delta matches Some(d) ==> out == (ViewModel {
                cadence: view.cadence.nudged(view.focus, d),
                ..view
            })
            &&& up && view.focus > 0 ==> out == (ViewModel { focus: view.focus - 1, ..view })
            &&& up && view.focus == 0 ==> out == (ViewModel { step: Step::Divisions, ..view })
            &&& down ==> out == (ViewModel {
                focus: lesser(view.focus + 1, view.divisions),
                ..view
            })
            &&& c == KeyCode::Backspace ==> out == (ViewModel { step: Step::Divisions, ..view })
            &&& c == KeyCode::Enter ==> out == (ViewModel {
                completion: Some(ViewCompletion::Accepted),
                ..view
            })
            &&& c == KeyCode::Esc ==> out == (ViewModel {
                completion: Some(ViewCompletion::Cancelled),
                ..view
            })
            &&& delta is None && !up && !down && !left ==> out == view
            &&& view.takes(key) <==> delta is None || view.cadence.has_room(view.focus)
        }),
{
    law_shift_is_the_lowest_bit(key.modifiers);
}

/// What the view asks to persist is its provider, all its stages and its trigger.
pub proof fn law_requests_hold_what_the_view_shows(view: ViewModel)
    ensures
        view.request() matches AppEventModel::PersistCompactionSettings {
            provider_id,
            checkpoint_percents,
            trigger_percent,
        } && provider_id == view.provider_id && checkpoint_percents == Some(
            view.cadence.checkpoints,
        ) && trigger_percent == Some(view.cadence.trigger),
{
}

/// An event is told by everything in it.
pub proof fn law_events_are_told_by_their_parts(event: AppEvent)
    ensures
        event matches AppEvent::PersistCompactionProviderSelection { provider_id } ==> event@ == (
        AppEventModel::PersistCompactionProviderSelection {
            provider_id: match provider_id {
                Some(key) => Some(key@),
                None => None,
            },
        }),
        event matches AppEvent::PersistCompactionSettings {
            provider_id,
            checkpoint_percents,
            trigger_percent,
        } ==> (event@ matches AppEventModel::PersistCompactionSettings {
            provider_id: key,
            checkpoint_percents: percents,
            trigger_percent: trigger,
        } && trigger == trigger_percent && key == (match provider_id {
            Some(key) => Some(key@),
            None => None,
        }) && (percents is Some <==> checkpoint_percents is Some) && (checkpoint_percents matches Some(
            list,
        ) ==> percents->0 == list@)),
        cadence_view::event_model(Some(event)) == Some(event@),
        cadence_view::event_model(None) is None,
{
    if let AppEvent::PersistCompactionSettings { checkpoint_percents, .. } = event {
        if let Some(list) = checkpoint_percents {
            assert(list.deep_view() =~= list@);
        }
    }
}

/// A column is its text with spaces up to its width, behind the text or before it, and never cut
/// off.
pub proof fn law_columns_are_filled_with_spaces(s: Seq<char>, width: nat)
    ensures
        ({
            let left = cadence_lines::left_aligned(s, width);
            let right = cadence_lines::right_aligned(s, width);
            &&& left.len() == greater(s.len() as int, width as int)
            &&& left.take(s.len() as int) == s
            &&& forall|i: int| s.len() <= i < left.len() ==> #[trigger] left[i] == ' '
            &&& right.len() == greater(s.len() as int, width as int)
            &&& right.skip(right.len() - s.len()) == s
            &&& forall|i: int| 0 <= i < right.len() - s.len() ==> #[trigger] right[i] == ' '
        }),
{
    let left = cadence_lines::left_aligned(s, width);
    let right = cadence_lines::right_aligned(s, width);
    assert(left.take(s.len() as int) =~= s);
    assert(right.skip(right.len() - s.len()) =~= s);
}

/// The text of a piece that is not the name of a key.
pub open spec fn words_of(piece: PieceModel) -> Seq<char> {
    match piece {
        PieceModel::Words { words, look: _ } => words,
        PieceModel::Hint { code: _, shift: _ } => Seq::empty(),
    }
}

/// How a piece looks that is not the name of a key.
pub open spec fn look_of(piece: PieceModel) -> Look {
    match piece {
        PieceModel::Words { words: _, look } => look,
        PieceModel::Hint { code: _, shift: _ } => Look::Plain,
    }
}

/// A slider shows its label, a bar and its value. The bar has the cells that the label and the
/// value leave of the width, but at least ten and at most sixty; of these the share that the value
/// is of a hundred is filled, rounded down, and the others are open. The focused slider has the
/// pointer and stands out.
pub proof fn law_sliders_fill_the_share_of_the_value(
    label: Seq<char>,
    value: u8,
    width: u16,
    focused: bool,
)
    requires
        cadence_lines::fits(label, value, width),
    ensures
        ({
            let line = cadence_lines::slider(label, value, width, focused);
            let full = words_of(line[3]);
            let open = words_of(line[4]);
            let columns = cadence_lines::byte_len(words_of(line[1])) + cadence_lines::byte_len(
                words_of(line[6]),
            );
            let bar = lesser(greater(width - columns - 4, 10), 60);
            &&& line.len() == 7
            &&& words_of(line[0]) == if focused {
                "› "@
            } else {
                "  "@
            }
            &&& words_of(line[1]) == cadence_lines::left_aligned(label, 13)
            &&& words_of(line[2]) == "▕"@
            &&& words_of(line[5]) == "▏"@
            &&& words_of(line[6]) == seq![' '] + cadence_lines::right_aligned(
                text::decimal(value as nat),
                3,
            ) + seq!['%']
            &&& full.len() + open.len() == bar
            &&& 100 * full.len() <= bar * value < 100 * (full.len() + 1)
            &&& forall|i: int| 0 <= i < full.len() ==> #[trigger] full[i] == '█'
            &&& forall|i: int| 0 <= i < open.len() ==> #[trigger] open[i] == '░'
            &&& look_of(line[0]) == Look::Plain
            &&& look_of(line[2]) == Look::Dim && look_of(line[4]) == Look::Dim && look_of(line[5])
                == Look::Dim
            &&& focused ==> look_of(line[1]) == Look::Bold && look_of(line[6]) == Look::Bold
                && look_of(line[3]) == Look::Cyan
            &&& !focused ==> look_of(line[1]) == Look::Dim && look_of(line[6]) == Look::Dim
                && look_of(line[3]) == Look::Dim
            &&& forall|p: int|
                0 <= p < line.len() ==> #[trigger] line[p] matches PieceModel::Words { .. }
        }),
{
    let bar = cadence_lines::bar_width(label, value, width);
    let full = cadence_lines::filled(label, value, width);
    assert(0 <= full) by (nonlinear_arith)
        requires
            full == bar * value / 100,
            bar >= 0,
            value >= 0,
    ;
}

/// A slider fits exactly if the filled share is no more than the bar, and so it does for every
/// percentage up to a hundred.
pub proof fn law_fitting_is_filling_no_more_than_the_bar(label: Seq<char>, value: u8, width: u16)
    ensures
        ({
            let columns = cadence_lines::byte_len(cadence_lines::label_column(label))
                + cadence_lines::byte_len(cadence_lines::value_column(value));
            let bar = lesser(greater(width - columns - 4, 10), 60);
            &&& cadence_lines::bar_width(label, value, width) == bar
            &&& (cadence_lines::fits(label, value, width) <==> bar * value < 100 * (bar + 1))
        }),
        value <= 100 ==> cadence_lines::fits(label, value, width),
        cadence_lines::label_column(label) == cadence_lines::left_aligned(label, 13),
        cadence_lines::byte_len(label) == vstd::utf8::encode_utf8(label).len(),
{
    if value <= 100 {
        cadence_lines::lemma_percentages_fit(label, value, width);
    }
}

/// A view whose values are all at most a hundred can be drawn at any width, and one that can be
/// drawn has only sliders that fit.
pub proof fn law_percentages_can_be_drawn(view: ViewModel, width: u16)
    ensures
        (forall|i: int|
            0 <= i < view.cadence.values().len() ==> #[trigger] view.cadence.values()[i] <= 100)
            ==> cadence_lines::drawable(view, width),
        cadence_lines::drawable(view, width) ==> forall|i: int|
            0 <= i < view.cadence.values().len() ==> cadence_lines::fits(
                cadence_lines::handle_label(view, i),
                #[trigger] view.cadence.values()[i],
                width,
            ),
{
    if forall|i: int|
        0 <= i < view.cadence.values().len() ==> #[trigger] view.cadence.values()[i] <= 100 {
        assert forall|i: int| 0 <= i < view.cadence.values().len() implies cadence_lines::fits(
            cadence_lines::handle_label(view, i),
            #[trigger] view.cadence.values()[i],
            width,
        ) by {
            cadence_lines::lemma_percentages_fit(
                cadence_lines::handle_label(view, i),
                view.cadence.values()[i],
                width,
            );
        }
    }
}

/// The view shows its title with the name of the provider, how many stages are chosen, one slider
/// for each value with its own label, and the keys; a blank line sets each of these off.
pub proof fn law_the_view_shows_every_value(view: ViewModel, width: u16, index: int)
    requires
        view.valid(),
        0 <= index <= view.divisions,
    ensures
        ({
            let lines = cadence_lines::shown(view, width);
            let last = lines.len() - 1;
            let counting = view.step == Step::Divisions;
            &&& lines.len() == view.divisions + 7
            &&& lines[0].len() == 3
            &&& words_of(lines[0][0]) == "Compaction cadence"@ && look_of(lines[0][0])
                == Look::Bold
            &&& words_of(lines[0][1]) == " — "@ && look_of(lines[0][1]) == Look::Dim
            &&& words_of(lines[0][2]) == view.provider_label && look_of(lines[0][2])
                == Look::Plain
            &&& lines[1].len() == 0 && lines[3].len() == 0 && lines[last - 1].len() == 0
            &&& lines[2].len() == 6
            &&& words_of(lines[2][0]) == if counting {
                "› "@
            } else {
                "  "@
            }
            &&& words_of(lines[2][1]) == "Checkpoints  "@
            &&& words_of(lines[2][2]) == "◂"@
            &&& words_of(lines[2][3]) == " "@ + text::decimal(view.divisions as nat) + " "@
            &&& words_of(lines[2][4]) == "▸"@
            &&& words_of(lines[2][5]) == "   (0–"@ + text::decimal(4)
                + "; each stage summarizes what came after the previous one)"@
            &&& look_of(lines[2][0]) == Look::Plain
            &&& look_of(lines[2][1]) == if counting {
                Look::Bold
            } else {
                Look::Dim
            }
            &&& look_of(lines[2][3]) == look_of(lines[2][1])
            &&& look_of(lines[2][2]) == Look::Dim && look_of(lines[2][4]) == Look::Dim && look_of(
                lines[2][5],
            ) == Look::Dim
            &&& lines[4 + index] == cadence_lines::slider(
                if index < view.divisions {
                    "checkpoint "@ + text::decimal((index + 1) as nat)
                } else {
                    "compaction"@
                },
                if index < view.divisions {
                    view.cadence.checkpoints[index]
                } else {
                    view.cadence.trigger
                },
                width,
                view.step == Step::Sliders && index == view.focus,
            )
            &&& lines[last] == cadence_lines::hint_line(view.step)
        }),
{
}

/// A line of keys names keys and what they do. What they do is dim; the one gap between the two
/// keys with shift is plain.
pub proof fn law_hints_are_dim(step: Step, p: int)
    requires
        0 <= p < cadence_lines::hint_line(step).len(),
    ensures
        cadence_lines::hint_line(step)[p] matches PieceModel::Words { words, look } ==> if step
            == Step::Sliders && p == 7 {
            look == Look::Plain && words == " "@
        } else {
            look == Look::Dim
        },
        cadence_lines::hint_line(step)[p] matches PieceModel::Hint { code, shift } ==> (shift
            <==> step == Step::Sliders && (p == 6 || p == 8)),
        cadence_lines::hint_line(Step::Divisions).len() == 7,
        cadence_lines::hint_line(Step::Sliders).len() == 14,
{
}

/// A key that the view names is spelt as the labels have it.
pub proof fn law_keys_are_spelt_by_their_labels(labels: KeyLabels)
    ensures
        labels.spelling(KeyCode::Left, false) == labels.left@,
        labels.spelling(KeyCode::Right, false) == labels.right@,
        labels.spelling(KeyCode::Up, false) == labels.up@,
        labels.spelling(KeyCode::Down, false) == labels.down@,
        labels.spelling(KeyCode::Enter, false) == labels.enter@,
        labels.spelling(KeyCode::Esc, false) == labels.esc@,
        labels.spelling(KeyCode::Left, true) == labels.shift_left@,
        labels.spelling(KeyCode::Right, true) == labels.shift_right@,
{
}

/// Each piece of each line is drawn with its own text, or with the label of its key.
pub proof fn law_lines_are_spelt_piece_by_piece(
    lines: Seq<Seq<PieceModel>>,
    labels: KeyLabels,
    i: int,
    j: int,
)
    requires
        0 <= i < lines.len(),
        0 <= j < lines[i].len(),
    ensures
        cadence_lines::spelt_lines(lines, labels).len() == lines.len(),
        cadence_lines::spelt_lines(lines, labels)[i].len() == lines[i].len(),
        lines[i][j] matches PieceModel::Words { words, look: _ } ==> cadence_lines::spelt_lines(
            lines,
            labels,
        )[i][j] == words,
        lines[i][j] matches PieceModel::Hint { code, shift } ==> cadence_lines::spelt_lines(
            lines,
            labels,
        )[i][j] == labels.spelling(code, shift),
{
}

/// Rows are put one below the other, each without the white space at its end.
pub proof fn law_rows_are_stacked_one_by_one(rows: Seq<Seq<char>>) -> (parts: Seq<Seq<char>>)
    ensures
        parts.len() == rows.len(),
        forall|i: int| 0 <= i < rows.len() ==> #[trigger] parts[i] == text::trim_end(rows[i]),
        cadence_lines::stacked(rows) == text::join(parts, seq!['\n']),
{
    Seq::new(rows.len(), |i: int| text::trim_end(rows[i]))
}

/// The bounds of a handle are one above the handle before it, or one for the first, and one below
/// the handle after it, or a hundred for the trigger; neither goes beyond what a byte holds.
pub proof fn law_bounds_are_next_to_the_neighbours(cadence: CadenceModel, index: int)
    requires
        0 <= index <= cadence.checkpoints.len(),
    ensures
        index == 0 ==> cadence.lower(index) == 1,
        index > 0 ==> cadence.lower(index) == lesser(cadence.checkpoints[index - 1] + 1, 255),
        index == cadence.checkpoints.len() ==> cadence.upper(index) == 100,
        index == cadence.checkpoints.len() - 1 ==> cadence.upper(index) == greater(
            cadence.trigger - 1,
            0,
        ),
        index < cadence.checkpoints.len() - 1 ==> cadence.upper(index) == greater(
            cadence.checkpoints[index + 1] - 1,
            0,
        ),
{
}

/// A cadence is told by its percentages and its trigger.
pub proof fn law_cadences_are_told_by_their_parts(cadence: cadence::CompactionCadence)
    ensures
        cadence@.checkpoints == cadence.checkpoint_percents@,
        cadence@.trigger == cadence.trigger_percent,
{
}

/// Lines are told piece by piece, and texts one by one.
pub proof fn law_lines_are_told_piece_by_piece(
    lines: Seq<Vec<cadence_lines::Piece>>,
    words: Seq<Vec<String>>,
    piece: cadence_lines::Piece,
)
    ensures
        cadence_lines::line_models(lines).len() == lines.len(),
        forall|i: int|
            0 <= i < lines.len() ==> #[trigger] cadence_lines::line_models(lines)[i]
                == lines[i].deep_view(),
        cadence_lines::nested_texts(words).len() == words.len(),
        forall|i: int|
            0 <= i < words.len() ==> #[trigger] cadence_lines::nested_texts(words)[i]
                == text::texts(words[i]@),
        piece matches cadence_lines::Piece::Words { words, look } ==> piece.deep_view() == (
        PieceModel::Words { words: words@, look }),
        piece matches cadence_lines::Piece::Hint { code, shift } ==> piece.deep_view() == (
        PieceModel::Hint { code, shift }),
{
}

proof fn lemma_line_len(line: Seq<Seq<char>>)
    ensures
        cadence_lines::line_len(line) == text::join(line, Seq::empty()).len(),
    decreases line.len(),
{
    if line.len() > 1 {
        lemma_line_len(line.drop_last());
    } else if line.len() == 1 {
        assert(line.drop_last() =~= Seq::empty());
        assert(cadence_lines::line_len(line.drop_last()) == 0);
    }
}

/// Every line of at most a third of what 16 bits count can be rendered, at any width.
pub proof fn law_ordinary_lines_can_be_rendered(lines: Seq<Seq<Seq<char>>>, width: u16)
    requires
        forall|i: int|
            0 <= i < lines.len() ==> text::join(#[trigger] lines[i], Seq::empty()).len() <= 21845,
    ensures
        cadence_lines::renderable(lines, width),
{
    assert forall|i: int| 0 <= i < lines.len() implies cadence_lines::line_renderable(
        #[trigger] lines[i],
        width,
    ) by {
        lemma_line_len(lines[i]);
    }
}

} // verus!
