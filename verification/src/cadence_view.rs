//! Slider view for `/squisher`: choose how many compaction checkpoints run and at which
//! context-window percentages, plus the final compaction trigger. Nothing is persisted until
//! Enter on the sliders; Esc or Ctrl-C leaves the configuration untouched.

use vstd::prelude::*;

use crate::cadence;
use crate::cadence::CompactionCadence;
use crate::keys::{KeyCode, KeyEvent};
use crate::text::copy_text;

verus! {

/// Most checkpoint stages the view offers; more than this rarely helps a handover.
pub const MAX_CHECKPOINTS: usize = 4;

/// How far an arrow key moves a handle.
pub const SMALL_STEP: i16 = 1;

/// How far an arrow key moves a handle while shift is held.
pub const LARGE_STEP: i16 = 5;

/// Farther than any handle can go.
pub const FULL_STEP: i16 = 100;

/// What the keys act on.
#[derive(Clone, Copy, Debug, PartialEq, Eq, Structural)]
pub enum Step {
    /// Pick how many checkpoint stages to run.
    Divisions,
    /// Set each stage's percentage and the compaction trigger.
    Sliders,
}

/// How a view was left.
#[derive(Clone, Copy, Debug, PartialEq, Eq, Structural)]
pub enum ViewCompletion {
    Accepted,
    Cancelled,
}

/// Whether a view took a cancellation for itself.
#[derive(Clone, Copy, Debug, PartialEq, Eq, Structural)]
pub enum CancellationEvent {
    Handled,
    NotHandled,
}

/// What a view asks the application to do.
#[derive(Debug, PartialEq, Eq)]
pub enum AppEvent {
    PersistCompactionSettings {
        provider_id: Option<String>,
        checkpoint_percents: Option<Vec<u8>>,
        trigger_percent: Option<u8>,
    },
    PersistCompactionProviderSelection { provider_id: Option<String> },
}

/// What an `AppEvent` holds.
pub enum AppEventModel {
    PersistCompactionSettings {
        provider_id: Option<Seq<char>>,
        checkpoint_percents: Option<Seq<u8>>,
        trigger_percent: Option<u8>,
    },
    PersistCompactionProviderSelection { provider_id: Option<Seq<char>> },
}

impl View for AppEvent {
    type V = AppEventModel;

    open spec fn view(&self) -> AppEventModel {
        match self {
            AppEvent::PersistCompactionSettings {
                provider_id,
                checkpoint_percents,
                trigger_percent,
            } => AppEventModel::PersistCompactionSettings {
                provider_id: provider_id.deep_view(),
                checkpoint_percents: checkpoint_percents.deep_view(),
                trigger_percent: *trigger_percent,
            },
            AppEvent::PersistCompactionProviderSelection { provider_id } =>
                AppEventModel::PersistCompactionProviderSelection {
                provider_id: provider_id.deep_view(),
            },
        }
    }
}

/// What an optional event holds.
pub open spec fn event_model(event: Option<AppEvent>) -> Option<AppEventModel> {
    match event {
        Some(event) => Some(event@),
        None => None,
    }
}

/// The state of the view.
#[verifier::ext_equal]
pub struct ViewModel {
    pub provider_id: Option<Seq<char>>,
    pub provider_label: Seq<char>,
    pub step: Step,
    pub divisions: int,
    pub cadence: cadence::CadenceModel,
    pub focus: int,
    pub completion: Option<ViewCompletion>,
}

impl ViewModel {
    /// What holds of every view: it offers as many handles as there are stages, at most
    /// `MAX_CHECKPOINTS`, and one of them or the trigger has the focus.
    pub open spec fn valid(self) -> bool {
        &&& self.divisions == self.cadence.checkpoints.len()
        &&& 0 <= self.divisions <= MAX_CHECKPOINTS
        &&& 0 <= self.focus <= self.divisions
    }

    /// The view with `divisions` stages, as many of them as are offered.
    pub open spec fn with_divisions(self, divisions: int) -> ViewModel {
        let count = if divisions > MAX_CHECKPOINTS {
            MAX_CHECKPOINTS as int
        } else {
            divisions
        };
        ViewModel {
            divisions: count,
            cadence: self.cadence.with_divisions(count as usize),
            focus: if self.focus > count {
                count
            } else {
                self.focus
            },
            ..self
        }
    }

    /// The view after the focused handle has moved by `delta`.
    pub open spec fn nudged(self, delta: int) -> ViewModel {
        ViewModel { cadence: self.cadence.nudged(self.focus, delta), ..self }
    }

    /// The view after it was left.
    pub open spec fn completed(self, how: ViewCompletion) -> ViewModel {
        ViewModel { completion: Some(how), ..self }
    }

    /// How far a slider key moves the focused handle, if it does.
    pub open spec fn slide(key: KeyEvent) -> Option<int> {
        let step = if key.modifiers.shift() {
            LARGE_STEP as int
        } else {
            SMALL_STEP as int
        };
        match key.code {
            KeyCode::Left => Some(-step),
            KeyCode::Right => Some(step),
            KeyCode::PageDown => Some(-(LARGE_STEP as int)),
            KeyCode::PageUp => Some(LARGE_STEP as int),
            KeyCode::Home => Some(-(FULL_STEP as int)),
            KeyCode::End => Some(FULL_STEP as int),
            KeyCode::Char(c) => if c == 'h' {
                Some(-step)
            } else if c == 'l' {
                Some(step)
            } else {
                None
            },
            _ => None,
        }
    }

    /// The view after a key while the number of stages is chosen.
    pub open spec fn after_divisions_key(self, key: KeyEvent) -> ViewModel {
        match key.code {
            KeyCode::Left => self.fewer(),
            KeyCode::Right => self.with_divisions(self.divisions + 1),
            KeyCode::Enter | KeyCode::Tab | KeyCode::Down => ViewModel {
                step: Step::Sliders,
                focus: 0,
                ..self
            },
            KeyCode::Esc => self.completed(ViewCompletion::Cancelled),
            KeyCode::Char(c) => if c == 'h' || c == '-' {
                self.fewer()
            } else if c == 'l' || c == '+' || c == '=' {
                self.with_divisions(self.divisions + 1)
            } else if '0' <= c <= '4' {
                self.with_divisions(c as int - '0' as int)
            } else {
                self
            },
            _ => self,
        }
    }

    /// The view with one stage less, if there is one.
    pub open spec fn fewer(self) -> ViewModel {
        self.with_divisions(
            if self.divisions > 0 {
                self.divisions - 1
            } else {
                0
            },
        )
    }

    /// The view after the focus has moved up.
    pub open spec fn focus_up(self) -> ViewModel {
        if self.focus == 0 {
            ViewModel { step: Step::Divisions, ..self }
        } else {
            ViewModel { focus: self.focus - 1, ..self }
        }
    }

    /// The view after the focus has moved down, no further than the trigger.
    pub open spec fn focus_down(self) -> ViewModel {
        ViewModel {
            focus: if self.focus < self.divisions {
                self.focus + 1
            } else {
                self.divisions
            },
            ..self
        }
    }

    /// The view after a key while the percentages are set.
    pub open spec fn after_sliders_key(self, key: KeyEvent) -> ViewModel {
        match ViewModel::slide(key) {
            Some(delta) => self.nudged(delta),
            None => match key.code {
                KeyCode::Up => self.focus_up(),
                KeyCode::Down | KeyCode::Tab => self.focus_down(),
                KeyCode::Backspace => ViewModel { step: Step::Divisions, ..self },
                KeyCode::Enter => self.completed(ViewCompletion::Accepted),
                KeyCode::Esc => self.completed(ViewCompletion::Cancelled),
                KeyCode::Char(c) => if c == 'k' {
                    self.focus_up()
                } else if c == 'j' {
                    self.focus_down()
                } else {
                    self
                },
                _ => self,
            },
        }
    }

    /// The view after a key.
    pub open spec fn after_key(self, key: KeyEvent) -> ViewModel {
        match self.step {
            Step::Divisions => self.after_divisions_key(key),
            Step::Sliders => self.after_sliders_key(key),
        }
    }

    /// The request to persist what the view shows.
    pub open spec fn request(self) -> AppEventModel {
        AppEventModel::PersistCompactionSettings {
            provider_id: self.provider_id,
            checkpoint_percents: Some(self.cadence.checkpoints),
            trigger_percent: Some(self.cadence.trigger),
        }
    }

    /// What a key makes the view ask for: to persist, on Enter while the percentages are set,
    /// and nothing else.
    pub open spec fn asks(self, key: KeyEvent) -> Option<AppEventModel> {
        if self.step == Step::Sliders && key.code == KeyCode::Enter {
            Some(self.request())
        } else {
            None
        }
    }

    /// Whether the view can take a key: one that moves the focused handle needs room for it.
    pub open spec fn takes(self, key: KeyEvent) -> bool {
        self.step == Step::Sliders && ViewModel::slide(key) is Some ==> self.cadence.has_room(
            self.focus,
        )
    }
}

/// The view in which the cadence is chosen.
#[derive(Debug)]
pub struct CompactionCadenceView {
    provider_id: Option<String>,
    provider_label: String,
    step: Step,
    divisions: usize,
    cadence: CompactionCadence,
    /// Focused handle in the sliders step; the last index is the compaction trigger.
    focus: usize,
    completion: Option<ViewCompletion>,
}

impl View for CompactionCadenceView {
    type V = ViewModel;

    closed spec fn view(&self) -> ViewModel {
        ViewModel {
            provider_id: self.provider_id.deep_view(),
            provider_label: self.provider_label@,
            step: self.step,
            divisions: self.divisions as int,
            cadence: self.cadence@,
            focus: self.focus as int,
            completion: self.completion,
        }
    }
}

impl CompactionCadenceView {
    /// Opens the view on the current cadence. More stages than the view offers are replaced by
    /// as many as it offers, spaced evenly.
    pub fn new(
        provider_id: Option<String>,
        provider_label: String,
        current: CompactionCadence,
    ) -> (view: CompactionCadenceView)
        ensures
            view@.valid(),
            view@ == ({
                let count = if current@.checkpoints.len() > MAX_CHECKPOINTS {
                    MAX_CHECKPOINTS as int
                } else {
                    current@.checkpoints.len() as int
                };
                ViewModel {
                    provider_id: provider_id.deep_view(),
                    provider_label: provider_label@,
                    step: Step::Divisions,
                    divisions: count,
                    cadence: current@.with_divisions(count as usize),
                    focus: count,
                    completion: None,
                }
            }),
    {
        let len: usize = current.checkpoint_percents.len();
        let divisions: usize = if len > MAX_CHECKPOINTS {
            MAX_CHECKPOINTS
        } else {
            len
        };
        assert(divisions != len ==> divisions as u32 == 4);
        let cadence = current.with_divisions(divisions);
        CompactionCadenceView {
            provider_id,
            provider_label,
            step: Step::Divisions,
            divisions,
            cadence,
            focus: divisions,
            completion: None,
        }
    }

    /// The cadence that the view shows.
    pub fn cadence(&self) -> (cadence: &CompactionCadence)
        ensures
            cadence@ == self@.cadence,
    {
        &self.cadence
    }

    /// The name of the provider that the view was opened for.
    pub fn label(&self) -> (label: &str)
        ensures
            label@ == self@.provider_label,
    {
        self.provider_label.as_str()
    }

    /// What the keys act on.
    pub fn current_step(&self) -> (step: Step)
        ensures
            step == self@.step,
    {
        self.step
    }

    /// How many stages are chosen.
    pub fn stage_count(&self) -> (count: usize)
        ensures
            count == self@.divisions,
    {
        self.divisions
    }

    /// The handle that has the focus; the last one is the compaction trigger.
    pub fn focused_handle(&self) -> (index: usize)
        ensures
            index == self@.focus,
    {
        self.focus
    }

    /// Sets the number of stages, as many of them as are offered.
    pub fn set_divisions(&mut self, divisions: usize)
        requires
            old(self)@.valid(),
        ensures
            final(self)@.valid(),
            final(self)@ == old(self)@.with_divisions(divisions as int),
    {
        let count: usize = if divisions > MAX_CHECKPOINTS {
            MAX_CHECKPOINTS
        } else {
            divisions
        };
        assert(count as u32 == count);
        assert(self.cadence.trigger_percent * count <= 255 * 4) by (nonlinear_arith)
            requires
                self.cadence.trigger_percent <= 255,
                count <= 4,
        ;
        self.cadence = self.cadence.with_divisions(count);
        self.divisions = count;
        if self.focus > count {
            self.focus = count;
        }
    }

    /// Whether the focused handle has room to move.
    pub fn has_room(&self) -> (room: bool)
        requires
            self@.valid(),
        ensures
            room == self@.cadence.has_room(self@.focus),
    {
        let (lower, upper) = self.cadence.bounds(self.focus);
        lower <= upper
    }

    /// Moves the focused handle by `delta`, clamped so values stay strictly ascending and the
    /// trigger stays within 1-100.
    pub fn nudge(&mut self, delta: i16)
        requires
            old(self)@.valid(),
            old(self)@.cadence.has_room(old(self)@.focus),
            i16::MIN <= old(self)@.cadence.values()[old(self)@.focus] + delta <= i16::MAX,
        ensures
            final(self)@.valid(),
            final(self)@ == old(self)@.nudged(delta as int),
    {
        self.cadence.nudge(self.focus, delta);
    }

    /// Leaves the view with the request to persist what it shows.
    pub fn accept(&mut self) -> (event: AppEvent)
        ensures
            event@ == old(self)@.request(),
            final(self)@ == old(self)@.completed(ViewCompletion::Accepted),
    {
        let checkpoint_percents = self.cadence.checkpoint_percents.clone();
        assert(checkpoint_percents.deep_view() =~= self.cadence.checkpoint_percents@);
        let event = AppEvent::PersistCompactionSettings {
            provider_id: copy_text(&self.provider_id),
            checkpoint_percents: Some(checkpoint_percents),
            trigger_percent: Some(self.cadence.trigger_percent),
        };
        self.completion = Some(ViewCompletion::Accepted);
        event
    }

    fn fewer(&mut self)
        requires
            old(self)@.valid(),
        ensures
            final(self)@.valid(),
            final(self)@ == old(self)@.fewer(),
    {
        self.set_divisions(self.divisions.saturating_sub(1));
    }

    fn more(&mut self)
        requires
            old(self)@.valid(),
        ensures
            final(self)@.valid(),
            final(self)@ == old(self)@.with_divisions(old(self)@.divisions + 1),
    {
        self.set_divisions(self.divisions + 1);
    }

    fn cancel(&mut self)
        ensures
            final(self)@ == old(self)@.completed(ViewCompletion::Cancelled),
    {
        self.completion = Some(ViewCompletion::Cancelled);
    }

    fn focus_up(&mut self)
        requires
            old(self)@.valid(),
        ensures
            final(self)@.valid(),
            final(self)@ == old(self)@.focus_up(),
    {
        if self.focus == 0 {
            self.step = Step::Divisions;
        } else {
            self.focus -= 1;
        }
    }

    fn focus_down(&mut self)
        requires
            old(self)@.valid(),
        ensures
            final(self)@.valid(),
            final(self)@ == old(self)@.focus_down(),
    {
        if self.focus < self.divisions {
            self.focus += 1;
        } else {
            self.focus = self.divisions;
        }
    }

    /// Takes a key while the number of stages is chosen.
    pub fn handle_divisions_key(&mut self, key_event: KeyEvent)
        requires
            old(self)@.valid(),
        ensures
            final(self)@.valid(),
            final(self)@ == old(self)@.after_divisions_key(key_event),
    {
        match key_event.code {
            KeyCode::Left => self.fewer(),
            KeyCode::Right => self.more(),
            KeyCode::Enter | KeyCode::Tab | KeyCode::Down => {
                self.step = Step::Sliders;
                self.focus = 0;
            },
            KeyCode::Esc => self.cancel(),
            KeyCode::Char(c) => if c == 'h' || c == '-' {
                self.fewer();
            } else if c == 'l' || c == '+' || c == '=' {
                self.more();
            } else if '0' <= c && c <= '4' {
                let digit: u32 = c as u32;
                self.set_divisions((digit - 0x30) as usize);
            },
            _ => {},
        }
    }

    /// Takes a key while the percentages are set.
    pub fn handle_sliders_key(&mut self, key_event: KeyEvent) -> (event: Option<AppEvent>)
        requires
            old(self)@.valid(),
            ViewModel::slide(key_event) is Some ==> old(self)@.cadence.has_room(old(self)@.focus),
        ensures
            final(self)@.valid(),
            final(self)@ == old(self)@.after_sliders_key(key_event),
            event_model(event) == if key_event.code == KeyCode::Enter {
                Some(old(self)@.request())
            } else {
                None
            },
    {
        let step: i16 = if key_event.modifiers.holds_shift() {
            LARGE_STEP
        } else {
            SMALL_STEP
        };
        match key_event.code {
            KeyCode::Up => self.focus_up(),
            KeyCode::Down | KeyCode::Tab => self.focus_down(),
            KeyCode::Left => self.nudge(-step),
            KeyCode::Right => self.nudge(step),
            KeyCode::PageDown => self.nudge(-LARGE_STEP),
            KeyCode::PageUp => self.nudge(LARGE_STEP),
            KeyCode::Home => self.nudge(-FULL_STEP),
            KeyCode::End => self.nudge(FULL_STEP),
            KeyCode::Backspace => self.step = Step::Divisions,
            KeyCode::Enter => return Some(self.accept()),
            KeyCode::Esc => self.cancel(),
            KeyCode::Char(c) => if c == 'k' {
                self.focus_up();
            } else if c == 'j' {
                self.focus_down();
            } else if c == 'h' {
                self.nudge(-step);
            } else if c == 'l' {
                self.nudge(step);
            },
            _ => {},
        }
        None
    }

    fn slides(key_event: KeyEvent) -> (yes: bool)
        ensures
            yes == (ViewModel::slide(key_event) is Some),
    {
        match key_event.code {
            KeyCode::Left | KeyCode::Right | KeyCode::PageDown | KeyCode::PageUp | KeyCode::Home
            | KeyCode::End => true,
            KeyCode::Char(c) => c == 'h' || c == 'l',
            _ => false,
        }
    }

    /// Whether the view can take a key: one that moves the focused handle needs room for it.
    pub fn can_take(&self, key_event: KeyEvent) -> (yes: bool)
        requires
            self@.valid(),
        ensures
            yes == self@.takes(key_event),
    {
        match self.step {
            Step::Divisions => true,
            Step::Sliders => !CompactionCadenceView::slides(key_event) || self.has_room(),
        }
    }

    /// Takes a key and returns what it makes the view ask for.
    pub fn handle_key_event(&mut self, key_event: KeyEvent) -> (event: Option<AppEvent>)
        requires
            old(self)@.valid(),
            old(self)@.takes(key_event),
        ensures
            final(self)@.valid(),
            final(self)@ == old(self)@.after_key(key_event),
            event_model(event) == old(self)@.asks(key_event),
    {
        match self.step {
            Step::Divisions => {
                self.handle_divisions_key(key_event);
                None
            },
            Step::Sliders => self.handle_sliders_key(key_event),
        }
    }

    /// Leaves the view without a request.
    pub fn on_ctrl_c(&mut self) -> (handled: CancellationEvent)
        ensures
            final(self)@ == old(self)@.completed(ViewCompletion::Cancelled),
            handled == CancellationEvent::Handled,
    {
        self.cancel();
        CancellationEvent::Handled
    }

    /// Whether the view was left.
    pub fn is_complete(&self) -> (complete: bool)
        ensures
            complete == (self@.completion is Some),
    {
        self.completion.is_some()
    }

    /// How the view was left, if it was.
    pub fn completion(&self) -> (completion: Option<ViewCompletion>)
        ensures
            completion == self@.completion,
    {
        self.completion
    }
}

/// The view after a run of keys.
pub open spec fn after_keys(view: ViewModel, keys: Seq<KeyEvent>) -> ViewModel
    decreases keys.len(),
{
    if keys.len() == 0 {
        view
    } else {
        after_keys(view, keys.drop_last()).after_key(keys.last())
    }
}

/// A key leaves the view valid.
pub proof fn law_keys_keep_the_view_valid(view: ViewModel, key: KeyEvent)
    requires
        view.valid(),
    ensures
        view.after_key(key).valid(),
        view.completed(ViewCompletion::Cancelled).valid(),
{
    assert(forall|n: int| 0 <= n <= MAX_CHECKPOINTS ==> (#[trigger] (n as usize)) as u32 == n);
}

/// Any run of keys leaves the view valid.
pub proof fn law_runs_keep_the_view_valid(view: ViewModel, keys: Seq<KeyEvent>)
    requires
        view.valid(),
    ensures
        after_keys(view, keys).valid(),
    decreases keys.len(),
{
    if keys.len() > 0 {
        law_runs_keep_the_view_valid(view, keys.drop_last());
        law_keys_keep_the_view_valid(after_keys(view, keys.drop_last()), keys.last());
    }
}

/// Nothing is asked for before Enter on the sliders, whatever keys came before; what is asked
/// for then is exactly what the view shows.
pub proof fn law_only_enter_on_the_sliders_asks(
    view: ViewModel,
    keys: Seq<KeyEvent>,
    key: KeyEvent,
)
    ensures
        after_keys(view, keys).asks(key) is Some <==> after_keys(view, keys).step == Step::Sliders
            && key.code == KeyCode::Enter,
        after_keys(view, keys).asks(key) matches Some(event) ==> event == after_keys(
            view,
            keys,
        ).request() && after_keys(view, keys).after_key(key).completion == Some(
            ViewCompletion::Accepted,
        ),
{
}

/// Esc leaves the view as cancelled, asks for nothing and changes nothing else; so does Ctrl-C.
pub proof fn law_esc_cancels_without_asking(view: ViewModel, key: KeyEvent)
    requires
        key.code == KeyCode::Esc,
    ensures
        view.asks(key) is None,
        view.after_key(key) == view.completed(ViewCompletion::Cancelled),
        view.after_key(key).cadence == view.cadence,
{
}

/// The provider that the view was opened for stays the same through any run of keys.
pub proof fn law_keys_keep_the_provider(view: ViewModel, keys: Seq<KeyEvent>)
    ensures
        after_keys(view, keys).provider_id == view.provider_id,
        after_keys(view, keys).provider_label == view.provider_label,
    decreases keys.len(),
{
    if keys.len() > 0 {
        law_keys_keep_the_provider(view, keys.drop_last());
    }
}

/// Whether the view is valid and the values it shows strictly ascend.
pub open spec fn steady(view: ViewModel) -> bool {
    &&& view.valid()
    &&& view.cadence.ascending()
}

/// While the percentages are set, values that strictly ascend keep doing so, and the view takes
/// every key.
pub proof fn law_sliders_stay_strictly_ascending(view: ViewModel, key: KeyEvent)
    requires
        steady(view),
        view.step == Step::Sliders,
    ensures
        view.takes(key),
        steady(view.after_key(key)),
{
    cadence::law_moved_handles_keep_ascending(view.cadence, view.focus, 0);
    if let Some(delta) = ViewModel::slide(key) {
        cadence::law_moved_handles_keep_ascending(view.cadence, view.focus, delta);
    }
    law_keys_keep_the_view_valid(view, key);
}

/// While the number of stages is chosen, values that strictly ascend keep doing so under every
/// key whose new number of stages lies below the trigger; the view takes every key.
pub proof fn law_new_divisions_stay_strictly_ascending(view: ViewModel, key: KeyEvent)
    requires
        steady(view),
        view.step == Step::Divisions,
        view.after_key(key).divisions != view.divisions ==> view.after_key(key).divisions
            < view.cadence.trigger,
    ensures
        view.takes(key),
        steady(view.after_key(key)),
        view.after_key(key).cadence.trigger == view.cadence.trigger,
{
    let trigger = view.cadence.trigger;
    let count = view.after_key(key).divisions;
    assert(view.cadence.values()[view.divisions] == trigger);
    law_keys_keep_the_view_valid(view, key);
    cadence::law_spaced_stages_ascend(view.cadence, count as usize);
}

/// Home and End move the focused handle as far as its neighbours let it: Home to one above the
/// handle before it, End to one below the handle after it, or to a hundred for the trigger.
pub proof fn law_home_and_end_reach_the_bounds(view: ViewModel, home: KeyEvent, end: KeyEvent)
    requires
        steady(view),
        view.step == Step::Sliders,
        home.code == KeyCode::Home,
        end.code == KeyCode::End,
    ensures
        ({
            let lowest = view.after_key(home).cadence.values()[view.focus];
            let highest = view.after_key(end).cadence.values()[view.focus];
            &&& lowest == view.cadence.lower(view.focus)
            &&& highest == view.cadence.upper(view.focus)
            &&& view.focus == view.divisions ==> highest == 100
        }),
{
    assert(1 <= view.cadence.values()[view.focus] <= 100);
    cadence::law_moved_handles_keep_ascending(view.cadence, view.focus, 0);
}

} // verus!
