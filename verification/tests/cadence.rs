use compaction::cadence::CompactionCadence;
use compaction::cadence_lines::{can_render, rows, slider_fits, stack_rows, KeyLabels, Look, MenuSurface, Piece};
use compaction::cadence_view::{
    AppEvent, CancellationEvent, CompactionCadenceView, Step, ViewCompletion,
};
use compaction::keys::{KeyCode, KeyEvent, KeyModifiers};

fn make_view(percents: Vec<u8>, trigger: u8) -> CompactionCadenceView {
    CompactionCadenceView::new(
        Some("sparkops-qwen-dgx3".to_string()),
        "SparkOps Qwen3.8 on DGX3+DGX4 (http://10.10.10.103:8078/v1)".to_string(),
        CompactionCadence {
            checkpoint_percents: percents,
            trigger_percent: trigger,
        },
    )
}

fn labels() -> KeyLabels {
    KeyLabels {
        left: "←".to_string(),
        right: "→".to_string(),
        up: "↑".to_string(),
        down: "↓".to_string(),
        enter: "enter".to_string(),
        esc: "esc".to_string(),
        shift_left: "shift + ←".to_string(),
        shift_right: "shift + →".to_string(),
    }
}

/// A surface with a blank row above and below and two blank columns on either side.
fn surface(view: &CompactionCadenceView, width: u16) -> MenuSurface {
    let height = view.desired_height(width, 2);
    MenuSurface {
        width,
        height,
        inner_x: 2,
        inner_y: 1,
        inner_width: width - 4,
        inner_height: height - 2,
    }
}

#[test]
fn renders_divisions_then_sliders() {
    let mut view = make_view(vec![50], 80);
    let bar = |label: &str, filled: usize, rest: usize, value: &str| {
        format!("{label}▕{}{}▏ {value}%", "█".repeat(filled), "░".repeat(rest))
    };
    assert_eq!(
        rows(&view, &surface(&view, 80), &labels()),
        [
            "".to_string(),
            "  Compaction cadence — SparkOps Qwen3.8 on DGX3+DGX4 (http://10.10.10.103:8078/v"
                .chars()
                .take(78)
                .collect(),
            "".to_string(),
            "  › Checkpoints  ◂ 1 ▸   (0–4; each stage summarizes what came after the previous one)"
                .chars()
                .take(78)
                .collect(),
            "".to_string(),
            bar("    checkpoint 1 ", 27, 27, " 50"),
            bar("    compaction   ", 43, 11, " 80"),
            "".to_string(),
            "  ←→ count  enter set percentages  esc cancel".to_string(),
            "".to_string(),
        ]
        .join("\n")
    );
    assert_eq!(view.handle_key_event(KeyEvent::from(KeyCode::Right)), None);
    assert_eq!(view.handle_key_event(KeyEvent::from(KeyCode::Enter)), None);
    assert_eq!(
        rows(&view, &surface(&view, 80), &labels()),
        [
            "".to_string(),
            "  Compaction cadence — SparkOps Qwen3.8 on DGX3+DGX4 (http://10.10.10.103:8078/v"
                .chars()
                .take(78)
                .collect(),
            "".to_string(),
            "    Checkpoints  ◂ 2 ▸   (0–4; each stage summarizes what came after the previous one)"
                .chars()
                .take(78)
                .collect(),
            "".to_string(),
            bar("  › checkpoint 1 ", 14, 40, " 26"),
            bar("    checkpoint 2 ", 28, 26, " 53"),
            bar("    compaction   ", 43, 11, " 80"),
            "".to_string(),
            "  ↑↓ select  ←→ ±1  shift + ← shift + → ±5  enter save  esc cancel".to_string(),
            "".to_string(),
        ]
        .join("\n")
    );
}

#[test]
fn changing_divisions_spaces_new_stages_evenly() {
    let mut view = make_view(vec![50], 80);
    view.handle_key_event(KeyEvent::from(KeyCode::Right));
    assert_eq!(
        view.cadence(),
        &CompactionCadence {
            checkpoint_percents: vec![26, 53],
            trigger_percent: 80
        }
    );
    view.handle_key_event(KeyEvent::from(KeyCode::Char('0')));
    assert_eq!(view.cadence().checkpoint_percents, Vec::<u8>::new());
}

#[test]
fn sliders_stay_strictly_ascending() {
    let mut view = make_view(vec![50, 65], 80);
    view.handle_key_event(KeyEvent::from(KeyCode::Enter));
    // Push checkpoint 1 up past checkpoint 2: it stops one below.
    for _ in 0..40 {
        view.handle_key_event(KeyEvent::from(KeyCode::Right));
    }
    assert_eq!(view.cadence().checkpoint_percents, vec![64, 65]);
    // The trigger cannot exceed 100 and cannot drop below the last checkpoint.
    view.handle_key_event(KeyEvent::from(KeyCode::Down));
    view.handle_key_event(KeyEvent::from(KeyCode::Down));
    view.handle_key_event(KeyEvent::from(KeyCode::End));
    assert_eq!(view.cadence().trigger_percent, 100);
    view.handle_key_event(KeyEvent::from(KeyCode::Home));
    assert_eq!(view.cadence().trigger_percent, 66);
    view.handle_key_event(KeyEvent::new(KeyCode::Right, KeyModifiers::only_shift()));
    assert_eq!(view.cadence().trigger_percent, 71);
}

#[test]
fn enter_persists_and_esc_cancels_without_writing() {
    let mut view = make_view(vec![50], 80);
    let event = view.handle_key_event(KeyEvent::from(KeyCode::Esc));
    assert_eq!(view.completion(), Some(ViewCompletion::Cancelled));
    assert!(event.is_none());

    let mut view = make_view(vec![50], 80);
    assert!(view.handle_key_event(KeyEvent::from(KeyCode::Enter)).is_none());
    assert!(view.handle_key_event(KeyEvent::from(KeyCode::Down)).is_none());
    let shifted = KeyEvent::new(KeyCode::Right, KeyModifiers::only_shift());
    assert!(view.handle_key_event(shifted).is_none());
    let event = view.handle_key_event(KeyEvent::from(KeyCode::Enter));
    assert_eq!(view.completion(), Some(ViewCompletion::Accepted));
    match event {
        Some(AppEvent::PersistCompactionSettings {
            provider_id,
            checkpoint_percents,
            trigger_percent,
        }) => {
            assert_eq!(provider_id.as_deref(), Some("sparkops-qwen-dgx3"));
            assert_eq!(checkpoint_percents, Some(vec![50]));
            assert_eq!(trigger_percent, Some(85));
        }
        other => panic!("unexpected event: {other:?}"),
    }
}

#[test]
fn too_many_stages_are_respaced() {
    let view = make_view(vec![10, 20, 30, 40, 50], 80);
    assert_eq!(view.cadence().checkpoint_percents, vec![16, 32, 48, 64]);
    assert_eq!(view.stage_count(), 4);
    assert_eq!(view.focused_handle(), 4);
}

#[test]
fn every_divisions_key_does_its_part() {
    let mut view = make_view(vec![50], 80);
    let press = |view: &mut CompactionCadenceView, code: KeyCode| {
        assert!(view.handle_key_event(KeyEvent::from(code)).is_none());
    };
    press(&mut view, KeyCode::Char('4'));
    assert_eq!(view.stage_count(), 4);
    press(&mut view, KeyCode::Char('+'));
    assert_eq!(view.stage_count(), 4);
    press(&mut view, KeyCode::Char('-'));
    assert_eq!(view.stage_count(), 3);
    press(&mut view, KeyCode::Char('h'));
    press(&mut view, KeyCode::Left);
    assert_eq!(view.stage_count(), 1);
    press(&mut view, KeyCode::Char('5'));
    assert_eq!(view.stage_count(), 1);
    press(&mut view, KeyCode::Char('0'));
    press(&mut view, KeyCode::Left);
    assert_eq!(view.stage_count(), 0);
    press(&mut view, KeyCode::Char('='));
    press(&mut view, KeyCode::Char('l'));
    assert_eq!(view.stage_count(), 2);
    assert_eq!(view.current_step(), Step::Divisions);
    press(&mut view, KeyCode::Tab);
    assert_eq!(view.current_step(), Step::Sliders);
    assert_eq!(view.focused_handle(), 0);
}

#[test]
fn every_sliders_key_does_its_part() {
    let mut view = make_view(vec![50], 80);
    let press = |view: &mut CompactionCadenceView, code: KeyCode| {
        assert!(view.handle_key_event(KeyEvent::from(code)).is_none());
    };
    press(&mut view, KeyCode::Down);
    press(&mut view, KeyCode::Char('l'));
    assert_eq!(view.cadence().values(), vec![51, 80]);
    press(&mut view, KeyCode::Char('h'));
    press(&mut view, KeyCode::Left);
    assert_eq!(view.cadence().values(), vec![49, 80]);
    press(&mut view, KeyCode::PageUp);
    assert_eq!(view.cadence().values(), vec![54, 80]);
    press(&mut view, KeyCode::PageDown);
    assert_eq!(view.cadence().values(), vec![49, 80]);
    press(&mut view, KeyCode::Home);
    assert_eq!(view.cadence().values(), vec![1, 80]);
    press(&mut view, KeyCode::Char('j'));
    press(&mut view, KeyCode::Tab);
    assert_eq!(view.focused_handle(), 1);
    press(&mut view, KeyCode::Char('k'));
    assert_eq!(view.focused_handle(), 0);
    press(&mut view, KeyCode::Up);
    assert_eq!(view.current_step(), Step::Divisions);
    press(&mut view, KeyCode::Enter);
    press(&mut view, KeyCode::Backspace);
    assert_eq!(view.current_step(), Step::Divisions);
    press(&mut view, KeyCode::Other);
    assert!(!view.is_complete());
    assert_eq!(view.on_ctrl_c(), CancellationEvent::Handled);
    assert_eq!(view.completion(), Some(ViewCompletion::Cancelled));
}

#[test]
fn shift_is_the_lowest_bit() {
    assert!(KeyModifiers { bits: 1 }.holds_shift());
    assert!(KeyModifiers { bits: 3 }.holds_shift());
    assert!(!KeyModifiers { bits: 2 }.holds_shift());
    assert!(!KeyModifiers::none().holds_shift());
}

#[test]
fn crowded_handles_have_no_room() {
    let mut view = make_view(vec![], 4);
    view.handle_key_event(KeyEvent::from(KeyCode::Char('4')));
    assert_eq!(view.cadence().values(), vec![1, 2, 3, 3, 4]);
    view.handle_key_event(KeyEvent::from(KeyCode::Enter));
    assert!(view.has_room());
    for _ in 0..3 {
        view.handle_key_event(KeyEvent::from(KeyCode::Down));
    }
    assert!(!view.has_room());
    assert!(!view.can_take(KeyEvent::from(KeyCode::Left)));
    assert!(view.can_take(KeyEvent::from(KeyCode::Up)));
}

#[test]
fn new_stages_lie_below_the_trigger() {
    let cadence = |trigger_percent: u8| CompactionCadence {
        checkpoint_percents: vec![7],
        trigger_percent,
    };
    assert_eq!(cadence(3).with_divisions(1), cadence(3));
    assert_eq!(cadence(3).with_divisions(0).values(), vec![3]);
    assert_eq!(cadence(3).with_divisions(2).values(), vec![1, 2, 3]);
    assert_eq!(cadence(3).with_divisions(3).values(), vec![1, 2, 2, 3]);
    assert_eq!(cadence(1).with_divisions(2).values(), vec![0, 0, 1]);
    assert_eq!(cadence(0).with_divisions(2).values(), vec![1, 2, 0]);
    assert_eq!(cadence(5).with_divisions(4).values(), vec![1, 2, 3, 4, 5]);
    for trigger in 1..=255 {
        for divisions in [0, 2, 3, 4, 300] {
            let out = cadence(trigger).with_divisions(divisions);
            assert_eq!(out.checkpoint_percents.len(), divisions);
            assert!(out.checkpoint_percents.iter().all(|percent| *percent < trigger));
        }
    }
}

#[test]
fn slider_lines_have_seven_pieces() {
    let view = make_view(vec![50], 80);
    let line = view.slider_line("compaction", 100, 30, true);
    let words = |words: &str, look: Look| Piece::Words {
        words: words.to_string(),
        look,
    };
    assert_eq!(
        line,
        vec![
            words("› ", Look::Plain),
            words("compaction   ", Look::Bold),
            words("▕", Look::Dim),
            words("██████████", Look::Cyan),
            words("", Look::Dim),
            words("▏", Look::Dim),
            words(" 100%", Look::Bold),
        ]
    );
    assert!(slider_fits("compaction", 100, 200));
    assert!(!slider_fits("compaction", 255, 200));
    assert!(view.is_drawable(80));
    assert!(!make_view(vec![50], 200).is_drawable(80));
}

fn labelled(label: String) -> CompactionCadenceView {
    let cadence = CompactionCadence {
        checkpoint_percents: vec![50],
        trigger_percent: 80,
    };
    CompactionCadenceView::new(None, label, cadence)
}

#[test]
fn long_labels_are_cut_off() {
    let view = labelled("x".repeat(100_000));
    assert!(can_render(&view, 30, &labels()));
    let surface = MenuSurface {
        width: 30,
        height: 1,
        inner_x: 0,
        inner_y: 0,
        inner_width: 30,
        inner_height: 1,
    };
    assert_eq!(
        rows(&view, &surface, &labels()),
        format!("Compaction cadence — {}", "x".repeat(9))
    );
}

#[test]
fn only_endless_labels_are_not_rendered() {
    assert!(can_render(&make_view(vec![50], 80), 80, &labels()));
    assert!(can_render(&make_view(vec![50], 80), 65535, &labels()));
    // The title takes 21 characters before the label, one of them outside ASCII.
    assert!(can_render(&labelled("x".repeat(21845 - 21)), 65535, &labels()));
    assert!(!can_render(&labelled("x".repeat(21845 - 20)), 65535, &labels()));
    assert!(!can_render(&labelled("x".repeat(100_000)), 65530, &labels()));
    assert!(can_render(&labelled("x".repeat(100_000)), 65529, &labels()));
    assert!(!can_render(&labelled("\u{1100}".repeat(32768)), 80, &labels()));
    let view = labelled(String::new());
    assert!(view.has_height(65535 - 8));
    assert!(!view.has_height(65535 - 7));
}

#[test]
fn wide_surfaces_leave_the_rest_blank() {
    let view = make_view(vec![], 80);
    let surface = MenuSurface {
        width: 65535,
        height: 2,
        inner_x: 0,
        inner_y: 0,
        inner_width: 65535,
        inner_height: 2,
    };
    assert_eq!(
        rows(&view, &surface, &labels()),
        "Compaction cadence — SparkOps Qwen3.8 on DGX3+DGX4 (http://10.10.10.103:8078/v1)\n"
    );
}

#[test]
fn rows_lose_the_space_at_their_ends() {
    let drawn = vec![" a ".to_string(), "  ".to_string(), "b".to_string()];
    assert_eq!(stack_rows(&drawn), " a\n\nb");
}
