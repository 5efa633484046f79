use compaction::capture::delta_compaction_instructions;
use compaction::merge::{merge_slice_summaries, opens_section, toggles_fence};
use compaction::summaries::concatenate_summaries;
use compaction::text::{
    contains_text, is_before, lowercase, numeral, sort_texts, split_lines, trim, trim_tail,
};

#[test]
fn concatenation_skips_empty_parts() {
    assert_eq!(concatenate_summaries(&["a", "b"]), "a\n\nb");
    assert_eq!(concatenate_summaries(&["a\n", "  ", "c"]), "a\n\nc");
    assert_eq!(concatenate_summaries(&["", "b"]), "b");
}

#[test]
fn delta_instructions_embed_earlier_slices_and_user_instructions() {
    let text = delta_compaction_instructions("PRIOR", "DO THIS");
    assert!(text.contains("<earlier_slices>\nPRIOR\n</earlier_slices>"));
    assert!(text.contains("ONE SLICE"), "the slice framing must lead");
    assert!(text.ends_with("DO THIS"));
    assert_eq!(
        text,
        "You are summarizing ONE SLICE of this conversation. \
Checkpoint summaries of the earlier part of this conversation were already produced by \
previous compaction passes and are included below for reference only. They will be placed \
verbatim before your output in the handover, so do not repeat or restate them. Apply the \
instructions that follow them to the conversation items above this message, which are the \
portion recorded after the last checkpoint, and describe only what is new.\n\n\
<earlier_slices>\nPRIOR\n</earlier_slices>\n\nDO THIS"
    );
}

#[test]
fn merging_slices_collects_each_section_once_in_template_order() {
    let first = "## WHERE WE ARE\n\nParser landed.\n\n## WHAT'S LEFT\n\nWire the CLI.\n";
    let second = "## WHAT'S LEFT\n\nCLI wired; docs remain.\n\n## DO NOT FORGET\n\nNever touch prod.\n";
    let delta = "## WHERE WE ARE\n\nDocs drafted.\n";
    assert_eq!(
        merge_slice_summaries(&[first, second, delta]),
        "## WHERE WE ARE\n\nParser landed.\n\nDocs drafted.\n\n\
## WHAT'S LEFT\n\nWire the CLI.\n\nCLI wired; docs remain.\n\n\
## DO NOT FORGET\n\nNever touch prod."
    );
}

#[test]
fn merging_keeps_preamble_and_ignores_empty_and_restyled_headings() {
    let first = "Context follows.\n\n## Decisions\n\nUse TOML.\n";
    // A slice may leave a section empty, restyle the heading, or add prose of its own.
    let second = "More context.\n\n## decisions:\n\nStill TOML.\n\n## Artifacts\n\n";
    assert_eq!(
        merge_slice_summaries(&[first, second]),
        "Context follows.\n\nMore context.\n\n## Decisions\n\nUse TOML.\n\nStill TOML."
    );
}

#[test]
fn merging_falls_back_to_concatenation_without_headings() {
    assert_eq!(
        merge_slice_summaries(&["slice one", "slice two", "  "]),
        "slice one\n\nslice two"
    );
    assert_eq!(
        merge_slice_summaries(&["slice one\n#tag", " slice two "]),
        concatenate_summaries(&["slice one\n#tag", " slice two "])
    );
}

#[test]
fn merging_ignores_hashes_inside_fenced_code() {
    let slice = "## WHERE WE ARE\n\n```sh\n# not a heading\n```\n";
    assert_eq!(
        merge_slice_summaries(&[slice, "## WHERE WE ARE\n\nDone.\n"]),
        "## WHERE WE ARE\n\n```sh\n# not a heading\n```\n\nDone."
    );
}

#[test]
fn concatenation_regroups() {
    let earlier = concatenate_summaries(&["a ", "", "b"]);
    let later = concatenate_summaries(&["\n", "c"]);
    assert_eq!(
        concatenate_summaries(&[&earlier, &later]),
        concatenate_summaries(&["a ", "", "b", "\n", "c"])
    );
}

#[test]
fn headings_have_signs_space_and_title() {
    assert!(opens_section("# a"));
    assert!(opens_section("###### a"));
    assert!(!opens_section("####### a"));
    assert!(!opens_section("#a"));
    assert!(!opens_section("## "));
    assert!(!opens_section(" # a"));
    assert!(toggles_fence("```sh"));
    assert!(toggles_fence("  ```"));
    assert!(!toggles_fence("``"));
}

#[test]
fn texts_are_trimmed_of_all_white_space() {
    assert_eq!(trim("\u{a0}\u{3000} a b\t\r\n\u{2028}"), "a b");
    assert_eq!(trim(" \n"), "");
    assert_eq!(trim_tail("  a \u{85}"), "  a");
    assert_eq!(trim("\u{200b}"), "\u{200b}");
}

#[test]
fn white_space_is_that_of_the_standard_library() {
    for n in 0..=0x10ffffu32 {
        if let Some(c) = char::from_u32(n) {
            assert_eq!(compaction::text::is_white_space(c), c.is_whitespace());
        }
    }
}

#[test]
fn texts_are_ordered_by_code_points() {
    let list = ["b", "a", "", "ab", "é", "z", "\u{10000}", "\u{ffff}"]
        .iter()
        .map(|s| s.to_string())
        .collect::<Vec<_>>();
    let mut expected = list.clone();
    expected.sort();
    assert_eq!(sort_texts(&list), expected);
    assert!(is_before("a", "ab"));
    assert!(!is_before("a", "a"));
}

#[test]
fn texts_are_searched_split_and_lowered() {
    assert!(contains_text("sparkops-dgx3", "dgx3"));
    assert!(contains_text("abc", ""));
    assert!(!contains_text("abc", "abcd"));
    assert!(!contains_text("abc", "ca"));
    assert_eq!(split_lines("a\n\nb\n"), vec!["a", "", "b", ""]);
    assert_eq!(lowercase("OFF É 1"), "off É 1");
    assert_eq!(numeral(0), "0");
    assert_eq!(numeral(u64::MAX), "18446744073709551615");
}
