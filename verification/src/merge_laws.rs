//! What holds of handover summaries, stated over the summaries themselves: which lines open
//! sections, that no line is lost, and what the merged and the concatenated text are made of.

use vstd::prelude::*;

use crate::merge;
use crate::merge::SectionText;
use crate::summaries;
use crate::text;
use crate::text_laws;

verus! {

proof fn lemma_kept_picks(all: Seq<Seq<char>>, n: nat, wanted: spec_fn(int) -> bool)
    requires
        n <= all.len(),
        wanted == (|i: int| text::trimmed(all[i]).len() > 0),
    ensures
        summaries::kept(all.take(n as int)) == text_laws::picked(n, wanted).map_values(
            |i: int| text::trimmed(all[i]),
        ),
    decreases n,
{
    let f = |i: int| text::trimmed(all[i]);
    if n > 0 {
        lemma_kept_picks(all, (n - 1) as nat, wanted);
        let rest = text_laws::picked((n - 1) as nat, wanted);
        assert(all.take(n as int).drop_last() =~= all.take(n - 1));
        assert(all.take(n as int).last() == all[n - 1]);
        if wanted(n - 1) {
            assert(rest.push(n - 1).map_values(f) =~= rest.map_values(f).push(f(n - 1)));
        }
    } else {
        assert(text_laws::picked(0, wanted).map_values(f) =~= Seq::empty());
    }
}

/// A concatenation is made of the summaries that are not blank, each trimmed, in order, with a
/// blank line between each two neighbours.
pub proof fn law_concatenation_joins_what_is_not_blank(list: Seq<Seq<char>>) -> (picks: Seq<int>)
    ensures
        text_laws::picks_out(picks, list.len(), |i: int| text::trimmed(list[i]).len() > 0),
        summaries::concatenated(list) == text::join(
            Seq::new(picks.len(), |p: int| text::trimmed(list[picks[p]])),
            seq!['\n', '\n'],
        ),
{
    let wanted = |i: int| text::trimmed(list[i]).len() > 0;
    let picks = text_laws::picked(list.len(), wanted);
    text_laws::lemma_picked(list.len(), wanted);
    lemma_kept_picks(list, list.len(), wanted);
    assert(list.take(list.len() as int) =~= list);
    assert(picks.map_values(|i: int| text::trimmed(list[i])) =~= Seq::new(
        picks.len(),
        |p: int| text::trimmed(list[picks[p]]),
    ));
    picks
}

/// The summaries that are concatenated or merged are those of the list, one for one.
pub proof fn law_summaries_are_those_of_the_list(list: Seq<&str>)
    ensures
        summaries::strs(list).len() == list.len(),
        forall|i: int| 0 <= i < list.len() ==> #[trigger] summaries::strs(list)[i] == list[i]@,
{
}

/// Whether the first `n` characters of a line are number signs, no more follow, and then comes
/// white space.
pub open spec fn signs_and_space(line: Seq<char>, n: int) -> bool {
    &&& 0 <= n < line.len()
    &&& forall|k: int| 0 <= k < n ==> #[trigger] line[k] == '#'
    &&& text::white_space(line[n])
}

proof fn lemma_hashes_count(s: Seq<char>, n: int)
    requires
        0 <= n <= s.len(),
        forall|k: int| 0 <= k < n ==> #[trigger] s[k] == '#',
        n < s.len() ==> s[n] != '#',
    ensures
        merge::hashes(s) == n,
    decreases s.len(),
{
    if n > 0 {
        let t = s.subrange(1, s.len() as int);
        assert(s[0] == '#');
        assert forall|k: int| 0 <= k < n - 1 implies #[trigger] t[k] == '#' by {
            assert(t[k] == s[k + 1]);
        }
        lemma_hashes_count(t, n - 1);
    }
}

proof fn lemma_hashes_are_hashes(s: Seq<char>)
    ensures
        merge::hashes(s) <= s.len(),
        forall|k: int| 0 <= k < merge::hashes(s) ==> #[trigger] s[k] == '#',
        merge::hashes(s) < s.len() ==> s[merge::hashes(s) as int] != '#',
    decreases s.len(),
{
    if s.len() > 0 && s[0] == '#' {
        let t = s.subrange(1, s.len() as int);
        lemma_hashes_are_hashes(t);
        assert forall|k: int| 0 <= k < merge::hashes(s) implies #[trigger] s[k] == '#' by {
            if k > 0 {
                assert(t[k - 1] == s[k]);
            }
        }
    }
}

proof fn lemma_not_all_white(s: Seq<char>)
    ensures
        text::trimmed(s).len() > 0 <==> exists|m: int|
            0 <= m < s.len() && !text::white_space(#[trigger] s[m]),
{
    let (i, j) = text_laws::law_trimming_takes_off_white_space(s);
    if i < j {
        assert(!text::white_space(s[i]));
    } else {
        assert forall|m: int| 0 <= m < s.len() implies text::white_space(#[trigger] s[m]) by {}
    }
}

/// A line is a heading exactly if it has one to six number signs at its start, white space behind
/// them, and something that is not white space after that.
pub proof fn law_headings_have_signs_space_and_title(line: Seq<char>)
    ensures
        merge::is_heading(line) <==> exists|n: int|
            1 <= n <= 6 && #[trigger] signs_and_space(line, n) && exists|m: int|
                n < m < line.len() && !text::white_space(#[trigger] line[m]),
{
    let n = merge::hashes(line) as int;
    lemma_hashes_are_hashes(line);
    let tail = line.skip(n);
    lemma_not_all_white(tail);
    if merge::is_heading(line) {
        assert(signs_and_space(line, n));
        let m = choose|m: int| 0 <= m < tail.len() && !text::white_space(#[trigger] tail[m]);
        assert(tail[m] == line[n + m]);
        assert(m > 0);
        assert(!text::white_space(line[n + m]));
    }
    if exists|n: int|
        1 <= n <= 6 && #[trigger] signs_and_space(line, n) && exists|m: int|
            n < m < line.len() && !text::white_space(#[trigger] line[m]) {
        let k = choose|n: int|
            1 <= n <= 6 && #[trigger] signs_and_space(line, n) && exists|m: int|
                n < m < line.len() && !text::white_space(#[trigger] line[m]);
        lemma_sign_is_not_white();
        lemma_hashes_count(line, k);
        let m = choose|m: int| k < m < line.len() && !text::white_space(#[trigger] line[m]);
        assert(tail[m - k] == line[m]);
    }
}

proof fn lemma_sign_is_not_white()
    ensures
        !text::white_space('#'),
        !text::white_space('`'),
        !text::white_space(':'),
{
}

/// A line opens or closes fenced code exactly if three backticks are the first thing in it that
/// is not white space.
pub proof fn law_fences_start_with_three_backticks(line: Seq<char>)
    ensures
        merge::is_fence(line) <==> exists|i: int|
            0 <= i && i + 3 <= line.len() && #[trigger] line[i] == '`' && line[i + 1] == '`'
                && line[i + 2] == '`' && forall|k: int|
                0 <= k < i ==> text::white_space(#[trigger] line[k]),
{
    let i = text_laws::law_trimming_the_start_takes_off_white_space(line);
    let start = line.subrange(i, line.len() as int);
    lemma_sign_is_not_white();
    if merge::is_fence(line) {
        assert(start[0] == line[i] && start[1] == line[i + 1] && start[2] == line[i + 2]);
        assert(line[i] == '`');
    }
    if exists|i: int|
        0 <= i && i + 3 <= line.len() && #[trigger] line[i] == '`' && line[i + 1] == '`' && line[i
            + 2] == '`' && forall|k: int| 0 <= k < i ==> text::white_space(#[trigger] line[k]) {
        let j = choose|i: int|
            0 <= i && i + 3 <= line.len() && #[trigger] line[i] == '`' && line[i + 1] == '`'
                && line[i + 2] == '`' && forall|k: int|
                0 <= k < i ==> text::white_space(#[trigger] line[k]);
        assert(i == j) by {
            if i < j {
                assert(text::white_space(line[i]));
            }
            if j < i {
                assert(text::white_space(line[j]));
            }
        }
    }
}

/// How many of the lines open or close fenced code.
pub open spec fn fences(lines: Seq<Seq<char>>) -> nat
    decreases lines.len(),
{
    if lines.len() == 0 {
        0
    } else {
        fences(lines.drop_last()) + if merge::is_fence(lines.last()) {
            1nat
        } else {
            0
        }
    }
}

/// Whether line `k` opens a section: it is a heading and lies outside fenced code, that is behind
/// an even number of fences.
pub open spec fn opens(lines: Seq<Seq<char>>, k: int) -> bool {
    merge::is_heading(lines[k]) && fences(lines.take(k)) % 2 == 0
}

/// Where the lines of section `p` start.
pub open spec fn start_of(cuts: Seq<int>, p: int) -> int {
    if p == 0 {
        0
    } else {
        cuts[p - 1] + 1
    }
}

/// Where the lines of section `p` end, of `len` lines in all.
pub open spec fn end_of(cuts: Seq<int>, p: int, len: int) -> int {
    if p == cuts.len() {
        len
    } else {
        cuts[p]
    }
}

/// Whether `sections` are `lines` cut at `cuts`: the first section has no heading and holds the
/// lines before the first cut; every other one has the line at its cut, trimmed, for its heading
/// and holds the lines up to the next cut.
pub open spec fn shaped(lines: Seq<Seq<char>>, sections: Seq<SectionText>, cuts: Seq<int>) -> bool {
    &&& sections.len() == cuts.len() + 1
    &&& sections[0].heading.len() == 0
    &&& forall|p: int|
        0 < p < sections.len() ==> (#[trigger] sections[p]).heading == text::trimmed(
            lines[cuts[p - 1]],
        )
    &&& forall|p: int|
        0 <= p < sections.len() ==> (#[trigger] sections[p]).lines == lines.subrange(
            start_of(cuts, p),
            end_of(cuts, p, lines.len() as int),
        )
}

/// Whether `sections` are `lines` cut at exactly those lines that open a section.
pub open spec fn cut_at(lines: Seq<Seq<char>>, sections: Seq<SectionText>, cuts: Seq<int>) -> bool {
    &&& text_laws::picks_out(cuts, lines.len(), |k: int| opens(lines, k))
    &&& shaped(lines, sections, cuts)
}

proof fn lemma_heading_is_no_fence(line: Seq<char>)
    ensures
        !(merge::is_heading(line) && merge::is_fence(line)),
{
    lemma_sign_is_not_white();
    if merge::is_heading(line) {
        lemma_hashes_are_hashes(line);
        assert(line[0] == '#');
        assert(text::trim_start(line) == line);
    }
}

spec fn below(cuts: Seq<int>, n: int) -> bool {
    &&& forall|p: int| 0 <= p < cuts.len() ==> 0 <= #[trigger] cuts[p] < n
    &&& forall|p: int, q: int|
        0 <= p < q < cuts.len() ==> #[trigger] cuts[p] < #[trigger] cuts[q]
}

proof fn lemma_shaped_opened(
    lines: Seq<Seq<char>>,
    sections: Seq<SectionText>,
    cuts: Seq<int>,
    line: Seq<char>,
)
    requires
        shaped(lines, sections, cuts),
        below(cuts, lines.len() as int),
    ensures
        shaped(
            lines.push(line),
            sections.push(SectionText { heading: text::trimmed(line), lines: Seq::empty() }),
            cuts.push(lines.len() as int),
        ),
{
    let all = lines.push(line);
    let out = sections.push(SectionText { heading: text::trimmed(line), lines: Seq::empty() });
    let more = cuts.push(lines.len() as int);
    assert forall|p: int| 0 < p < out.len() implies (#[trigger] out[p]).heading == text::trimmed(
        all[more[p - 1]],
    ) by {
        if p < sections.len() {
            assert(out[p] == sections[p]);
            assert(all[more[p - 1]] == lines[cuts[p - 1]]);
        }
    }
    assert forall|p: int| 0 <= p < out.len() implies (#[trigger] out[p]).lines == all.subrange(
        start_of(more, p),
        end_of(more, p, all.len() as int),
    ) by {
        if p < sections.len() {
            assert(out[p] == sections[p]);
            let from = start_of(cuts, p);
            let to = end_of(cuts, p, lines.len() as int);
            assert(start_of(more, p) == from);
            assert(end_of(more, p, all.len() as int) == to);
            assert(0 <= from <= to <= lines.len());
            assert(lines.subrange(from, to) =~= all.subrange(from, to));
        } else {
            assert(out[p].lines =~= all.subrange(all.len() as int, all.len() as int));
        }
    }
}

proof fn lemma_shaped_extended(
    lines: Seq<Seq<char>>,
    sections: Seq<SectionText>,
    cuts: Seq<int>,
    line: Seq<char>,
)
    requires
        shaped(lines, sections, cuts),
        below(cuts, lines.len() as int),
    ensures
        shaped(lines.push(line), merge::extended(sections, line), cuts),
{
    let all = lines.push(line);
    let out = merge::extended(sections, line);
    assert(out.len() == sections.len());
    assert forall|p: int| 0 < p < out.len() implies (#[trigger] out[p]).heading == text::trimmed(
        all[cuts[p - 1]],
    ) by {
        assert(out[p].heading == sections[p].heading);
        assert(all[cuts[p - 1]] == lines[cuts[p - 1]]);
    }
    assert(out[0].heading == sections[0].heading);
    assert forall|p: int| 0 <= p < out.len() implies (#[trigger] out[p]).lines == all.subrange(
        start_of(cuts, p),
        end_of(cuts, p, all.len() as int),
    ) by {
        let from = start_of(cuts, p);
        let to = end_of(cuts, p, lines.len() as int);
        assert(0 <= from <= to <= lines.len());
        assert(sections[p].lines == lines.subrange(from, to));
        if p < sections.len() - 1 {
            assert(out[p] == sections[p]);
            assert(lines.subrange(from, to) =~= all.subrange(from, to));
        } else {
            assert(out[p].lines == sections[p].lines.push(line));
            assert(out[p].lines =~= all.subrange(from, all.len() as int));
        }
    }
}

proof fn lemma_outline_shaped(lines: Seq<Seq<char>>, n: nat, wanted: spec_fn(int) -> bool)
    requires
        n <= lines.len(),
        wanted == (|k: int| opens(lines, k)),
    ensures
        shaped(
            lines.take(n as int),
            merge::outline(lines.take(n as int)).sections,
            text_laws::picked(n, wanted),
        ),
        merge::outline(lines.take(n as int)).fenced == (fences(lines.take(n as int)) % 2 == 1),
    decreases n,
{
    let upto = lines.take(n as int);
    if n == 0 {
        assert(upto =~= Seq::empty());
        let out = merge::outline(upto).sections;
        assert(out[0].lines =~= upto.subrange(0, 0));
    } else {
        let before = lines.take(n - 1);
        let line = lines[n - 1];
        let front = text_laws::picked((n - 1) as nat, wanted);
        let rest = merge::outline(before).sections;
        lemma_outline_shaped(lines, (n - 1) as nat, wanted);
        text_laws::lemma_picked((n - 1) as nat, wanted);
        assert(upto.drop_last() =~= before);
        assert(upto =~= before.push(line));
        assert(upto.last() == line);
        lemma_heading_is_no_fence(line);
        assert(below(front, before.len() as int));
        if wanted(n - 1) {
            lemma_shaped_opened(before, rest, front, line);
        } else {
            lemma_shaped_extended(before, rest, front, line);
        }
    }
}

/// Reading a summary cuts it, line by line, before each heading outside fenced code, and loses
/// nothing.
pub proof fn law_sections_are_the_lines_cut_at_headings(summary: Seq<char>) -> (cuts: Seq<int>)
    ensures
        cut_at(text::lines(summary), merge::sections(summary), cuts),
{
    let lines = text::lines(summary);
    let wanted = |k: int| opens(lines, k);
    lemma_outline_shaped(lines, lines.len(), wanted);
    text_laws::lemma_picked(lines.len(), wanted);
    assert(lines.take(lines.len() as int) =~= lines);
    text_laws::picked(lines.len(), wanted)
}

/// The sections written out again: for each one its heading, where it has one, and its lines.
pub open spec fn written(sections: Seq<SectionText>) -> Seq<Seq<char>>
    decreases sections.len(),
{
    if sections.len() == 0 {
        Seq::empty()
    } else {
        let last = sections.last();
        written(sections.drop_last()) + if last.heading.len() > 0 {
            seq![last.heading]
        } else {
            Seq::empty()
        } + last.lines
    }
}

proof fn lemma_written(
    lines: Seq<Seq<char>>,
    sections: Seq<SectionText>,
    cuts: Seq<int>,
    n: int,
)
    requires
        cut_at(lines, sections, cuts),
        0 < n <= sections.len(),
    ensures
        ({
            let end = if n == sections.len() {
                lines.len() as int
            } else {
                cuts[n - 1]
            };
            let out = written(sections.take(n));
            &&& 0 <= end <= lines.len()
            &&& out.len() == end
            &&& forall|k: int|
                0 <= k < end ==> #[trigger] out[k] == if opens(lines, k) {
                    text::trimmed(lines[k])
                } else {
                    lines[k]
                }
        }),
    decreases n,
{
    let part = sections.take(n);
    let last = sections[n - 1];
    let end = if n == sections.len() {
        lines.len() as int
    } else {
        cuts[n - 1]
    };
    let from = if n == 1 {
        0
    } else {
        cuts[n - 2] + 1
    };
    assert(part.drop_last() =~= sections.take(n - 1));
    assert(part.last() == last);
    assert(last.lines == lines.subrange(from, end));
    if n < sections.len() {
        assert(0 <= cuts[n - 1] < lines.len());
        if n > 1 {
            assert(cuts[n - 2] < cuts[n - 1]);
        }
    } else if n > 1 {
        assert(0 <= cuts[n - 2] < lines.len());
    }
    let out = written(part);
    let wanted = |k: int| opens(lines, k);
    assert forall|k: int| from <= k < end implies !#[trigger] opens(lines, k) by {
        if opens(lines, k) {
            assert(wanted(k));
            let q = choose|q: int| 0 <= q < cuts.len() && cuts[q] == k;
            if q < n - 1 {
                if q < n - 2 {
                    assert(cuts[q] < cuts[n - 2]);
                }
            } else if q > n - 1 {
                assert(cuts[n - 1] < cuts[q]);
            }
        }
    }
    if n == 1 {
        assert(written(part.drop_last()) =~= Seq::empty());
        assert(out =~= last.lines);
        assert forall|k: int| 0 <= k < end implies #[trigger] out[k] == if opens(lines, k) {
            text::trimmed(lines[k])
        } else {
            lines[k]
        } by {
            assert(!opens(lines, k));
        }
    } else {
        lemma_written(lines, sections, cuts, n - 1);
        let c = cuts[n - 2];
        assert(wanted(c));
        assert(opens(lines, c));
        assert(sections[n - 1].heading == text::trimmed(lines[c]));
        lemma_heading_has_text(lines[c]);
        let rest = written(sections.take(n - 1));
        assert(out =~= rest.push(last.heading) + last.lines);
        assert forall|k: int| 0 <= k < end implies #[trigger] out[k] == if opens(lines, k) {
            text::trimmed(lines[k])
        } else {
            lines[k]
        } by {
            if k < c {
                assert(out[k] == rest[k]);
            } else if k > c {
                assert(!opens(lines, k));
                assert(out[k] == last.lines[k - c - 1]);
            }
        }
    }
}

proof fn lemma_heading_has_text(line: Seq<char>)
    requires
        merge::is_heading(line),
    ensures
        text::trimmed(line).len() > 0,
{
    lemma_sign_is_not_white();
    lemma_hashes_are_hashes(line);
    lemma_not_all_white(line);
    assert(line[0] == '#');
    assert(!text::white_space(line[0]));
}

/// No line of a summary is lost: the sections, written out again, give all its lines in order,
/// those that open sections trimmed and all others as they are.
pub proof fn law_reading_sections_loses_no_line(summary: Seq<char>)
    ensures
        written(merge::sections(summary)).len() == text::lines(summary).len(),
        forall|k: int|
            0 <= k < text::lines(summary).len() ==> #[trigger] written(
                merge::sections(summary),
            )[k] == if opens(text::lines(summary), k) {
                text::trimmed(text::lines(summary)[k])
            } else {
                text::lines(summary)[k]
            },
{
    let lines = text::lines(summary);
    let all = merge::sections(summary);
    let cuts = law_sections_are_the_lines_cut_at_headings(summary);
    lemma_written(lines, all, cuts, all.len() as int);
    assert(all.take(all.len() as int) =~= all);
}

/// The sections of several summaries are those of each, one summary after the other.
pub proof fn law_sections_follow_the_order_of_the_slices(
    a: Seq<Seq<char>>,
    one: Seq<char>,
    b: Seq<Seq<char>>,
)
    ensures
        merge::all_sections(Seq::empty()) == Seq::<SectionText>::empty(),
        merge::all_sections(a + seq![one] + b) == merge::all_sections(a) + merge::sections(one)
            + merge::all_sections(b),
    decreases b.len(),
{
    let list = a + seq![one] + b;
    if b.len() == 0 {
        assert(list.drop_last() =~= a);
        assert(list.last() == one);
        assert(merge::all_sections(list) =~= merge::all_sections(a) + merge::sections(one)
            + merge::all_sections(b));
    } else {
        law_sections_follow_the_order_of_the_slices(a, one, b.drop_last());
        assert(list.drop_last() =~= a + seq![one] + b.drop_last());
        assert(list.last() == b.last());
        assert(merge::all_sections(list) =~= merge::all_sections(a) + merge::sections(one)
            + merge::all_sections(b));
    }
}

/// Where in the lines of a summary a line that opens no section has gone.
proof fn lemma_line_has_a_section(
    lines: Seq<Seq<char>>,
    sections: Seq<SectionText>,
    cuts: Seq<int>,
    k: int,
) -> (at: (int, int))
    requires
        cut_at(lines, sections, cuts),
        0 <= k < lines.len(),
        !opens(lines, k),
    ensures
        0 <= at.0 < sections.len(),
        0 <= at.1 < sections[at.0].lines.len(),
        sections[at.0].lines[at.1] == lines[k],
{
    let p = lemma_cut_before(lines, cuts, k, cuts.len() as int);
    let from = if p == 0 {
        0
    } else {
        cuts[p - 1] + 1
    };
    let to = if p == cuts.len() {
        lines.len() as int
    } else {
        cuts[p]
    };
    assert(sections[p].lines == lines.subrange(from, to));
    assert(sections[p].lines[k - from] == lines[k]);
    (p, k - from)
}

proof fn lemma_cut_before(lines: Seq<Seq<char>>, cuts: Seq<int>, k: int, n: int) -> (p: int)
    requires
        text_laws::picks_out(cuts, lines.len(), |k: int| opens(lines, k)),
        0 <= k < lines.len(),
        !opens(lines, k),
        0 <= n <= cuts.len(),
        n < cuts.len() ==> k < cuts[n],
    ensures
        0 <= p <= cuts.len(),
        p > 0 ==> cuts[p - 1] < k,
        p < cuts.len() ==> k < cuts[p],
    decreases n,
{
    let wanted = |k: int| opens(lines, k);
    if n == 0 {
        0
    } else {
        assert(wanted(cuts[n - 1]));
        assert(opens(lines, cuts[n - 1]));
        if cuts[n - 1] < k {
            n
        } else {
            lemma_cut_before(lines, cuts, k, n - 1)
        }
    }
}

/// Every line of every slice that opens no section stands in the merged summary, trimmed.
pub proof fn law_merging_keeps_every_line(slices: Seq<Seq<char>>, i: int, k: int)
    requires
        0 <= i < slices.len(),
        0 <= k < text::lines(slices[i]).len(),
        !opens(text::lines(slices[i]), k),
    ensures
        text::occurs_in(text::trimmed(text::lines(slices[i])[k]), merge::merged(slices)),
{
    let lines = text::lines(slices[i]);
    let line = text::trimmed(lines[k]);
    let out = merge::merged(slices);
    if line.len() == 0 {
        assert(out.subrange(0, 0) =~= line);
        assert(text::stands_at(line, out, 0));
    } else {
        let cuts = law_sections_are_the_lines_cut_at_headings(slices[i]);
        let here = merge::sections(slices[i]);
        let (p, q) = lemma_line_has_a_section(lines, here, cuts, k);
        let a = slices.take(i);
        let b = slices.skip(i + 1);
        assert(slices =~= a + seq![slices[i]] + b);
        law_sections_follow_the_order_of_the_slices(a, slices[i], b);
        let all = merge::all_sections(slices);
        let at = merge::all_sections(a).len() + p;
        assert(all[at] == here[p]);
        let joined = text::join(here[p].lines, text::line_feed());
        text::lemma_trimmed_snug(lines[k]);
        text::lemma_join_holds(here[p].lines, text::line_feed(), q);
        let (x, y) = text_laws::law_trimming_takes_off_white_space(lines[k]);
        assert(text::stands_at(line, lines[k], x));
        text::lemma_occurs_in_transitive(line, lines[k], joined);
        text_laws::lemma_occurs_in_trimmed(line, joined);
        merge::law_merging_keeps_what_is_said(slices, at);
        text::lemma_occurs_in_transitive(line, merge::body(all[at]), out);
    }
}

/// What a section says is its lines, joined by line feeds, without the white space at either end.
pub proof fn law_a_section_says_its_lines(section: SectionText) -> (ends: (int, int))
    ensures
        text_laws::is_core(
            merge::body(section),
            text::join(section.lines, seq!['\n']),
            ends.0,
            ends.1,
        ),
{
    text_laws::law_trimming_takes_off_white_space(text::join(section.lines, seq!['\n']))
}

/// Whether `all[i]` is the first section under its heading, and some section under that heading
/// says something.
pub open spec fn leads(all: Seq<SectionText>, i: int) -> bool {
    &&& forall|j: int|
        0 <= j < i ==> merge::section_key((#[trigger] all[j]).heading) != merge::section_key(
            all[i].heading,
        )
    &&& exists|m: int| 0 <= m < all.len() && #[trigger] speaks_for(all, m, i)
}

/// Whether `all[m]` belongs under the heading of `all[i]` and says something.
pub open spec fn speaks_for(all: Seq<SectionText>, m: int, i: int) -> bool {
    merge::section_key(all[m].heading) == merge::section_key(all[i].heading) && merge::body(
        all[m],
    ).len() > 0
}

/// Whether `out` is `all` merged: the sections that lead, in order, each with its heading, where
/// it has one, and then all that the sections under that heading say, in order; a blank line
/// between each two neighbours.
pub open spec fn merges(
    all: Seq<SectionText>,
    leaders: Seq<int>,
    speakers: Seq<Seq<int>>,
    out: Seq<char>,
) -> bool {
    &&& text_laws::picks_out(leaders, all.len(), |i: int| leads(all, i))
    &&& speakers.len() == leaders.len()
    &&& forall|p: int|
        0 <= p < leaders.len() ==> text_laws::picks_out(
            #[trigger] speakers[p],
            all.len(),
            |m: int| speaks_for(all, m, leaders[p]),
        )
    &&& out == text::join(
        Seq::new(
            leaders.len(),
            |p: int|
                {
                    let said = text::join(
                        Seq::new(speakers[p].len(), |q: int| merge::body(all[speakers[p][q]])),
                        seq!['\n', '\n'],
                    );
                    if all[leaders[p]].heading.len() == 0 {
                        said
                    } else {
                        all[leaders[p]].heading + seq!['\n', '\n'] + said
                    }
                },
        ),
        seq!['\n', '\n'],
    )
}

proof fn lemma_bodies_picks(all: Seq<SectionText>, i: int, n: nat, wanted: spec_fn(int) -> bool)
    requires
        n <= all.len(),
        wanted == (|m: int| speaks_for(all, m, i)),
    ensures
        merge::bodies(all.take(n as int), merge::section_key(all[i].heading)) == text_laws::picked(
            n,
            wanted,
        ).map_values(|m: int| merge::body(all[m])),
    decreases n,
{
    let f = |m: int| merge::body(all[m]);
    if n > 0 {
        lemma_bodies_picks(all, i, (n - 1) as nat, wanted);
        let rest = text_laws::picked((n - 1) as nat, wanted);
        assert(all.take(n as int).drop_last() =~= all.take(n - 1));
        assert(all.take(n as int).last() == all[n - 1]);
        if wanted(n - 1) {
            assert(rest.push(n - 1).map_values(f) =~= rest.map_values(f).push(f(n - 1)));
        }
    } else {
        assert(text_laws::picked(0, wanted).map_values(f) =~= Seq::empty());
    }
}

proof fn lemma_leads(all: Seq<SectionText>, i: int)
    requires
        0 <= i < all.len(),
    ensures
        merge::opens_block(all, i) == leads(all, i),
{
    let wanted = |m: int| speaks_for(all, m, i);
    let picks = text_laws::picked(all.len(), wanted);
    text_laws::lemma_picked(all.len(), wanted);
    lemma_bodies_picks(all, i, all.len(), wanted);
    assert(all.take(all.len() as int) =~= all);
    let list = merge::bodies(all, merge::section_key(all[i].heading));
    assert(list.len() == picks.len());
    if picks.len() > 0 {
        assert(wanted(picks[0]));
        assert(speaks_for(all, picks[0], i));
    }
    if exists|m: int| 0 <= m < all.len() && #[trigger] speaks_for(all, m, i) {
        let m = choose|m: int| 0 <= m < all.len() && #[trigger] speaks_for(all, m, i);
        assert(wanted(m));
        assert(picks.contains(m));
    }
}

proof fn lemma_blocks_picks(all: Seq<SectionText>, n: nat, wanted: spec_fn(int) -> bool)
    requires
        n <= all.len(),
        wanted == (|i: int| leads(all, i)),
    ensures
        merge::blocks(all, n) == text_laws::picked(n, wanted).map_values(
            |i: int| merge::block(all, i),
        ),
    decreases n,
{
    let f = |i: int| merge::block(all, i);
    if n > 0 {
        lemma_blocks_picks(all, (n - 1) as nat, wanted);
        lemma_leads(all, n - 1);
        let rest = text_laws::picked((n - 1) as nat, wanted);
        if wanted(n - 1) {
            assert(rest.push(n - 1).map_values(f) =~= rest.map_values(f).push(f(n - 1)));
        }
    } else {
        assert(text_laws::picked(0, wanted).map_values(f) =~= Seq::empty());
    }
}

/// The merged summary is made of every section that says something and of nothing else: each
/// heading once, where it first stands, and under it all that is said under it, in order.
pub proof fn law_merging_collects_what_is_said_under_each_heading(slices: Seq<Seq<char>>) -> (picks:
    (Seq<int>, Seq<Seq<int>>))
    ensures
        merges(merge::all_sections(slices), picks.0, picks.1, merge::merged(slices)),
{
    let all = merge::all_sections(slices);
    let wanted = |i: int| leads(all, i);
    let leaders = text_laws::picked(all.len(), wanted);
    text_laws::lemma_picked(all.len(), wanted);
    lemma_blocks_picks(all, all.len(), wanted);
    let speakers = Seq::new(
        leaders.len(),
        |p: int| text_laws::picked(all.len(), |m: int| speaks_for(all, m, leaders[p])),
    );
    assert(all.take(all.len() as int) =~= all);
    assert forall|p: int| 0 <= p < leaders.len() implies text_laws::picks_out(
        #[trigger] speakers[p],
        all.len(),
        |m: int| speaks_for(all, m, leaders[p]),
    ) by {
        text_laws::lemma_picked(all.len(), |m: int| speaks_for(all, m, leaders[p]));
    }
    let parts = Seq::new(
        leaders.len(),
        |p: int|
            {
                let said = text::join(
                    Seq::new(speakers[p].len(), |q: int| merge::body(all[speakers[p][q]])),
                    seq!['\n', '\n'],
                );
                if all[leaders[p]].heading.len() == 0 {
                    said
                } else {
                    all[leaders[p]].heading + seq!['\n', '\n'] + said
                }
            },
    );
    assert(merge::blocks(all, all.len()) =~= parts) by {
        assert forall|p: int| 0 <= p < leaders.len() implies #[trigger] parts[p] == merge::block(
            all,
            leaders[p],
        ) by {
            let i = leaders[p];
            let w = |m: int| speaks_for(all, m, leaders[p]);
            lemma_bodies_picks(all, i, all.len(), w);
            assert(Seq::new(speakers[p].len(), |q: int| merge::body(all[speakers[p][q]]))
                =~= merge::bodies(all, merge::section_key(all[i].heading)));
        }
    }
    (leaders, speakers)
}

/// The title of a heading is what follows its number signs, trimmed.
pub proof fn law_titles_follow_the_signs(n: nat, rest: Seq<char>)
    requires
        rest.len() > 0 ==> rest[0] != '#',
    ensures
        merge::title(Seq::new(n, |k: int| '#') + rest) == text::trimmed(rest),
{
    let line = Seq::new(n, |k: int| '#') + rest;
    lemma_hashes_count(line, n as int);
    assert(line.skip(n as int) =~= rest);
}

/// A name without its colons is the name up to the last character that is neither a colon nor
/// white space.
pub proof fn law_closing_colons_are_left_out(name: Seq<char>) -> (j: int)
    ensures
        0 <= j <= name.len(),
        merge::without_colons(name) == name.take(j),
        forall|k: int|
            j <= k < name.len() ==> #[trigger] name[k] == ':' || text::white_space(name[k]),
        j > 0 ==> name[j - 1] != ':' && !text::white_space(name[j - 1]),
    decreases name.len(),
{
    if name.len() > 0 && (name.last() == ':' || text::white_space(name.last())) {
        let t = name.drop_last();
        let j = law_closing_colons_are_left_out(t);
        assert(t.take(j) =~= name.take(j));
        assert forall|k: int| j <= k < name.len() implies #[trigger] name[k] == ':'
            || text::white_space(name[k]) by {
            if k < t.len() {
                assert(t[k] == name[k]);
            }
        }
        j
    } else {
        assert(name.take(name.len() as int) =~= name);
        name.len() as int
    }
}

/// Two headings belong to one section exactly if their titles are the same but for ASCII capitals
/// and closing colons; what has no heading belongs together and to nothing else.
pub proof fn law_restyled_headings_belong_together(a: Seq<char>, b: Seq<char>)
    ensures
        merge::section_key(a) == merge::section_key(b) <==> ((a.len() == 0 && b.len() == 0) || (
        a.len() > 0 && b.len() > 0 && text::lowered(merge::without_colons(merge::title(a)))
            == text::lowered(merge::without_colons(merge::title(b))))),
{
    let x = text::lowered(merge::without_colons(merge::title(a)));
    let y = text::lowered(merge::without_colons(merge::title(b)));
    if a.len() > 0 && b.len() > 0 && merge::section_key(a) == merge::section_key(b) {
        assert((seq!['#'] + x).skip(1) =~= x);
        assert((seq!['#'] + y).skip(1) =~= y);
    }
    if a.len() > 0 {
        assert(merge::section_key(a).len() > 0);
    }
    if b.len() > 0 {
        assert(merge::section_key(b).len() > 0);
    }
}

/// The level of a heading, a closing colon and ASCII capitals make no other section of it.
pub proof fn law_level_colon_and_capitals_do_not_matter(
    n: nat,
    m: nat,
    space: char,
    title: Seq<char>,
)
    requires
        n > 0,
        m > 0,
        text::white_space(space),
    ensures
        ({
            let heading = Seq::new(n, |k: int| '#') + seq![space] + title;
            let other = Seq::new(m, |k: int| '#') + seq![space] + text::lowered(title) + seq![':'];
            merge::section_key(heading) == merge::section_key(other)
        }),
{
    let low = text::lowered(title);
    let heading = Seq::new(n, |k: int| '#') + seq![space] + title;
    let other = Seq::new(m, |k: int| '#') + seq![space] + low + seq![':'];
    let a = seq![space] + title;
    let b = seq![space] + low + seq![':'];
    lemma_sign_is_not_white();
    assert(heading =~= Seq::new(n, |k: int| '#') + a);
    assert(other =~= Seq::new(m, |k: int| '#') + b);
    law_titles_follow_the_signs(n, a);
    law_titles_follow_the_signs(m, b);
    lemma_stems(a, b, space, title);
}

/// What is left of a text once white space is taken off its start and colons and white space off
/// its end.
proof fn lemma_stem(s: Seq<char>) -> (ends: (int, int))
    ensures
        0 <= ends.0 <= ends.1 <= s.len(),
        merge::without_colons(text::trimmed(s)) == s.subrange(ends.0, ends.1),
        forall|k: int| 0 <= k < ends.0 ==> text::white_space(#[trigger] s[k]),
        forall|k: int|
            ends.1 <= k < s.len() ==> #[trigger] s[k] == ':' || text::white_space(s[k]),
        ends.0 < ends.1 ==> !text::white_space(s[ends.0]),
        ends.0 < ends.1 ==> s[ends.1 - 1] != ':' && !text::white_space(s[ends.1 - 1]),
{
    let (i, j) = text_laws::law_trimming_takes_off_white_space(s);
    let t = text::trimmed(s);
    let l = law_closing_colons_are_left_out(t);
    assert(t.take(l) =~= s.subrange(i, i + l));
    assert forall|k: int| i + l <= k < s.len() implies #[trigger] s[k] == ':'
        || text::white_space(s[k]) by {
        if k < j {
            assert(t[k - i] == s[k]);
        }
    }
    if l > 0 {
        assert(t[0] == s[i]);
        assert(t[l - 1] == s[i + l - 1]);
    }
    (i, i + l)
}

proof fn lemma_lowering_keeps_signs(c: char)
    ensures
        text::ascii_lower(c) == ':' <==> c == ':',
        text::white_space(text::ascii_lower(c)) == text::white_space(c),
        text::ascii_lower(text::ascii_lower(c)) == text::ascii_lower(c),
{
    let n = c as u32;
    assert(n as int == c as int);
    if 0x41 <= n <= 0x5a {
        let d = (n + 0x20) as char;
        assert(d as int == n + 0x20);
        assert(d as u32 as int == n + 0x20);
    }
}

proof fn lemma_stems(a: Seq<char>, b: Seq<char>, space: char, title: Seq<char>)
    requires
        text::white_space(space),
        a == seq![space] + title,
        b == seq![space] + text::lowered(title) + seq![':'],
    ensures
        text::lowered(merge::without_colons(text::trimmed(a))) == text::lowered(
            merge::without_colons(text::trimmed(b)),
        ),
{
    let low = text::lowered(title);
    let (i, j) = lemma_stem(a);
    let (k, l) = lemma_stem(b);
    lemma_sign_is_not_white();
    assert forall|x: int| 0 <= x < a.len() implies {
        &&& (#[trigger] a[x] == ':' <==> b[x] == ':')
        &&& text::white_space(a[x]) == text::white_space(b[x])
        &&& text::ascii_lower(a[x]) == text::ascii_lower(b[x])
    } by {
        if x > 0 {
            lemma_lowering_keeps_signs(title[x - 1]);
            assert(b[x] == low[x - 1]);
            assert(low[x - 1] == text::ascii_lower(title[x - 1]));
        }
    }
    assert(b[a.len() as int] == ':');
    let p = text::lowered(a.subrange(i, j));
    let q = text::lowered(b.subrange(k, l));
    if i < j {
        assert(text::white_space(a[i]) == false);
        assert(!text::white_space(b[i]));
        assert(b[j - 1] != ':' && !text::white_space(b[j - 1])) by {
            assert(a[j - 1] != ':' && !text::white_space(a[j - 1]));
        }
        assert(k <= i) by {
            if i < k {
                assert(text::white_space(b[i]));
            }
        }
        assert(j <= l) by {
            if l < j {
                assert(b[j - 1] == ':' || text::white_space(b[j - 1]));
            }
        }
        assert(l <= a.len());
        assert(i <= k) by {
            if k < i {
                assert(text::white_space(a[k]));
            }
        }
        assert(l <= j) by {
            if j < l {
                assert(a[l - 1] == ':' || text::white_space(a[l - 1]));
            }
        }
        assert(p =~= q);
    } else if k < l {
        assert(b[l - 1] != ':' && !text::white_space(b[l - 1]));
        assert(l <= a.len());
        assert(a[l - 1] != ':' && !text::white_space(a[l - 1]));
        assert(!text::white_space(a[k])) by {
            assert(!text::white_space(b[k]));
        }
        if l - 1 < i {
            assert(text::white_space(a[l - 1]));
        } else {
            assert(a[l - 1] == ':' || text::white_space(a[l - 1]));
        }
    } else {
        assert(p =~= q);
    }
}

/// A section is told by its heading and its lines, and a list of sections one by one.
pub proof fn law_sections_are_told_by_their_parts(
    section: merge::Section,
    list: Seq<merge::Section>,
)
    ensures
        section@.heading == section.heading@,
        section@.lines.len() == section.lines@.len(),
        forall|i: int|
            0 <= i < section.lines@.len() ==> #[trigger] section@.lines[i] == section.lines@[i]@,
        merge::section_texts(list).len() == list.len(),
        forall|i: int|
            0 <= i < list.len() ==> #[trigger] merge::section_texts(list)[i] == list[i]@,
{
}

} // verus!
