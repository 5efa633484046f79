//! Merging the summaries of successive slices section by section.
//!
//! Each slice summary follows the same template of headings. The merged summary holds every
//! heading once, in the order in which the headings first appear, and under it what the slices
//! had to say there, oldest first.

use vstd::prelude::*;
use vstd::string::*;

use crate::summaries;
use crate::text;
use crate::text::{
    chars_of, is_white_space, join_texts, lowercase, same_text, split_lines, text_of, trim,
};

verus! {

/// A stretch of a summary: the heading that opens it, empty for the text before the first
/// heading, and the lines under it.
pub struct Section {
    pub heading: String,
    pub lines: Vec<String>,
}

/// What a `Section` holds.
pub struct SectionText {
    pub heading: Seq<char>,
    pub lines: Seq<Seq<char>>,
}

impl View for Section {
    type V = SectionText;

    open spec fn view(&self) -> SectionText {
        SectionText { heading: self.heading@, lines: text::texts(self.lines@) }
    }
}

/// What a list of sections holds.
pub open spec fn section_texts(list: Seq<Section>) -> Seq<SectionText> {
    Seq::new(list.len(), |i: int| list[i]@)
}

/// How many number signs `s` starts with.
pub open spec fn hashes(s: Seq<char>) -> nat
    decreases s.len(),
{
    if s.len() > 0 && s[0] == '#' {
        1 + hashes(s.subrange(1, s.len() as int))
    } else {
        0
    }
}

/// What stands behind the number signs of a heading.
pub open spec fn title(s: Seq<char>) -> Seq<char> {
    text::trimmed(s.skip(hashes(s) as int))
}

/// Whether `line` is a heading: one to six number signs at the start of the line, white space
/// and a title.
pub open spec fn is_heading(line: Seq<char>) -> bool {
    let n = hashes(line);
    &&& 1 <= n <= 6
    &&& n < line.len()
    &&& text::white_space(line[n as int])
    &&& title(line).len() > 0
}

/// Whether `line` opens or closes fenced code: three backticks, however far indented.
pub open spec fn is_fence(line: Seq<char>) -> bool {
    let start = text::trim_start(line);
    start.len() >= 3 && start[0] == '`' && start[1] == '`' && start[2] == '`'
}

/// `s` without the colons and white space at its end.
pub open spec fn without_colons(s: Seq<char>) -> Seq<char>
    decreases s.len(),
{
    if s.len() > 0 && (s.last() == ':' || text::white_space(s.last())) {
        without_colons(s.drop_last())
    } else {
        s
    }
}

/// What two headings of one section have in common: the title without regard to its level, to
/// capitals or to a colon at its end. The text before the first heading has the empty key.
pub open spec fn section_key(heading: Seq<char>) -> Seq<char> {
    if heading.len() == 0 {
        Seq::empty()
    } else {
        seq!['#'] + text::lowered(without_colons(title(heading)))
    }
}

/// How far a summary has been read: whether the next line lies in fenced code, and the sections
/// so far.
pub struct Outline {
    pub fenced: bool,
    pub sections: Seq<SectionText>,
}

/// `sections` with `line` added to the last one.
pub open spec fn extended(sections: Seq<SectionText>, line: Seq<char>) -> Seq<SectionText> {
    let last = sections.last();
    sections.drop_last().push(
        SectionText { heading: last.heading, lines: last.lines.push(line) },
    )
}

/// The sections of a summary given by its lines. The first one holds what comes before the
/// first heading. Number signs in fenced code open no section.
pub open spec fn outline(lines: Seq<Seq<char>>) -> Outline
    decreases lines.len(),
{
    if lines.len() == 0 {
        Outline {
            fenced: false,
            sections: seq![SectionText { heading: Seq::empty(), lines: Seq::empty() }],
        }
    } else {
        let rest = outline(lines.drop_last());
        let line = lines.last();
        if is_fence(line) {
            Outline { fenced: !rest.fenced, sections: extended(rest.sections, line) }
        } else if !rest.fenced && is_heading(line) {
            Outline {
                fenced: false,
                sections: rest.sections.push(
                    SectionText { heading: text::trimmed(line), lines: Seq::empty() },
                ),
            }
        } else {
            Outline { fenced: rest.fenced, sections: extended(rest.sections, line) }
        }
    }
}

/// The sections of one summary.
pub open spec fn sections(summary: Seq<char>) -> Seq<SectionText> {
    outline(text::lines(summary)).sections
}

/// The sections of several summaries, one summary after the other.
pub open spec fn all_sections(summaries: Seq<Seq<char>>) -> Seq<SectionText>
    decreases summaries.len(),
{
    if summaries.len() == 0 {
        Seq::empty()
    } else {
        all_sections(summaries.drop_last()) + sections(summaries.last())
    }
}

/// What a section says.
pub open spec fn body(section: SectionText) -> Seq<char> {
    text::trimmed(text::join(section.lines, text::line_feed()))
}

/// What the sections with the given key say, in order, the empty ones left out.
pub open spec fn bodies(all: Seq<SectionText>, key: Seq<char>) -> Seq<Seq<char>>
    decreases all.len(),
{
    if all.len() == 0 {
        Seq::empty()
    } else {
        let rest = bodies(all.drop_last(), key);
        let said = body(all.last());
        if section_key(all.last().heading) == key && said.len() > 0 {
            rest.push(said)
        } else {
            rest
        }
    }
}

/// Whether no section before `all[i]` has its key.
pub open spec fn is_first(all: Seq<SectionText>, i: int) -> bool {
    forall|j: int|
        0 <= j < i ==> section_key((#[trigger] all[j]).heading) != section_key(all[i].heading)
}

/// The merged section that `all[i]` opens.
pub open spec fn block(all: Seq<SectionText>, i: int) -> Seq<char> {
    let said = text::join(
        bodies(all, section_key(all[i].heading)),
        summaries::paragraph_break(),
    );
    if all[i].heading.len() == 0 {
        said
    } else {
        all[i].heading + summaries::paragraph_break() + said
    }
}

/// Whether `all[i]` opens a merged section: it is the first of its key, and some section of
/// that key says something.
pub open spec fn opens_block(all: Seq<SectionText>, i: int) -> bool {
    is_first(all, i) && bodies(all, section_key(all[i].heading)).len() > 0
}

/// The merged sections that the first `n` sections open.
pub open spec fn blocks(all: Seq<SectionText>, n: nat) -> Seq<Seq<char>>
    decreases n,
{
    if n == 0 {
        Seq::empty()
    } else {
        let rest = blocks(all, (n - 1) as nat);
        if opens_block(all, n - 1) {
            rest.push(block(all, n - 1))
        } else {
            rest
        }
    }
}

/// The summaries merged section by section.
pub open spec fn merged(summaries: Seq<Seq<char>>) -> Seq<char> {
    let all = all_sections(summaries);
    text::join(blocks(all, all.len()), summaries::paragraph_break())
}

proof fn lemma_hashes_step(s: Seq<char>, i: int)
    requires
        0 <= i <= s.len(),
    ensures
        i < s.len() && s[i] == '#' ==> hashes(s.subrange(i, s.len() as int)) == 1 + hashes(
            s.subrange(i + 1, s.len() as int),
        ),
        !(i < s.len() && s[i] == '#') ==> hashes(s.subrange(i, s.len() as int)) == 0,
{
    let t = s.subrange(i, s.len() as int);
    if i < s.len() && s[i] == '#' {
        assert(t.subrange(1, t.len() as int) =~= s.subrange(i + 1, s.len() as int));
    }
}

fn count_hashes(chars: &Vec<char>) -> (n: usize)
    ensures
        n == hashes(chars@),
        n <= chars@.len(),
{
    let mut i: usize = 0;
    assert(chars@.subrange(0, chars@.len() as int) =~= chars@);
    while i < chars.len() && chars[i] == '#'
        invariant
            i <= chars@.len(),
            hashes(chars@) == i + hashes(chars@.subrange(i as int, chars@.len() as int)),
        decreases chars@.len() - i,
    {
        proof {
            lemma_hashes_step(chars@, i as int);
        }
        i += 1;
    }
    proof {
        lemma_hashes_step(chars@, i as int);
    }
    i
}

fn title_of(chars: &Vec<char>) -> (out: String)
    ensures
        out@ == title(chars@),
{
    let n: usize = count_hashes(chars);
    let tail = text_of(chars, n, chars.len());
    assert(tail@ =~= chars@.skip(n as int));
    trim(tail.as_str())
}

/// Whether `line` is a heading.
pub fn opens_section(line: &str) -> (yes: bool)
    ensures
        yes == is_heading(line@),
{
    let chars = chars_of(line);
    let n: usize = count_hashes(&chars);
    if n < 1 || n > 6 || n >= chars.len() || !is_white_space(chars[n]) {
        return false;
    }
    !title_of(&chars).as_str().is_empty()
}

proof fn lemma_trim_start_at(s: Seq<char>, i: int)
    requires
        0 <= i <= s.len(),
        forall|k: int| 0 <= k < i ==> text::white_space(#[trigger] s[k]),
        i < s.len() ==> !text::white_space(s[i]),
    ensures
        text::trim_start(s) == s.subrange(i, s.len() as int),
    decreases i,
{
    if i == 0 {
        assert(s.subrange(0, s.len() as int) =~= s);
    } else {
        let t = s.subrange(1, s.len() as int);
        assert(text::white_space(s[0]));
        lemma_trim_start_at(t, i - 1);
        assert(t.subrange(i - 1, t.len() as int) =~= s.subrange(i, s.len() as int));
    }
}

/// Whether `line` opens or closes fenced code.
pub fn toggles_fence(line: &str) -> (yes: bool)
    ensures
        yes == is_fence(line@),
{
    let chars = chars_of(line);
    let mut i: usize = 0;
    while i < chars.len() && is_white_space(chars[i])
        invariant
            i <= chars@.len(),
            forall|k: int| 0 <= k < i ==> text::white_space(#[trigger] chars@[k]),
        decreases chars@.len() - i,
    {
        i += 1;
    }
    proof {
        lemma_trim_start_at(chars@, i as int);
    }
    chars.len() - i >= 3 && chars[i] == '`' && chars[i + 1] == '`' && chars[i + 2] == '`'
}

fn key_of(heading: &str) -> (out: String)
    ensures
        out@ == section_key(heading@),
{
    if heading.is_empty() {
        return String::new();
    }
    let chars = chars_of(heading);
    let name = chars_of(title_of(&chars).as_str());
    let mut to: usize = name.len();
    assert(name@.take(to as int) =~= name@);
    while to > 0 && (name[to - 1] == ':' || is_white_space(name[to - 1]))
        invariant
            to <= name@.len(),
            without_colons(name@.take(to as int)) == without_colons(name@),
        decreases to,
    {
        assert(name@.take(to as int).drop_last() =~= name@.take(to - 1));
        to -= 1;
    }
    let stem = text_of(&name, 0, to);
    assert(stem@ =~= name@.take(to as int));
    let mut out = String::new();
    out.push('#');
    out.append(lowercase(stem.as_str()).as_str());
    assert(out@ =~= section_key(heading@));
    out
}

/// The sections of one summary.
pub fn read_sections(summary: &str) -> (out: Vec<Section>)
    ensures
        section_texts(out@) == sections(summary@),
{
    let rows = split_lines(summary);
    let mut out: Vec<Section> = Vec::new();
    let mut heading = String::new();
    let mut lines: Vec<String> = Vec::new();
    let mut fenced: bool = false;
    let mut i: usize = 0;
    let ghost all = text::lines(summary@);
    assert(text::texts(lines@) =~= Seq::<Seq<char>>::empty());
    assert(section_texts(out@).push(
        SectionText { heading: heading@, lines: text::texts(lines@) },
    ) =~= outline(all.take(0)).sections);
    while i < rows.len()
        invariant
            all == text::texts(rows@),
            i <= rows@.len(),
            fenced == outline(all.take(i as int)).fenced,
            section_texts(out@).push(
                SectionText { heading: heading@, lines: text::texts(lines@) },
            ) == outline(all.take(i as int)).sections,
        decreases rows@.len() - i,
    {
        let ghost rest = outline(all.take(i as int)).sections;
        let ghost done = section_texts(out@);
        assert(all.take(i + 1).drop_last() =~= all.take(i as int));
        assert(all.take(i + 1).last() == rows@[i as int]@);
        assert(rest.drop_last() =~= done);
        let line = rows[i].clone();
        let fence = toggles_fence(line.as_str());
        if !fence && !fenced && opens_section(line.as_str()) {
            let section = Section { heading, lines };
            out.push(section);
            assert(section_texts(out@) =~= rest);
            heading = trim(line.as_str());
            lines = Vec::new();
            assert(text::texts(lines@) =~= Seq::<Seq<char>>::empty());
        } else {
            let ghost before = text::texts(lines@);
            let ghost added = line@;
            lines.push(line);
            assert(text::texts(lines@) =~= before.push(added));
            if fence {
                fenced = !fenced;
            }
        }
        i += 1;
        assert(section_texts(out@).push(
            SectionText { heading: heading@, lines: text::texts(lines@) },
        ) =~= outline(all.take(i as int)).sections);
    }
    assert(all.take(i as int) =~= all);
    let ghost done = section_texts(out@);
    let section = Section { heading, lines };
    let ghost last = section@;
    out.push(section);
    assert(section_texts(out@) =~= done.push(last));
    out
}

fn gather_sections(slices: &[&str]) -> (out: Vec<Section>)
    ensures
        section_texts(out@) == all_sections(summaries::strs(slices@)),
{
    let mut out: Vec<Section> = Vec::new();
    let mut i: usize = 0;
    let ghost all = summaries::strs(slices@);
    assert(section_texts(out@) =~= all_sections(all.take(0)));
    while i < slices.len()
        invariant
            all == summaries::strs(slices@),
            i <= slices@.len(),
            section_texts(out@) == all_sections(all.take(i as int)),
        decreases slices@.len() - i,
    {
        assert(all.take(i + 1).drop_last() =~= all.take(i as int));
        assert(all.take(i + 1).last() == slices@[i as int]@);
        let mut found = read_sections(slices[i]);
        let ghost before = section_texts(out@);
        let ghost added = section_texts(found@);
        out.append(&mut found);
        assert(section_texts(out@) =~= before + added);
        i += 1;
    }
    assert(all.take(i as int) =~= all);
    out
}

fn body_of(section: &Section) -> (out: String)
    ensures
        out@ == body(section@),
{
    proof {
        reveal_strlit("\n");
        assert("\n"@ =~= text::line_feed());
    }
    let joined = join_texts(&section.lines, "\n");
    trim(joined.as_str())
}

fn bodies_of(all: &Vec<Section>, key: &str) -> (out: Vec<String>)
    ensures
        text::texts(out@) == bodies(section_texts(all@), key@),
{
    let mut out: Vec<String> = Vec::new();
    let mut i: usize = 0;
    let ghost model = section_texts(all@);
    assert(text::texts(out@) =~= bodies(model.take(0), key@));
    while i < all.len()
        invariant
            model == section_texts(all@),
            i <= all@.len(),
            text::texts(out@) == bodies(model.take(i as int), key@),
        decreases all@.len() - i,
    {
        assert(model.take(i + 1).drop_last() =~= model.take(i as int));
        assert(model.take(i + 1).last() == all@[i as int]@);
        let said = body_of(&all[i]);
        let own = key_of(all[i].heading.as_str());
        if same_text(own.as_str(), key) && !said.as_str().is_empty() {
            let ghost before = text::texts(out@);
            let ghost added = said@;
            out.push(said);
            assert(text::texts(out@) =~= before.push(added));
        }
        i += 1;
    }
    assert(model.take(i as int) =~= model);
    out
}

fn is_first_of_key(all: &Vec<Section>, i: usize, key: &str) -> (yes: bool)
    requires
        i < all@.len(),
        key@ == section_key(all@[i as int].heading@),
    ensures
        yes == is_first(section_texts(all@), i as int),
{
    let ghost model = section_texts(all@);
    let mut j: usize = 0;
    while j < i
        invariant
            model == section_texts(all@),
            j <= i < all@.len(),
            key@ == section_key(model[i as int].heading),
            forall|k: int|
                0 <= k < j ==> section_key((#[trigger] model[k]).heading) != section_key(
                    model[i as int].heading,
                ),
        decreases i - j,
    {
        let other = key_of(all[j].heading.as_str());
        assert(other@ == section_key(model[j as int].heading));
        if same_text(other.as_str(), key) {
            return false;
        }
        j += 1;
    }
    true
}

/// Merges the summaries of successive slices. The text before the first heading of each slice
/// comes first. Then each heading stands once, as it was first written and in the order of first
/// appearance, followed by what the slices say under it, oldest first. Headings are taken for
/// the same whatever their level, capitals or closing colon. A section about which no slice says
/// anything is left out, and number signs in fenced code are no headings.
pub fn merge_slice_summaries(slices: &[&str]) -> (out: String)
    ensures
        out@ == merged(summaries::strs(slices@)),
{
    let all = gather_sections(slices);
    let ghost model = section_texts(all@);
    let mut parts: Vec<String> = Vec::new();
    let mut i: usize = 0;
    proof {
        reveal_strlit("\n\n");
        assert("\n\n"@ =~= summaries::paragraph_break());
    }
    assert(text::texts(parts@) =~= blocks(model, 0));
    while i < all.len()
        invariant
            model == section_texts(all@),
            "\n\n"@ == summaries::paragraph_break(),
            i <= all@.len(),
            text::texts(parts@) == blocks(model, i as nat),
        decreases all@.len() - i,
    {
        let key = key_of(all[i].heading.as_str());
        assert(model[i as int].heading == all@[i as int].heading@);
        if is_first_of_key(&all, i, key.as_str()) {
            let said = bodies_of(&all, key.as_str());
            if said.len() > 0 {
                let mut part = all[i].heading.clone();
                if !part.as_str().is_empty() {
                    part.append("\n\n");
                }
                part.append(join_texts(&said, "\n\n").as_str());
                assert(part@ =~= block(model, i as int));
                let ghost before = text::texts(parts@);
                let ghost added = part@;
                parts.push(part);
                assert(text::texts(parts@) =~= before.push(added));
            } else {
                assert(bodies(model, section_key(model[i as int].heading)).len() == 0);
            }
        }
        i += 1;
    }
    join_texts(&parts, "\n\n")
}

/// Whether a summary has a heading outside fenced code.
pub open spec fn has_heading(summary: Seq<char>) -> bool {
    sections(summary).len() > 1
}

proof fn lemma_outline_grows(lines: Seq<Seq<char>>)
    ensures
        outline(lines).sections.len() >= 1,
        outline(lines).sections[0].heading.len() == 0,
        forall|i: int|
            1 <= i < outline(lines).sections.len() ==> (#[trigger] outline(
                lines,
            ).sections[i]).heading.len() > 0,
        outline(lines).sections.len() == 1 ==> outline(lines).sections[0].lines == lines,
    decreases lines.len(),
{
    if lines.len() == 0 {
        assert(outline(lines).sections[0].lines =~= lines);
    } else {
        lemma_outline_grows(lines.drop_last());
        let line = lines.last();
        if is_heading(line) {
            lemma_heading_stays(line);
        }
        assert(lines.drop_last().push(lines.last()) =~= lines);
    }
}

/// A heading line still has something to it once it is trimmed.
proof fn lemma_heading_stays(line: Seq<char>)
    requires
        is_heading(line),
    ensures
        text::trimmed(line).len() > 0,
{
    assert(line[0] == '#');
    text::lemma_trim_end_snug(line);
}

proof fn lemma_headingless(summaries: Seq<Seq<char>>)
    requires
        forall|i: int| 0 <= i < summaries.len() ==> !has_heading(#[trigger] summaries[i]),
    ensures
        all_sections(summaries).len() == summaries.len(),
        forall|i: int|
            0 <= i < summaries.len() ==> (#[trigger] all_sections(
                summaries,
            )[i]).heading.len() == 0,
        bodies(all_sections(summaries), Seq::empty()) == summaries::kept(summaries),
    decreases summaries.len(),
{
    let all = all_sections(summaries);
    if summaries.len() > 0 {
        let front = summaries.drop_last();
        let last = summaries.last();
        assert forall|i: int| 0 <= i < front.len() implies !has_heading(#[trigger] front[i]) by {
            assert(front[i] == summaries[i]);
        }
        lemma_headingless(front);
        assert(last == summaries[summaries.len() - 1]);
        lemma_outline_grows(text::lines(last));
        text::lemma_lines_join(last);
        assert(all.drop_last() =~= all_sections(front));
        assert(all.last() == sections(last)[0]);
        assert(body(all.last()) == text::trimmed(last));
        assert(section_key(all.last().heading) =~= Seq::empty());
    }
}

proof fn lemma_single_block(all: Seq<SectionText>, n: nat)
    requires
        n <= all.len(),
        forall|i: int| 0 <= i < all.len() ==> (#[trigger] all[i]).heading.len() == 0,
    ensures
        blocks(all, n) == if n > 0 && bodies(all, Seq::empty()).len() > 0 {
            seq![text::join(bodies(all, Seq::empty()), summaries::paragraph_break())]
        } else {
            Seq::<Seq<char>>::empty()
        },
    decreases n,
{
    if n > 0 {
        lemma_single_block(all, (n - 1) as nat);
        let key = section_key(all[n - 1].heading);
        assert(key =~= Seq::empty());
        if n > 1 {
            assert(section_key(all[0].heading) =~= key);
            assert(!is_first(all, n - 1));
        } else {
            assert(is_first(all, 0));
            if bodies(all, key).len() > 0 {
                assert(blocks(all, 0) =~= Seq::empty());
                assert(blocks(all, n) =~= seq![block(all, 0)]);
            }
        }
    }
}

/// Without headings merging is concatenation.
pub proof fn law_merging_falls_back_to_concatenation(summaries: Seq<Seq<char>>)
    requires
        forall|i: int| 0 <= i < summaries.len() ==> !has_heading(#[trigger] summaries[i]),
    ensures
        merged(summaries) == summaries::concatenated(summaries),
{
    let all = all_sections(summaries);
    lemma_headingless(summaries);
    lemma_single_block(all, all.len());
    if summaries.len() == 0 {
        assert(summaries::kept(summaries) =~= Seq::empty());
    }
}

proof fn lemma_body_is_gathered(all: Seq<SectionText>, i: int)
    requires
        0 <= i < all.len(),
        body(all[i]).len() > 0,
    ensures
        bodies(all, section_key(all[i].heading)).contains(body(all[i])),
    decreases all.len(),
{
    let key = section_key(all[i].heading);
    let said = bodies(all, key);
    if i == all.len() - 1 {
        assert(said[said.len() - 1] == body(all[i]));
    } else {
        lemma_body_is_gathered(all.drop_last(), i);
        let rest = bodies(all.drop_last(), key);
        let k = choose|k: int| 0 <= k < rest.len() && rest[k] == body(all[i]);
        assert(said[k] == rest[k]);
    }
}

/// The first section with the key of `all[i]`.
proof fn lemma_first_of_key(all: Seq<SectionText>, i: int) -> (j: int)
    requires
        0 <= i < all.len(),
    ensures
        0 <= j <= i,
        is_first(all, j),
        section_key(all[j].heading) == section_key(all[i].heading),
    decreases i,
{
    if is_first(all, i) {
        i
    } else {
        let k = choose|k: int|
            0 <= k < i && section_key((#[trigger] all[k]).heading) == section_key(all[i].heading);
        lemma_first_of_key(all, k)
    }
}

proof fn lemma_block_is_listed(all: Seq<SectionText>, n: nat, j: int)
    requires
        0 <= j < n <= all.len(),
        opens_block(all, j),
    ensures
        blocks(all, n).contains(block(all, j)),
    decreases n,
{
    let list = blocks(all, n);
    if j == n - 1 {
        assert(list[list.len() - 1] == block(all, j));
    } else {
        lemma_block_is_listed(all, (n - 1) as nat, j);
        let rest = blocks(all, (n - 1) as nat);
        let k = choose|k: int| 0 <= k < rest.len() && rest[k] == block(all, j);
        assert(list[k] == rest[k]);
    }
}

/// Merging loses nothing: whatever a slice says in some section stands in the merged summary.
pub proof fn law_merging_keeps_what_is_said(summaries: Seq<Seq<char>>, i: int)
    requires
        0 <= i < all_sections(summaries).len(),
    ensures
        text::occurs_in(body(all_sections(summaries)[i]), merged(summaries)),
{
    let all = all_sections(summaries);
    let out = merged(summaries);
    let said = body(all[i]);
    if said.len() == 0 {
        assert(out.subrange(0, 0) =~= said);
        assert(text::stands_at(said, out, 0));
    } else {
        let sep = summaries::paragraph_break();
        let j = lemma_first_of_key(all, i);
        let key = section_key(all[j].heading);
        lemma_body_is_gathered(all, i);
        let list = bodies(all, key);
        let k = choose|k: int| 0 <= k < list.len() && list[k] == said;
        text::lemma_join_holds(list, sep, k);
        let joined = text::join(list, sep);
        if all[j].heading.len() > 0 {
            text::lemma_occurs_in_longer(said, all[j].heading + sep, joined, Seq::empty());
            assert(all[j].heading + sep + joined + Seq::<char>::empty() =~= block(all, j));
        }
        lemma_block_is_listed(all, all.len(), j);
        let parts = blocks(all, all.len());
        let m = choose|m: int| 0 <= m < parts.len() && parts[m] == block(all, j);
        text::lemma_join_holds(parts, sep, m);
        text::lemma_occurs_in_transitive(said, block(all, j), out);
    }
}

/// The places of the sections that open a merged section, among the first `n`.
pub open spec fn openers(all: Seq<SectionText>, n: nat) -> Seq<int>
    decreases n,
{
    if n == 0 {
        Seq::empty()
    } else {
        let rest = openers(all, (n - 1) as nat);
        if opens_block(all, n - 1) {
            rest.push(n - 1)
        } else {
            rest
        }
    }
}

/// The merged summary has one block for each opener, in the order in which the openers stand in
/// the slices, and no two openers have the same key: each section is there once, where it first
/// appeared.
pub proof fn law_merging_holds_each_section_once(all: Seq<SectionText>, n: nat)
    requires
        n <= all.len(),
    ensures
        blocks(all, n) == openers(all, n).map_values(|i: int| block(all, i)),
        forall|p: int|
            0 <= p < openers(all, n).len() ==> 0 <= #[trigger] openers(all, n)[p] < n,
        forall|p: int, q: int|
            0 <= p < q < openers(all, n).len() ==> {
                &&& #[trigger] openers(all, n)[p] < #[trigger] openers(all, n)[q]
                &&& section_key(all[openers(all, n)[p]].heading) != section_key(
                    all[openers(all, n)[q]].heading,
                )
            },
    decreases n,
{
    let f = |i: int| block(all, i);
    if n > 0 {
        law_merging_holds_each_section_once(all, (n - 1) as nat);
        let rest = openers(all, (n - 1) as nat);
        if opens_block(all, n - 1) {
            assert(rest.push(n - 1).map_values(f) =~= rest.map_values(f).push(block(all, n - 1)));
        }
    } else {
        assert(blocks(all, 0) =~= openers(all, 0).map_values(f));
    }
}

} // verus!
