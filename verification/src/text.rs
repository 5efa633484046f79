//! Text as sequences of characters: trimming, joining, searching, ordering and numerals.
//!
//! Every function states its result over the view of its arguments, a `Seq<char>`.

use vstd::prelude::*;
use vstd::string::*;

verus! {

/// `String::push` appends one character and leaves what was there before.
pub assume_specification[ String::push ](s: &mut String, ch: char)
    ensures
        final(s)@ == old(s)@.push(ch),
;

/// The characters with the Unicode `White_Space` property.
pub open spec fn white_space(c: char) -> bool {
    let n = c as u32;
    ||| 0x09 <= n <= 0x0d
    ||| n == 0x20
    ||| n == 0x85
    ||| n == 0xa0
    ||| n == 0x1680
    ||| 0x2000 <= n <= 0x200a
    ||| n == 0x2028
    ||| n == 0x2029
    ||| n == 0x202f
    ||| n == 0x205f
    ||| n == 0x3000
}

/// Whether `c` is white space.
pub fn is_white_space(c: char) -> (blank: bool)
    ensures
        blank == white_space(c),
{
    let n: u32 = c as u32;
    (0x09 <= n && n <= 0x0d) || n == 0x20 || n == 0x85 || n == 0xa0 || n == 0x1680 || (0x2000 <= n
        && n <= 0x200a) || n == 0x2028 || n == 0x2029 || n == 0x202f || n == 0x205f || n == 0x3000
}

/// `s` without its leading white space.
pub open spec fn trim_start(s: Seq<char>) -> Seq<char>
    decreases s.len(),
{
    if s.len() > 0 && white_space(s[0]) {
        trim_start(s.subrange(1, s.len() as int))
    } else {
        s
    }
}

/// `s` without its trailing white space.
pub open spec fn trim_end(s: Seq<char>) -> Seq<char>
    decreases s.len(),
{
    if s.len() > 0 && white_space(s[s.len() - 1]) {
        trim_end(s.subrange(0, s.len() - 1))
    } else {
        s
    }
}

/// `s` without the white space at either end.
pub open spec fn trimmed(s: Seq<char>) -> Seq<char> {
    trim_end(trim_start(s))
}

/// Whether `s` holds nothing but white space.
pub open spec fn blank(s: Seq<char>) -> bool {
    forall|i: int| 0 <= i < s.len() ==> white_space(#[trigger] s[i])
}

/// Whether `s` neither starts nor ends with white space.
pub open spec fn snug(s: Seq<char>) -> bool {
    s.len() > 0 ==> !white_space(s[0]) && !white_space(s[s.len() - 1])
}

/// The strings of a list as character sequences.
pub open spec fn texts(list: Seq<String>) -> Seq<Seq<char>> {
    Seq::new(list.len(), |i: int| list[i]@)
}

/// `parts` in order with `sep` between each two neighbours.
pub open spec fn join(parts: Seq<Seq<char>>, sep: Seq<char>) -> Seq<char>
    decreases parts.len(),
{
    if parts.len() == 0 {
        Seq::empty()
    } else if parts.len() == 1 {
        parts[0]
    } else {
        join(parts.drop_last(), sep) + sep + parts.last()
    }
}

/// The characters of `text`.
pub fn chars_of(text: &str) -> (chars: Vec<char>)
    ensures
        chars@ == text@,
{
    let mut chars: Vec<char> = Vec::new();
    for c in it: text.chars()
        invariant
            chars@ == it.seq().take(it.index()),
            it.seq() == text@,
    {
        chars.push(c);
        assert(chars@ =~= it.seq().take(it.index() + 1));
    }
    assert(chars@ =~= text@);
    chars
}

/// The text made of `chars[from..to]`.
pub fn text_of(chars: &[char], from: usize, to: usize) -> (text: String)
    requires
        from <= to <= chars@.len(),
    ensures
        text@ == chars@.subrange(from as int, to as int),
{
    let mut text = String::new();
    let mut i: usize = from;
    while i < to
        invariant
            from <= i <= to <= chars@.len(),
            text@ == chars@.subrange(from as int, i as int),
        decreases to - i,
    {
        text.push(chars[i]);
        i += 1;
        assert(text@ =~= chars@.subrange(from as int, i as int));
    }
    text
}

proof fn lemma_trim_start_step(s: Seq<char>, i: int)
    requires
        0 <= i < s.len(),
        white_space(s[i]),
    ensures
        trim_start(s.subrange(i, s.len() as int)) == trim_start(
            s.subrange(i + 1, s.len() as int),
        ),
{
    let t = s.subrange(i, s.len() as int);
    assert(t.subrange(1, t.len() as int) =~= s.subrange(i + 1, s.len() as int));
}

proof fn lemma_trim_end_step(s: Seq<char>, from: int, to: int)
    requires
        0 <= from < to <= s.len(),
        white_space(s[to - 1]),
    ensures
        trim_end(s.subrange(from, to)) == trim_end(s.subrange(from, to - 1)),
{
    let t = s.subrange(from, to);
    assert(t.subrange(0, t.len() - 1) =~= s.subrange(from, to - 1));
}

/// `text` without the white space at either end.
pub fn trim(text: &str) -> (out: String)
    ensures
        out@ == trimmed(text@),
{
    let chars = chars_of(text);
    let len: usize = chars.len();
    let mut from: usize = 0;
    assert(chars@.subrange(0, len as int) =~= chars@);
    while from < len && is_white_space(chars[from])
        invariant
            len == chars@.len(),
            from <= len,
            trim_start(chars@.subrange(from as int, len as int)) == trim_start(chars@),
        decreases len - from,
    {
        proof {
            lemma_trim_start_step(chars@, from as int);
        }
        from += 1;
    }
    let mut to: usize = len;
    while from < to && is_white_space(chars[to - 1])
        invariant
            len == chars@.len(),
            from <= to <= len,
            trim_end(chars@.subrange(from as int, to as int)) == trimmed(chars@),
        decreases to - from,
    {
        proof {
            lemma_trim_end_step(chars@, from as int, to as int);
        }
        to -= 1;
    }
    text_of(&chars, from, to)
}

/// Trimming leaves no white space at either end.
pub proof fn lemma_trimmed_snug(s: Seq<char>)
    ensures
        snug(trimmed(s)),
        snug(s) ==> trimmed(s) == s,
        blank(s) ==> trimmed(s).len() == 0,
    decreases s.len(),
{
    if s.len() > 0 && white_space(s[0]) {
        let t = s.subrange(1, s.len() as int);
        lemma_trimmed_snug(t);
        assert(trimmed(s) == trimmed(t));
        if blank(s) {
            assert forall|i: int| 0 <= i < t.len() implies white_space(#[trigger] t[i]) by {
                assert(white_space(s[i + 1]));
            }
        }
    } else {
        lemma_trim_end_snug(s);
    }
}

/// Trimming the end of a text that does not start with white space leaves something of it, with
/// no white space at either end.
pub proof fn lemma_trim_end_snug(s: Seq<char>)
    requires
        s.len() > 0 ==> !white_space(s[0]),
    ensures
        snug(trim_end(s)),
        trim_end(s).len() > 0 <==> s.len() > 0,
    decreases s.len(),
{
    if s.len() > 0 && white_space(s[s.len() - 1]) {
        let t = s.subrange(0, s.len() - 1);
        assert(s.len() > 1);
        assert(t[0] == s[0]);
        lemma_trim_end_snug(t);
    }
}

/// Joining a list in two portions.
pub proof fn lemma_join_append(a: Seq<Seq<char>>, b: Seq<Seq<char>>, sep: Seq<char>)
    ensures
        a.len() > 0 && b.len() > 0 ==> join(a + b, sep) == join(a, sep) + sep + join(b, sep),
        a.len() == 0 ==> join(a + b, sep) == join(b, sep),
        b.len() == 0 ==> join(a + b, sep) == join(a, sep),
    decreases b.len(),
{
    if a.len() == 0 {
        assert(a + b =~= b);
    }
    if b.len() == 0 {
        assert(a + b =~= a);
    }
    if a.len() > 0 && b.len() > 0 {
        assert((a + b).drop_last() =~= a + b.drop_last());
        lemma_join_append(a, b.drop_last(), sep);
        assert(join(a + b, sep) =~= join(a, sep) + sep + join(b, sep));
    }
}

/// Text joined from parts that are neither empty nor white at the ends is the same.
pub proof fn lemma_join_snug(parts: Seq<Seq<char>>, sep: Seq<char>)
    requires
        forall|i: int|
            0 <= i < parts.len() ==> (#[trigger] parts[i]).len() > 0 && snug(parts[i]),
    ensures
        snug(join(parts, sep)),
        parts.len() > 0 ==> join(parts, sep).len() > 0 && join(parts, sep)[0] == parts[0][0],
    decreases parts.len(),
{
    if parts.len() > 1 {
        let rest = parts.drop_last();
        assert forall|i: int| 0 <= i < rest.len() implies (#[trigger] rest[i]).len() > 0 && snug(
            rest[i],
        ) by {
            assert(rest[i] == parts[i]);
        }
        lemma_join_snug(rest, sep);
        let last = parts.last();
        assert(last == parts[parts.len() - 1]);
        let all = join(parts, sep);
        assert(all[0] == join(rest, sep)[0]);
        assert(all[all.len() - 1] == last[last.len() - 1]);
    } else if parts.len() == 1 {
        assert(parts[0].len() > 0);
    }
}

/// Each part stands somewhere in the joined text.
pub proof fn lemma_join_holds(parts: Seq<Seq<char>>, sep: Seq<char>, i: int)
    requires
        0 <= i < parts.len(),
    ensures
        occurs_in(parts[i], join(parts, sep)),
    decreases parts.len(),
{
    let all = join(parts, sep);
    if parts.len() == 1 {
        assert(all.subrange(0, all.len() as int) =~= parts[0]);
        assert(stands_at(parts[i], all, 0));
    } else if i == parts.len() - 1 {
        let at = all.len() - parts[i].len();
        assert(all.subrange(at, all.len() as int) =~= parts[i]);
        assert(stands_at(parts[i], all, at));
    } else {
        lemma_join_holds(parts.drop_last(), sep, i);
        lemma_occurs_in_longer(
            parts[i],
            Seq::empty(),
            join(parts.drop_last(), sep),
            sep + parts.last(),
        );
        assert(Seq::<char>::empty() + join(parts.drop_last(), sep) + (sep + parts.last()) =~= all);
    }
}

/// What occurs in a text occurs in a longer one around it.
pub proof fn lemma_occurs_in_longer(
    needle: Seq<char>,
    front: Seq<char>,
    hay: Seq<char>,
    back: Seq<char>,
)
    requires
        occurs_in(needle, hay),
    ensures
        occurs_in(needle, front + hay + back),
{
    let at = choose|at: int| stands_at(needle, hay, at);
    let all = front + hay + back;
    let there = front.len() + at;
    assert(all.subrange(there, there + needle.len()) =~= hay.subrange(at, at + needle.len()));
    assert(stands_at(needle, all, there));
}

/// A part of a part of a text is a part of it.
pub proof fn lemma_occurs_in_transitive(a: Seq<char>, b: Seq<char>, c: Seq<char>)
    requires
        occurs_in(a, b),
        occurs_in(b, c),
    ensures
        occurs_in(a, c),
{
    let at = choose|at: int| stands_at(b, c, at);
    lemma_occurs_in_longer(a, c.subrange(0, at), b, c.subrange(at + b.len(), c.len() as int));
    assert(c.subrange(0, at) + b + c.subrange(at + b.len(), c.len() as int) =~= c) by {
        assert(c.subrange(at, at + b.len()) == b);
    }
}

/// `text` without its trailing white space.
pub fn trim_tail(text: &str) -> (out: String)
    ensures
        out@ == trim_end(text@),
{
    let chars = chars_of(text);
    let mut to: usize = chars.len();
    assert(chars@.subrange(0, to as int) =~= chars@);
    while 0 < to && is_white_space(chars[to - 1])
        invariant
            to <= chars@.len(),
            trim_end(chars@.subrange(0, to as int)) == trim_end(chars@),
        decreases to,
    {
        proof {
            lemma_trim_end_step(chars@, 0, to as int);
        }
        to -= 1;
    }
    text_of(&chars, 0, to)
}

/// Whether `a` and `b` are the same text.
pub fn same_text(a: &str, b: &str) -> (same: bool)
    ensures
        same == (a@ == b@),
{
    let left = chars_of(a);
    let right = chars_of(b);
    if left.len() != right.len() {
        return false;
    }
    let mut i: usize = 0;
    while i < left.len()
        invariant
            left@ == a@,
            right@ == b@,
            left@.len() == right@.len(),
            i <= left@.len(),
            forall|k: int| 0 <= k < i ==> left@[k] == right@[k],
        decreases left@.len() - i,
    {
        if left[i] != right[i] {
            return false;
        }
        i += 1;
    }
    assert(left@ =~= right@);
    true
}

/// A copy of an optional text.
pub fn copy_text(text: &Option<String>) -> (copy: Option<String>)
    ensures
        copy == *text,
{
    match text {
        Some(t) => Some(t.clone()),
        None => None,
    }
}

/// `first` and then `second`.
pub fn two_texts(first: &str, second: &str) -> (out: String)
    ensures
        out@ == first@ + second@,
{
    let mut out = first.to_owned();
    out.append(second);
    out
}

/// `parts` in order with `sep` between each two neighbours.
pub fn join_texts(parts: &Vec<String>, sep: &str) -> (out: String)
    ensures
        out@ == join(texts(parts@), sep@),
{
    let mut out = String::new();
    let mut i: usize = 0;
    assert(out@ =~= join(texts(parts@).take(0), sep@));
    while i < parts.len()
        invariant
            i <= parts@.len(),
            out@ == join(texts(parts@).take(i as int), sep@),
        decreases parts@.len() - i,
    {
        let ghost before = texts(parts@).take(i as int);
        let ghost after = texts(parts@).take(i + 1);
        assert(after.drop_last() =~= before);
        assert(after.last() == parts@[i as int]@);
        if i > 0 {
            out.append(sep);
        }
        out.append(parts[i].as_str());
        assert(out@ =~= join(after, sep@));
        i += 1;
    }
    assert(texts(parts@).take(i as int) =~= texts(parts@));
    out
}

/// `s` cut at each line feed; the line feeds are left out.
pub open spec fn lines(s: Seq<char>) -> Seq<Seq<char>>
    decreases s.len(),
{
    if s.len() == 0 {
        seq![Seq::empty()]
    } else {
        let rest = lines(s.drop_last());
        if s.last() == '\n' {
            rest.push(Seq::empty())
        } else {
            rest.drop_last().push(rest.last().push(s.last()))
        }
    }
}

/// The line feed that ends a line.
pub open spec fn line_feed() -> Seq<char> {
    seq!['\n']
}

/// A text is its lines joined by line feeds.
pub proof fn lemma_lines_join(s: Seq<char>)
    ensures
        lines(s).len() > 0,
        join(lines(s), line_feed()) == s,
    decreases s.len(),
{
    if s.len() == 0 {
        assert(join(lines(s), line_feed()) =~= s);
    } else {
        let rest = lines(s.drop_last());
        lemma_lines_join(s.drop_last());
        let all = lines(s);
        if s.last() == '\n' {
            assert(all.drop_last() =~= rest);
            assert(join(all, line_feed()) =~= s);
        } else {
            assert(all.drop_last() =~= rest.drop_last());
            assert(s =~= s.drop_last().push(s.last()));
            assert(join(all, line_feed()) =~= s);
        }
    }
}

/// Cuts `text` at each line feed.
pub fn split_lines(text: &str) -> (out: Vec<String>)
    ensures
        texts(out@) == lines(text@),
{
    let chars = chars_of(text);
    let mut out: Vec<String> = Vec::new();
    let mut line = String::new();
    let mut i: usize = 0;
    assert(texts(out@).push(line@) =~= lines(chars@.take(0)));
    while i < chars.len()
        invariant
            chars@ == text@,
            i <= chars@.len(),
            texts(out@).push(line@) == lines(chars@.take(i as int)),
        decreases chars@.len() - i,
    {
        let ghost upto = chars@.take(i + 1);
        let ghost rest = lines(chars@.take(i as int));
        let ghost done = texts(out@);
        assert(upto.drop_last() =~= chars@.take(i as int));
        assert(upto.last() == chars@[i as int]);
        assert(rest.drop_last() =~= done);
        assert(rest.last() == line@);
        if chars[i] == '\n' {
            out.push(line);
            assert(texts(out@) =~= rest);
            line = String::new();
        } else {
            line.push(chars[i]);
        }
        i += 1;
        assert(texts(out@).push(line@) =~= lines(upto));
    }
    assert(chars@.take(i as int) =~= text@);
    let ghost done = texts(out@);
    let ghost end = line@;
    out.push(line);
    assert(texts(out@) =~= done.push(end));
    out
}

/// `c` with an ASCII capital turned into its small letter.
pub open spec fn ascii_lower(c: char) -> char {
    let n = c as u32;
    if 0x41 <= n <= 0x5a {
        (n + 0x20) as char
    } else {
        c
    }
}

/// `s` with each ASCII capital turned into its small letter.
pub open spec fn lowered(s: Seq<char>) -> Seq<char> {
    Seq::new(s.len(), |i: int| ascii_lower(s[i]))
}

fn lower_char(c: char) -> (out: char)
    ensures
        out == ascii_lower(c),
{
    let n: u32 = c as u32;
    if 0x41 <= n && n <= 0x5a {
        let b: u8 = n as u8 + 0x20;
        b as char
    } else {
        c
    }
}

/// `text` with each ASCII capital turned into its small letter.
pub fn lowercase(text: &str) -> (out: String)
    ensures
        out@ == lowered(text@),
{
    let chars = chars_of(text);
    let mut out = String::new();
    let mut i: usize = 0;
    while i < chars.len()
        invariant
            chars@ == text@,
            i <= chars@.len(),
            out@ == lowered(text@).take(i as int),
        decreases chars@.len() - i,
    {
        out.push(lower_char(chars[i]));
        i += 1;
        assert(out@ =~= lowered(text@).take(i as int));
    }
    assert(out@ =~= lowered(text@));
    out
}

/// Whether `needle` stands in `hay` at position `at`.
pub open spec fn stands_at(needle: Seq<char>, hay: Seq<char>, at: int) -> bool {
    &&& 0 <= at
    &&& at + needle.len() <= hay.len()
    &&& hay.subrange(at, at + needle.len()) == needle
}

/// Whether `needle` is a contiguous part of `hay`.
pub open spec fn occurs_in(needle: Seq<char>, hay: Seq<char>) -> bool {
    exists|at: int| stands_at(needle, hay, at)
}

fn matches_at(needle: &Vec<char>, hay: &Vec<char>, at: usize) -> (found: bool)
    requires
        at + needle@.len() <= hay@.len(),
    ensures
        found == stands_at(needle@, hay@, at as int),
{
    let mut i: usize = 0;
    while i < needle.len()
        invariant
            at + needle@.len() <= hay@.len(),
            i <= needle@.len(),
            forall|k: int| 0 <= k < i ==> needle@[k] == hay@[at + k],
        decreases needle@.len() - i,
    {
        assert(at + i < hay.len());
        if needle[i] != hay[at + i] {
            assert(hay@.subrange(at as int, at + needle@.len())[i as int] != needle@[i as int]);
            return false;
        }
        i += 1;
    }
    assert(hay@.subrange(at as int, at + needle@.len()) =~= needle@);
    true
}

/// Whether `needle` is a contiguous part of `hay`.
pub fn contains_text(hay: &str, needle: &str) -> (found: bool)
    ensures
        found == occurs_in(needle@, hay@),
{
    let wanted = chars_of(needle);
    let chars = chars_of(hay);
    if wanted.len() > chars.len() {
        assert forall|at: int| !stands_at(needle@, hay@, at) by {}
        return false;
    }
    let last: usize = chars.len() - wanted.len();
    let mut at: usize = 0;
    while at <= last
        invariant
            wanted@ == needle@,
            chars@ == hay@,
            last == chars@.len() - wanted@.len(),
            at <= last + 1,
            forall|k: int| 0 <= k < at ==> !stands_at(needle@, hay@, k),
        decreases last + 1 - at,
    {
        if matches_at(&wanted, &chars, at) {
            return true;
        }
        if at == last {
            assert forall|k: int| !stands_at(needle@, hay@, k) by {}
            return false;
        }
        at += 1;
    }
    false
}

/// Whether `s` comes before `t` when texts are ordered by the code points of their characters.
pub open spec fn precedes(s: Seq<char>, t: Seq<char>) -> bool
    decreases s.len(),
{
    if t.len() == 0 {
        false
    } else if s.len() == 0 {
        true
    } else if s[0] != t[0] {
        (s[0] as int) < (t[0] as int)
    } else {
        precedes(s.subrange(1, s.len() as int), t.subrange(1, t.len() as int))
    }
}

fn code_point(c: char) -> (n: u32)
    ensures
        n == c as int,
{
    c as u32
}

/// Whether `s` comes before `t`.
pub fn is_before(s: &str, t: &str) -> (earlier: bool)
    ensures
        earlier == precedes(s@, t@),
{
    let left = chars_of(s);
    let right = chars_of(t);
    let mut i: usize = 0;
    assert(left@.subrange(0, left@.len() as int) =~= left@);
    assert(right@.subrange(0, right@.len() as int) =~= right@);
    while i < left.len() && i < right.len()
        invariant
            left@ == s@,
            right@ == t@,
            i <= left@.len(),
            i <= right@.len(),
            precedes(s@, t@) == precedes(
                left@.subrange(i as int, left@.len() as int),
                right@.subrange(i as int, right@.len() as int),
            ),
        decreases left@.len() - i,
    {
        if left[i] != right[i] {
            return code_point(left[i]) < code_point(right[i]);
        }
        proof {
            let l = left@.subrange(i as int, left@.len() as int);
            let r = right@.subrange(i as int, right@.len() as int);
            assert(l.subrange(1, l.len() as int) =~= left@.subrange(i + 1, left@.len() as int));
            assert(r.subrange(1, r.len() as int) =~= right@.subrange(i + 1, right@.len() as int));
        }
        i += 1;
    }
    i < right.len()
}

/// Whether `s` does not come after `t`.
pub open spec fn not_after(s: Seq<char>, t: Seq<char>) -> bool {
    !precedes(t, s)
}

/// No text comes before itself, and of two texts that come neither before the other both are
/// the same.
pub proof fn lemma_precedes_total(s: Seq<char>, t: Seq<char>)
    ensures
        !precedes(s, s),
        !precedes(s, t) && !precedes(t, s) ==> s == t,
        precedes(s, t) ==> !precedes(t, s),
    decreases s.len(),
{
    if s.len() > 0 {
        let s1 = s.subrange(1, s.len() as int);
        lemma_precedes_total(s1, s1);
        if t.len() > 0 {
            let t1 = t.subrange(1, t.len() as int);
            lemma_precedes_total(s1, t1);
            if !precedes(s, t) && !precedes(t, s) {
                assert(s[0] as int == t[0] as int);
                assert(s[0] == t[0]);
                assert(s =~= seq![s[0]] + s1);
                assert(t =~= seq![t[0]] + t1);
            }
        }
    } else if t.len() == 0 {
        assert(s =~= t);
    }
}

/// The order of texts is transitive.
pub proof fn lemma_precedes_transitive(s: Seq<char>, t: Seq<char>, u: Seq<char>)
    ensures
        precedes(s, t) && precedes(t, u) ==> precedes(s, u),
    decreases s.len(),
{
    if s.len() > 0 && t.len() > 0 && u.len() > 0 {
        lemma_precedes_transitive(
            s.subrange(1, s.len() as int),
            t.subrange(1, t.len() as int),
            u.subrange(1, u.len() as int),
        );
    }
}

/// `x` put into `s` behind every text that it does not precede, counted from the end.
pub open spec fn placed(s: Seq<Seq<char>>, x: Seq<char>) -> Seq<Seq<char>>
    decreases s.len(),
{
    if s.len() > 0 && precedes(x, s.last()) {
        placed(s.drop_last(), x).push(s.last())
    } else {
        s.push(x)
    }
}

/// The texts of `s` in ascending order.
pub open spec fn in_order(s: Seq<Seq<char>>) -> Seq<Seq<char>>
    decreases s.len(),
{
    if s.len() == 0 {
        s
    } else {
        placed(in_order(s.drop_last()), s.last())
    }
}

proof fn lemma_placed_at(s: Seq<Seq<char>>, x: Seq<char>, n: int)
    requires
        0 <= n <= s.len(),
        forall|i: int| n <= i < s.len() ==> precedes(x, #[trigger] s[i]),
        n > 0 ==> !precedes(x, s[n - 1]),
    ensures
        placed(s, x) == s.insert(n, x),
    decreases s.len(),
{
    if n < s.len() {
        let t = s.drop_last();
        assert forall|i: int| n <= i < t.len() implies precedes(x, #[trigger] t[i]) by {
            assert(t[i] == s[i]);
        }
        lemma_placed_at(t, x, n);
        assert(precedes(x, s[s.len() - 1]));
        assert(t.insert(n, x).push(s.last()) =~= s.insert(n, x));
    } else {
        assert(s.push(x) =~= s.insert(n, x));
    }
}

/// The texts of a list in ascending order, each as often as it stands in the list.
pub fn sort_texts(list: &Vec<String>) -> (out: Vec<String>)
    ensures
        texts(out@) == in_order(texts(list@)),
        ascending(texts(out@)),
        texts(out@).to_multiset() == texts(list@).to_multiset(),
{
    let mut out: Vec<String> = Vec::new();
    let ghost all = texts(list@);
    let mut i: usize = 0;
    assert(texts(out@) =~= in_order(all.take(0)));
    while i < list.len()
        invariant
            all == texts(list@),
            i <= list@.len(),
            texts(out@) == in_order(all.take(i as int)),
        decreases list@.len() - i,
    {
        assert(all.take(i + 1).drop_last() =~= all.take(i as int));
        let text = list[i].clone();
        assert(all.take(i + 1).last() == text@);
        let ghost before = texts(out@);
        let mut n: usize = out.len();
        while n > 0 && is_before(text.as_str(), out[n - 1].as_str())
            invariant
                before == texts(out@),
                n <= out@.len(),
                forall|k: int| n <= k < out@.len() ==> precedes(text@, #[trigger] before[k]),
            decreases n,
        {
            n -= 1;
            assert(before[n as int] == out@[n as int]@);
        }
        proof {
            if n > 0 {
                assert(before[n - 1] == out@[n - 1]@);
            }
            lemma_placed_at(before, text@, n as int);
        }
        let ghost added = text@;
        out.insert(n, text);
        assert(texts(out@) =~= before.insert(n as int, added));
        i += 1;
    }
    assert(all.take(i as int) =~= all);
    proof {
        lemma_in_order(all);
    }
    out
}

/// Whether no text in `s` comes after a later one.
pub open spec fn ascending(s: Seq<Seq<char>>) -> bool {
    forall|i: int, j: int| 0 <= i < j < s.len() ==> not_after(#[trigger] s[i], #[trigger] s[j])
}

proof fn lemma_placed(s: Seq<Seq<char>>, x: Seq<char>)
    requires
        ascending(s),
    ensures
        ascending(placed(s, x)),
        placed(s, x).to_multiset() == s.to_multiset().insert(x),
        forall|y: Seq<char>|
            #![trigger placed(s, x).contains(y)]
            placed(s, x).contains(y) <==> s.contains(y) || y == x,
    decreases s.len(),
{
    broadcast use vstd::seq_lib::group_to_multiset_ensures;

    let out = placed(s, x);
    if s.len() > 0 && precedes(x, s.last()) {
        let t = s.drop_last();
        assert(ascending(t)) by {
            assert forall|i: int, j: int| 0 <= i < j < t.len() implies not_after(
                #[trigger] t[i],
                #[trigger] t[j],
            ) by {
                assert(not_after(s[i], s[j]));
            }
        }
        lemma_placed(t, x);
        let front = placed(t, x);
        assert(s =~= t.push(s.last()));
        assert forall|i: int, j: int| 0 <= i < j < out.len() implies not_after(
            #[trigger] out[i],
            #[trigger] out[j],
        ) by {
            if j == out.len() - 1 {
                assert(front.contains(front[i]));
                if front[i] == x {
                    lemma_precedes_total(x, s.last());
                } else {
                    let k = choose|k: int| 0 <= k < t.len() && t[k] == front[i];
                    assert(not_after(s[k], s[s.len() - 1]));
                }
            } else {
                assert(not_after(front[i], front[j]));
            }
        }
    } else {
        assert forall|i: int, j: int| 0 <= i < j < out.len() implies not_after(
            #[trigger] out[i],
            #[trigger] out[j],
        ) by {
            if j == out.len() - 1 {
                if i < s.len() - 1 {
                    assert(not_after(s[i], s[s.len() - 1]));
                    lemma_not_after_transitive(s[i], s[s.len() - 1], x);
                }
            } else {
                assert(not_after(s[i], s[j]));
            }
        }
    }
    assert forall|y: Seq<char>| #![trigger out.contains(y)] out.contains(y) <==> s.contains(y) || y
        == x by {
        assert(out.contains(y) <==> out.to_multiset().count(y) > 0);
        assert(s.contains(y) <==> s.to_multiset().count(y) > 0);
    }
}

proof fn lemma_not_after_transitive(s: Seq<char>, t: Seq<char>, u: Seq<char>)
    requires
        not_after(s, t),
        not_after(t, u),
    ensures
        not_after(s, u),
{
    if precedes(u, s) {
        lemma_precedes_total(s, t);
        if precedes(s, t) {
            lemma_precedes_transitive(u, s, t);
        }
    }
}

/// Ordering a list gives the same texts, each as often, in ascending order.
pub proof fn lemma_in_order(s: Seq<Seq<char>>)
    ensures
        ascending(in_order(s)),
        in_order(s).to_multiset() == s.to_multiset(),
        in_order(s).len() == s.len(),
        forall|y: Seq<char>|
            #![trigger in_order(s).contains(y)]
            in_order(s).contains(y) <==> s.contains(y),
    decreases s.len(),
{
    broadcast use vstd::seq_lib::group_to_multiset_ensures;

    if s.len() > 0 {
        lemma_in_order(s.drop_last());
        lemma_placed(in_order(s.drop_last()), s.last());
        assert(s =~= s.drop_last().push(s.last()));
    }
    assert(in_order(s).len() == in_order(s).to_multiset().len());
    assert(s.len() == s.to_multiset().len());
    assert forall|y: Seq<char>|
        #![trigger in_order(s).contains(y)]
        in_order(s).contains(y) <==> s.contains(y) by {
        assert(in_order(s).contains(y) <==> in_order(s).to_multiset().count(y) > 0);
        assert(s.contains(y) <==> s.to_multiset().count(y) > 0);
    }
}

/// The numeral for a digit.
pub open spec fn digit(d: nat) -> char {
    (0x30 + d) as char
}

/// `n` in decimal without leading zeros.
pub open spec fn decimal(n: nat) -> Seq<char>
    decreases n,
{
    if n < 10 {
        seq![digit(n)]
    } else {
        decimal(n / 10).push(digit(n % 10))
    }
}

/// `n` in decimal.
pub fn numeral(n: u64) -> (out: String)
    ensures
        out@ == decimal(n as nat),
    decreases n,
{
    let d: u8 = (n % 10) as u8;
    let last: char = (0x30u8 + d) as char;
    let mut out = if n < 10 {
        String::new()
    } else {
        numeral(n / 10)
    };
    out.push(last);
    assert(out@ =~= decimal(n as nat));
    out
}

/// `c` repeated `n` times.
pub open spec fn repeated(c: char, n: nat) -> Seq<char> {
    Seq::new(n, |i: int| c)
}

/// Appends `n` copies of `c`.
pub fn push_repeated(text: &mut String, c: char, n: usize)
    ensures
        final(text)@ == old(text)@ + repeated(c, n as nat),
{
    let mut i: usize = 0;
    let ghost start = text@;
    assert(text@ =~= start + repeated(c, 0));
    while i < n
        invariant
            i <= n,
            text@ == start + repeated(c, i as nat),
        decreases n - i,
    {
        text.push(c);
        i += 1;
        assert(text@ =~= start + repeated(c, i as nat));
    }
}

} // verus!
