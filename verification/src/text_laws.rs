//! What holds of texts, whatever they are: how trimming, joining, cutting, searching, ordering and
//! writing numbers relate to the characters themselves.

use vstd::prelude::*;

use crate::text;

verus! {

/// Whether `picks` are exactly the numbers below `n` that are wanted, in ascending order.
pub open spec fn picks_out(picks: Seq<int>, n: nat, wanted: spec_fn(int) -> bool) -> bool {
    &&& forall|p: int| 0 <= p < picks.len() ==> 0 <= #[trigger] picks[p] < n && wanted(picks[p])
    &&& forall|p: int, q: int|
        0 <= p < q < picks.len() ==> #[trigger] picks[p] < #[trigger] picks[q]
    &&& forall|i: int| 0 <= i < n && #[trigger] wanted(i) ==> picks.contains(i)
}

/// The numbers below `n` that are wanted, in ascending order.
pub open spec fn picked(n: nat, wanted: spec_fn(int) -> bool) -> Seq<int>
    decreases n,
{
    if n == 0 {
        Seq::empty()
    } else {
        let rest = picked((n - 1) as nat, wanted);
        if wanted(n - 1) {
            rest.push(n - 1)
        } else {
            rest
        }
    }
}

/// There are such numbers for any wish.
pub proof fn lemma_picked(n: nat, wanted: spec_fn(int) -> bool)
    ensures
        picks_out(picked(n, wanted), n, wanted),
    decreases n,
{
    if n > 0 {
        let rest = picked((n - 1) as nat, wanted);
        let all = picked(n, wanted);
        lemma_picked((n - 1) as nat, wanted);
        assert forall|i: int| 0 <= i < n && #[trigger] wanted(i) implies all.contains(i) by {
            if i == n - 1 {
                assert(all[all.len() - 1] == i);
            } else {
                assert(rest.contains(i));
                let p = choose|p: int| 0 <= p < rest.len() && rest[p] == i;
                assert(all[p] == i);
            }
        }
    }
}

/// Whether `t` is what lies between the white space at the two ends of `s`.
pub open spec fn is_core(t: Seq<char>, s: Seq<char>, i: int, j: int) -> bool {
    &&& 0 <= i <= j <= s.len()
    &&& t == s.subrange(i, j)
    &&& forall|k: int| 0 <= k < i ==> text::white_space(#[trigger] s[k])
    &&& forall|k: int| j <= k < s.len() ==> text::white_space(#[trigger] s[k])
    &&& i < j ==> !text::white_space(s[i]) && !text::white_space(s[j - 1])
}

/// Trimming the end of a text takes off the white space there and nothing else.
pub proof fn law_trimming_the_end_takes_off_white_space(s: Seq<char>) -> (j: int)
    ensures
        0 <= j <= s.len(),
        text::trim_end(s) == s.subrange(0, j),
        forall|k: int| j <= k < s.len() ==> text::white_space(#[trigger] s[k]),
        0 < j ==> !text::white_space(s[j - 1]),
    decreases s.len(),
{
    if s.len() > 0 && text::white_space(s[s.len() - 1]) {
        let t = s.subrange(0, s.len() - 1);
        let j = law_trimming_the_end_takes_off_white_space(t);
        assert(t.subrange(0, j) =~= s.subrange(0, j));
        assert forall|k: int| j <= k < s.len() implies text::white_space(#[trigger] s[k]) by {
            if k < t.len() {
                assert(t[k] == s[k]);
            }
        }
        j
    } else {
        assert(s.subrange(0, s.len() as int) =~= s);
        s.len() as int
    }
}

/// Trimming the start of a text takes off the white space there and nothing else.
pub proof fn law_trimming_the_start_takes_off_white_space(s: Seq<char>) -> (i: int)
    ensures
        0 <= i <= s.len(),
        text::trim_start(s) == s.subrange(i, s.len() as int),
        forall|k: int| 0 <= k < i ==> text::white_space(#[trigger] s[k]),
        i < s.len() ==> !text::white_space(s[i]),
    decreases s.len(),
{
    if s.len() > 0 && text::white_space(s[0]) {
        let t = s.subrange(1, s.len() as int);
        let i = law_trimming_the_start_takes_off_white_space(t);
        assert(t.subrange(i, t.len() as int) =~= s.subrange(i + 1, s.len() as int));
        assert forall|k: int| 0 <= k < i + 1 implies text::white_space(#[trigger] s[k]) by {
            if k > 0 {
                assert(t[k - 1] == s[k]);
            }
        }
        i + 1
    } else {
        assert(s.subrange(0, s.len() as int) =~= s);
        0
    }
}

/// Trimming takes the white space off both ends and nothing else.
pub proof fn law_trimming_takes_off_white_space(s: Seq<char>) -> (ends: (int, int))
    ensures
        is_core(text::trimmed(s), s, ends.0, ends.1),
{
    let i = law_trimming_the_start_takes_off_white_space(s);
    let t = s.subrange(i, s.len() as int);
    let j = law_trimming_the_end_takes_off_white_space(t);
    assert(t.subrange(0, j) =~= s.subrange(i, i + j));
    assert forall|k: int| i + j <= k < s.len() implies text::white_space(#[trigger] s[k]) by {
        assert(t[k - i] == s[k]);
    }
    if j > 0 {
        assert(t[0] == s[i]);
        assert(t[j - 1] == s[i + j - 1]);
    }
    (i, i + j)
}

/// What is neither empty nor white at its ends and stands in a text stands in it trimmed, too.
pub proof fn lemma_occurs_in_trimmed(t: Seq<char>, s: Seq<char>)
    requires
        t.len() > 0,
        text::snug(t),
        text::occurs_in(t, s),
    ensures
        text::occurs_in(t, text::trimmed(s)),
{
    let (i, j) = law_trimming_takes_off_white_space(s);
    let at = choose|at: int| text::stands_at(t, s, at);
    let part = s.subrange(at, at + t.len());
    assert(part[0] == s[at]);
    assert(part[part.len() - 1] == s[at + t.len() - 1]);
    if at < i {
        assert(text::white_space(s[at]));
    }
    if at + t.len() > j {
        assert(text::white_space(s[at + t.len() - 1]));
    }
    let core = text::trimmed(s);
    assert(core.subrange(at - i, at - i + t.len()) =~= t) by {
        assert(s.subrange(at, at + t.len()) == t);
        assert forall|k: int| 0 <= k < t.len() implies core.subrange(
            at - i,
            at - i + t.len(),
        )[k] == t[k] by {
            assert(part[k] == s[at + k]);
        }
    }
    assert(text::stands_at(t, core, at - i));
}

/// Joining puts the separator between each two neighbours and adds nothing else: nothing joined
/// is nothing, one part joined is that part, and two lists joined are what each of them gives
/// with the separator between.
pub proof fn law_joining_puts_the_separator_between(
    a: Seq<Seq<char>>,
    b: Seq<Seq<char>>,
    one: Seq<char>,
    sep: Seq<char>,
)
    ensures
        text::join(Seq::empty(), sep) == Seq::<char>::empty(),
        text::join(seq![one], sep) == one,
        a.len() > 0 && b.len() > 0 ==> text::join(a + b, sep) == text::join(a, sep) + sep
            + text::join(b, sep),
        text::texts(Seq::empty()) == Seq::<Seq<char>>::empty(),
{
    text::lemma_join_append(a, b, sep);
    assert(text::texts(Seq::empty()) =~= Seq::<Seq<char>>::empty());
}

/// The texts of a list are the list's own, one for one.
pub proof fn law_texts_are_those_of_the_list(list: Seq<String>)
    ensures
        text::texts(list).len() == list.len(),
        forall|i: int| 0 <= i < list.len() ==> #[trigger] text::texts(list)[i] == list[i]@,
{
}

/// Cutting a text into lines and joining these by line feeds gives the text back, and no line
/// holds a line feed.
pub proof fn law_lines_are_what_lies_between_line_feeds(s: Seq<char>)
    ensures
        text::lines(s).len() > 0,
        text::join(text::lines(s), seq!['\n']) == s,
        forall|i: int|
            0 <= i < text::lines(s).len() ==> !(#[trigger] text::lines(s)[i]).contains('\n'),
    decreases s.len(),
{
    text::lemma_lines_join(s);
    if s.len() > 0 {
        law_lines_are_what_lies_between_line_feeds(s.drop_last());
        let rest = text::lines(s.drop_last());
        let all = text::lines(s);
        assert forall|i: int| 0 <= i < all.len() implies !(#[trigger] all[i]).contains('\n') by {
            if i < rest.len() - 1 {
                assert(all[i] == rest[i]);
            } else if s.last() != '\n' {
                let last = rest[rest.len() - 1];
                assert(!last.contains('\n'));
                if all[i].contains('\n') {
                    let k = choose|k: int| 0 <= k < all[i].len() && all[i][k] == '\n';
                    assert(k < last.len());
                    assert(last[k] == '\n');
                }
            } else if i < rest.len() {
                assert(all[i] == rest[i]);
            }
        }
    }
}

/// Lowering turns each ASCII capital into its small letter, thirty-two code points on, and leaves
/// every other character alone.
pub proof fn law_lowering_turns_capitals_alone(s: Seq<char>, i: int)
    requires
        0 <= i < s.len(),
    ensures
        text::lowered(s).len() == s.len(),
        'A' <= s[i] <= 'Z' ==> text::lowered(s)[i] as int == s[i] as int + 32,
        !('A' <= s[i] <= 'Z') ==> text::lowered(s)[i] == s[i],
{
    lemma_lowered_char(s[i]);
}

proof fn lemma_lowered_char(c: char)
    ensures
        'A' <= c <= 'Z' ==> text::ascii_lower(c) as int == c as int + 32,
        !('A' <= c <= 'Z') ==> text::ascii_lower(c) == c,
{
    let n = c as u32;
    assert(n as int == c as int);
    if 'A' <= c <= 'Z' {
        assert(((n + 0x20) as char) as int == n + 0x20);
    }
}

/// A text occurs in another exactly if that one is the text with something, or nothing, before
/// and behind it.
pub proof fn law_occurring_is_standing_between(needle: Seq<char>, hay: Seq<char>)
    ensures
        text::occurs_in(needle, hay) <==> exists|front: Seq<char>, back: Seq<char>|
            #[trigger] (front + needle + back) == hay,
{
    if text::occurs_in(needle, hay) {
        let at = choose|at: int| text::stands_at(needle, hay, at);
        let front = hay.subrange(0, at);
        let back = hay.subrange(at + needle.len(), hay.len() as int);
        assert(hay.subrange(at, at + needle.len()) == needle);
        assert(front + needle + back =~= hay);
    }
    if exists|front: Seq<char>, back: Seq<char>| #[trigger] (front + needle + back) == hay {
        let (front, back) = choose|front: Seq<char>, back: Seq<char>|
            #[trigger] (front + needle + back) == hay;
        assert((front + needle + back).subrange(
            front.len() as int,
            (front.len() + needle.len()) as int,
        ) =~= needle);
        assert(text::stands_at(needle, hay, front.len() as int));
    }
}

/// A text stands at a place exactly if it has the characters that follow there.
pub proof fn law_standing_is_character_for_character(needle: Seq<char>, hay: Seq<char>, at: int)
    ensures
        text::stands_at(needle, hay, at) <==> 0 <= at && at + needle.len() <= hay.len() && forall|
            k: int,
        |
            0 <= k < needle.len() ==> #[trigger] needle[k] == hay[at + k],
{
    if 0 <= at && at + needle.len() <= hay.len() {
        let part = hay.subrange(at, at + needle.len());
        if text::stands_at(needle, hay, at) {
            assert forall|k: int| 0 <= k < needle.len() implies #[trigger] needle[k] == hay[at
                + k] by {
                assert(part[k] == hay[at + k]);
            }
        }
        if forall|k: int| 0 <= k < needle.len() ==> #[trigger] needle[k] == hay[at + k] {
            assert(part =~= needle);
        }
    }
}

/// Texts are ordered as a dictionary orders them: a text comes before every longer one that
/// starts with it, and otherwise the first character in which two texts differ decides.
pub proof fn law_texts_are_ordered_like_a_dictionary(
    common: Seq<char>,
    c: char,
    d: char,
    s: Seq<char>,
    t: Seq<char>,
)
    requires
        (c as int) < (d as int),
    ensures
        text::precedes(common, common.push(c) + s),
        text::precedes(common.push(c) + s, common.push(d) + t),
        !text::precedes(common.push(c) + s, common),
        !text::precedes(common.push(d) + t, common.push(c) + s),
        !text::precedes(common, common),
    decreases common.len(),
{
    let x = common.push(c) + s;
    let y = common.push(d) + t;
    if common.len() > 0 {
        let rest = common.subrange(1, common.len() as int);
        law_texts_are_ordered_like_a_dictionary(rest, c, d, s, t);
        assert(x.subrange(1, x.len() as int) =~= rest.push(c) + s);
        assert(y.subrange(1, y.len() as int) =~= rest.push(d) + t);
        assert(x[0] == common[0] && y[0] == common[0]);
    } else {
        assert(x[0] == c && y[0] == d);
    }
}

/// What a row of digits stands for, in decimal.
pub open spec fn read_decimal(s: Seq<char>) -> int
    decreases s.len(),
{
    if s.len() == 0 {
        0
    } else {
        read_decimal(s.drop_last()) * 10 + (s.last() as int - '0' as int)
    }
}

/// Writing a number and reading it gives the number back; only digits are written, and no zero
/// in front of others.
pub proof fn law_written_numbers_read_back(n: nat)
    ensures
        read_decimal(text::decimal(n)) == n,
        text::decimal(n).len() > 0,
        forall|i: int|
            0 <= i < text::decimal(n).len() ==> '0' <= #[trigger] text::decimal(n)[i] <= '9',
        text::decimal(n).len() > 1 ==> text::decimal(n)[0] != '0',
    decreases n,
{
    let d = n % 10;
    assert(((0x30 + d) as char) as int == 0x30 + d);
    if n < 10 {
        assert(text::decimal(n).drop_last() =~= Seq::empty());
        assert(read_decimal(text::decimal(n).drop_last()) == 0);
    } else {
        law_written_numbers_read_back(n / 10);
        let front = text::decimal(n / 10);
        assert(text::decimal(n).drop_last() =~= front);
        if n / 10 < 10 {
            assert(front.len() == 1);
            assert(front.drop_last() =~= Seq::empty());
            assert(read_decimal(front) == read_decimal(front.drop_last()) * 10 + (front[0] as int
                - '0' as int));
            assert(read_decimal(front.drop_last()) == 0);
        } else {
            assert(front.len() > 1) by {
                assert(text::decimal((n / 10) / 10).len() > 0) by {
                    law_written_numbers_read_back((n / 10) / 10);
                }
            }
        }
    }
}

/// A repeated character is there as often as asked for, and nothing else is.
pub proof fn law_repeated_characters_are_all_the_same(c: char, n: nat)
    ensures
        text::repeated(c, n).len() == n,
        forall|i: int| 0 <= i < n ==> #[trigger] text::repeated(c, n)[i] == c,
{
}

/// Ordering a list keeps every text as often as it was there and leaves no text before one that
/// precedes it.
pub proof fn law_ordering_keeps_the_texts(s: Seq<Seq<char>>)
    ensures
        text::in_order(s).to_multiset() == s.to_multiset(),
        forall|i: int, j: int|
            0 <= i < j < text::in_order(s).len() ==> !text::precedes(
                #[trigger] text::in_order(s)[j],
                #[trigger] text::in_order(s)[i],
            ),
{
    text::lemma_in_order(s);
    assert forall|i: int, j: int| 0 <= i < j < text::in_order(s).len() implies !text::precedes(
        #[trigger] text::in_order(s)[j],
        #[trigger] text::in_order(s)[i],
    ) by {
        assert(text::not_after(text::in_order(s)[i], text::in_order(s)[j]));
    }
}

} // verus!
