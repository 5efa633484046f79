//! Handover summaries: joining the summaries of successive slices of a conversation.

use vstd::prelude::*;
use vstd::string::*;

use crate::text;
use crate::text::{join_texts, trim};

verus! {

/// The texts of a list as character sequences.
pub open spec fn strs(list: Seq<&str>) -> Seq<Seq<char>> {
    Seq::new(list.len(), |i: int| list[i]@)
}

/// The blank line between two paragraphs.
pub open spec fn paragraph_break() -> Seq<char> {
    seq!['\n', '\n']
}

/// The summaries worth keeping: each one trimmed, the blank ones left out.
pub open spec fn kept(summaries: Seq<Seq<char>>) -> Seq<Seq<char>>
    decreases summaries.len(),
{
    if summaries.len() == 0 {
        Seq::empty()
    } else {
        let rest = kept(summaries.drop_last());
        let last = text::trimmed(summaries.last());
        if last.len() == 0 {
            rest
        } else {
            rest.push(last)
        }
    }
}

/// The summaries worth keeping, as paragraphs of one text.
pub open spec fn concatenated(summaries: Seq<Seq<char>>) -> Seq<char> {
    text::join(kept(summaries), paragraph_break())
}

/// Joins stage summaries, and the summary of what came after them, into one handover summary.
/// Each summary is trimmed; blank ones leave no trace.
pub fn concatenate_summaries(summaries: &[&str]) -> (out: String)
    ensures
        out@ == concatenated(strs(summaries@)),
{
    let mut parts: Vec<String> = Vec::new();
    let mut i: usize = 0;
    assert(text::texts(parts@) =~= kept(strs(summaries@).take(0)));
    while i < summaries.len()
        invariant
            i <= summaries@.len(),
            text::texts(parts@) == kept(strs(summaries@).take(i as int)),
        decreases summaries@.len() - i,
    {
        let ghost upto = strs(summaries@).take(i + 1);
        assert(upto.drop_last() =~= strs(summaries@).take(i as int));
        assert(upto.last() == summaries@[i as int]@);
        let part = trim(summaries[i]);
        if !part.as_str().is_empty() {
            let ghost before = parts@;
            parts.push(part);
            assert(text::texts(parts@) =~= text::texts(before).push(part@));
        }
        i += 1;
    }
    assert(strs(summaries@).take(i as int) =~= strs(summaries@));
    proof {
        reveal_strlit("\n\n");
        assert("\n\n"@ =~= paragraph_break());
    }
    join_texts(&parts, "\n\n")
}

/// Keeping works through a list in portions.
pub proof fn lemma_kept_append(a: Seq<Seq<char>>, b: Seq<Seq<char>>)
    ensures
        kept(a + b) == kept(a) + kept(b),
    decreases b.len(),
{
    if b.len() == 0 {
        assert(a + b =~= a);
        assert(kept(a) + kept(b) =~= kept(a));
    } else {
        assert((a + b).drop_last() =~= a + b.drop_last());
        lemma_kept_append(a, b.drop_last());
        assert(kept(a + b) =~= kept(a) + kept(b));
    }
}

/// What is kept is neither empty nor white at the ends.
pub proof fn lemma_kept_snug(a: Seq<Seq<char>>)
    ensures
        forall|i: int|
            0 <= i < kept(a).len() ==> (#[trigger] kept(a)[i]).len() > 0 && text::snug(kept(a)[i]),
    decreases a.len(),
{
    if a.len() > 0 {
        lemma_kept_snug(a.drop_last());
        text::lemma_trimmed_snug(a.last());
        let rest = kept(a.drop_last());
        assert forall|i: int| 0 <= i < kept(a).len() implies (#[trigger] kept(a)[i]).len() > 0
            && text::snug(kept(a)[i]) by {
            if i < rest.len() {
                assert(kept(a)[i] == rest[i]);
            }
        }
    }
}

/// What is kept of one text that is already trimmed.
proof fn lemma_kept_single(s: Seq<char>)
    requires
        text::snug(s),
    ensures
        kept(seq![s]) == if s.len() == 0 {
            Seq::<Seq<char>>::empty()
        } else {
            seq![s]
        },
{
    text::lemma_trimmed_snug(s);
    let one = seq![s];
    assert(one.drop_last() =~= Seq::empty());
    assert(kept(one.drop_last()) =~= Seq::empty());
    if s.len() > 0 {
        assert(kept(one) =~= one);
    }
}

/// Summaries may be concatenated in portions: the earlier ones first, the later ones after
/// them, and the two results together give what concatenating them all at once gives.
pub proof fn law_concatenation_regroups(a: Seq<Seq<char>>, b: Seq<Seq<char>>)
    ensures
        concatenated(seq![concatenated(a), concatenated(b)]) == concatenated(a + b),
{
    let sep = paragraph_break();
    let ja = concatenated(a);
    let jb = concatenated(b);
    lemma_kept_append(a, b);
    lemma_kept_snug(a);
    lemma_kept_snug(b);
    text::lemma_join_snug(kept(a), sep);
    text::lemma_join_snug(kept(b), sep);
    lemma_kept_single(ja);
    lemma_kept_single(jb);
    lemma_kept_append(seq![ja], seq![jb]);
    assert(seq![ja] + seq![jb] =~= seq![ja, jb]);
    text::lemma_join_append(kept(a), kept(b), sep);
    text::lemma_join_append(kept(seq![ja]), kept(seq![jb]), sep);
}

/// A summary that holds nothing but white space changes nothing, wherever it stands.
pub proof fn law_blank_summaries_leave_no_trace(
    a: Seq<Seq<char>>,
    s: Seq<char>,
    b: Seq<Seq<char>>,
)
    requires
        text::blank(s),
    ensures
        concatenated(a + seq![s] + b) == concatenated(a + b),
{
    lemma_kept_append(a + seq![s], b);
    lemma_kept_append(a, seq![s]);
    lemma_kept_append(a, b);
    text::lemma_trimmed_snug(s);
    assert(seq![s].drop_last() =~= Seq::empty());
    assert(kept(seq![s].drop_last()) =~= Seq::empty());
    assert(kept(seq![s]) =~= Seq::empty());
    assert(kept(a) + kept(seq![s]) =~= kept(a));
}

/// Every summary that is not blank stands in the concatenation, trimmed.
pub proof fn law_concatenation_holds_each_summary(a: Seq<Seq<char>>, i: int)
    requires
        0 <= i < a.len(),
    ensures
        text::occurs_in(text::trimmed(a[i]), concatenated(a)),
{
    let t = text::trimmed(a[i]);
    if t.len() == 0 {
        assert(concatenated(a).subrange(0, 0) =~= t);
        assert(text::stands_at(t, concatenated(a), 0));
    } else {
        let front = a.take(i);
        let back = a.skip(i + 1);
        assert(a =~= front + seq![a[i]] + back);
        lemma_kept_append(front + seq![a[i]], back);
        lemma_kept_append(front, seq![a[i]]);
        assert(seq![a[i]].drop_last() =~= Seq::empty());
        assert(kept(seq![a[i]].drop_last()) =~= Seq::empty());
        assert(kept(seq![a[i]]) =~= seq![t]);
        let n = kept(front).len() as int;
        assert(kept(a)[n] == t);
        text::lemma_join_holds(kept(a), paragraph_break(), n);
    }
}

} // verus!
