//! Joining pieces of text with a separator, with the sequence-level
//! specification the prompt composer and the debug listing are stated
//! against.

use vstd::prelude::*;

verus! {

/// The text obtained by writing every part in order with `sep` between
/// two consecutive parts.
pub open spec fn spec_join(parts: Seq<Seq<char>>, sep: Seq<char>) -> Seq<char>
    decreases parts.len(),
{
    if parts.len() == 0 {
        Seq::empty()
    } else if parts.len() == 1 {
        parts[0]
    } else {
        spec_join(parts.drop_last(), sep) + sep + parts.last()
    }
}

/// Extending a join by one more part appends the separator (when the join
/// was not empty of parts) and then the part.
pub proof fn lemma_join_push(parts: Seq<Seq<char>>, sep: Seq<char>, x: Seq<char>)
    ensures
        parts.len() == 0 ==> spec_join(parts.push(x), sep) == x,
        parts.len() > 0 ==> spec_join(parts.push(x), sep) == spec_join(parts, sep) + sep + x,
{
    let p = parts.push(x);
    assert(p.drop_last() =~= parts);
    assert(p.last() == x);
}

/// A subrange taken inside the left operand of a concatenation is
/// unchanged by the concatenation.
pub proof fn lemma_concat_subrange_left(a: Seq<char>, b: Seq<char>, off: int, len: int)
    requires
        0 <= off,
        0 <= len,
        off + len <= a.len(),
    ensures
        (a + b).subrange(off, off + len) == a.subrange(off, off + len),
{
    assert((a + b).subrange(off, off + len) =~= a.subrange(off, off + len));
}

/// The right operand of a concatenation is the subrange after the left one.
pub proof fn lemma_concat_subrange_right(a: Seq<char>, b: Seq<char>)
    ensures
        (a + b).subrange(a.len() as int, (a.len() + b.len()) as int) == b,
{
    assert((a + b).subrange(a.len() as int, (a.len() + b.len()) as int) =~= b);
}

/// `part` stands verbatim at position `off` of `s`.
pub open spec fn occurs_at(s: Seq<char>, part: Seq<char>, off: int) -> bool {
    0 <= off && off + part.len() <= s.len() && s.subrange(off, off + part.len() as int) == part
}

/// Every part occurs verbatim somewhere in the join.
pub proof fn lemma_join_contains_part(parts: Seq<Seq<char>>, sep: Seq<char>, i: int)
    requires
        0 <= i < parts.len(),
    ensures
        exists|off: int| occurs_at(spec_join(parts, sep), parts[i], off),
    decreases parts.len(),
{
    let j = spec_join(parts, sep);
    if parts.len() == 1 {
        assert(j.subrange(0, parts[0].len() as int) =~= parts[0]);
        assert(occurs_at(j, parts[i], 0));
    } else if i == parts.len() - 1 {
        let front = spec_join(parts.drop_last(), sep) + sep;
        assert(j == front + parts.last());
        lemma_concat_subrange_right(front, parts.last());
        assert(occurs_at(j, parts[i], front.len() as int));
    } else {
        let front = parts.drop_last();
        lemma_join_contains_part(front, sep, i);
        let off = choose|off: int| occurs_at(spec_join(front, sep), front[i], off);
        assert(j == spec_join(front, sep) + sep + parts.last());
        lemma_concat_subrange_left(spec_join(front, sep), sep, off, front[i].len() as int);
        lemma_concat_subrange_left(
            spec_join(front, sep) + sep,
            parts.last(),
            off,
            front[i].len() as int,
        );
        assert(occurs_at(j, parts[i], off));
    }
}

/// Joins the parts with the separator.
pub fn join_with(parts: &Vec<String>, sep: &str) -> (r: String)
    ensures
        r@ == spec_join(parts.deep_view(), sep@),
{
    let mut r = String::new();
    let mut i: usize = 0;
    while i < parts.len()
        invariant
            i <= parts@.len(),
            r@ == spec_join(parts.deep_view().take(i as int), sep@),
        decreases parts@.len() - i,
    {
        if i > 0 {
            r.append(sep);
        }
        r.append(parts[i].as_str());
        proof {
            let pre = parts.deep_view().take(i as int);
            assert(parts.deep_view().take(i + 1) =~= pre.push(parts.deep_view()[i as int]));
            lemma_join_push(pre, sep@, parts.deep_view()[i as int]);
        }
        i = i + 1;
    }
    proof {
        assert(parts.deep_view().take(parts@.len() as int) =~= parts.deep_view());
    }
    r
}

} // verus!
