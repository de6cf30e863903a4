//! Facts about sequences that several modules use.

use vstd::prelude::*;

verus! {

/// The elements of `s` without repetition, each at the place of its first
/// occurrence.
pub open spec fn distinct<A>(s: Seq<A>) -> Seq<A>
    decreases s.len(),
{
    if s.len() == 0 {
        Seq::empty()
    } else {
        let rest = distinct(s.drop_last());
        if rest.contains(s.last()) {
            rest
        } else {
            rest.push(s.last())
        }
    }
}

/// `distinct` repeats nothing and holds exactly the elements of its argument.
pub proof fn lemma_distinct<A>(s: Seq<A>)
    ensures
        distinct(s).no_duplicates(),
        forall|x: A|
            #![trigger distinct(s).contains(x)]
            #![trigger s.contains(x)]
            distinct(s).contains(x) <==> s.contains(x),
    decreases s.len(),
{
    if s.len() > 0 {
        let rest = s.drop_last();
        lemma_distinct(rest);
        let d = distinct(rest);
        assert forall|x: A| distinct(s).contains(x) <==> s.contains(x) by {
            assert(s =~= rest.push(s.last()));
            lemma_push_contains(rest, s.last(), x);
            lemma_push_contains(d, s.last(), x);
        }
    }
}

/// The first `i + 1` elements of `s` hold what the first `i` hold, and `s[i]`.
pub proof fn lemma_take_contains<A>(s: Seq<A>, i: int, x: A)
    requires
        0 <= i < s.len(),
    ensures
        s.take(i + 1).contains(x) <==> s.take(i).contains(x) || s[i] == x,
{
    if s[i] == x {
        assert(s.take(i + 1)[i] == x);
    }
}

/// A sequence with one more element holds what it held, and that element.
pub proof fn lemma_push_contains<A>(s: Seq<A>, last: A, x: A)
    ensures
        s.push(last).contains(x) <==> s.contains(x) || last == x,
{
    let now = s.push(last);
    if s.contains(x) {
        let k = choose|k: int| 0 <= k < s.len() && s[k] == x;
        assert(now[k] == x);
    }
    if last == x {
        assert(now[s.len() as int] == x);
    }
}

} // verus!
