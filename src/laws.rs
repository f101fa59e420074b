use vstd::prelude::*;

use crate::node::Node;
use crate::path::{flush, is_sep, piece_fold, seg_fold, seg_step, segments};
use crate::pathfinder::{parsed, resolve, resolve_alternatives};
use crate::validator::{joined, result_view, ValidationResult};

verus! {

/// Splitting state on `|` and on separators at once: the segment lists of
/// the finished alternatives, and the segment state of the one in progress.
pub open spec fn path_fold(s: Seq<char>) -> (Seq<Seq<Seq<char>>>, (Seq<Seq<char>>, Seq<char>))
    decreases s.len(),
{
    if s.len() == 0 {
        (Seq::empty(), (Seq::empty(), Seq::empty()))
    } else {
        let st = path_fold(s.drop_last());
        if s.last() == '|' {
            (st.0.push(flush(st.1.0, st.1.1)), (Seq::empty(), Seq::empty()))
        } else {
            (st.0, seg_step(st.1, s.last()))
        }
    }
}

pub open spec fn path_result(st: (Seq<Seq<Seq<char>>>, (Seq<Seq<char>>, Seq<char>))) -> Seq<
    Seq<Seq<char>>,
> {
    st.0.push(flush(st.1.0, st.1.1))
}

proof fn lemma_path_fold_split(s: Seq<char>)
    ensures
        path_fold(s) == (piece_fold(s, '|').0.map_values(|a: Seq<char>| segments(a)), seg_fold(
            piece_fold(s, '|').1,
        )),
    decreases s.len(),
{
    if s.len() > 0 {
        let t = s.drop_last();
        lemma_path_fold_split(t);
        let cur = piece_fold(t, '|').1;
        if s.last() == '|' {
            assert(piece_fold(t, '|').0.push(cur).map_values(|a: Seq<char>| segments(a))
                =~= piece_fold(t, '|').0.map_values(|a: Seq<char>| segments(a)).push(segments(cur)));
        } else {
            assert(cur.push(s.last()).drop_last() =~= cur);
        }
    }
}

proof fn lemma_parsed(s: Seq<char>)
    ensures
        parsed(s) == path_result(path_fold(s)),
{
    lemma_path_fold_split(s);
    let st = piece_fold(s, '|');
    assert(st.0.push(st.1).map_values(|a: Seq<char>| segments(a)) =~= st.0.map_values(
        |a: Seq<char>| segments(a),
    ).push(segments(st.1)));
}

proof fn lemma_path_fold_congruent(x: Seq<char>, y: Seq<char>, b: Seq<char>)
    requires
        path_fold(x) == path_fold(y),
    ensures
        path_fold(x + b) == path_fold(y + b),
    decreases b.len(),
{
    if b.len() == 0 {
        assert(x + b =~= x);
        assert(y + b =~= y);
    } else {
        lemma_path_fold_congruent(x, y, b.drop_last());
        assert((x + b).drop_last() =~= x + b.drop_last());
        assert((y + b).drop_last() =~= y + b.drop_last());
    }
}

proof fn lemma_path_fold_after_bar(x: Seq<char>, q: Seq<char>)
    requires
        path_fold(x).1 == (Seq::<Seq<char>>::empty(), Seq::<char>::empty()),
    ensures
        path_fold(x + q) == (path_fold(x).0 + path_fold(q).0, path_fold(q).1),
    decreases q.len(),
{
    if q.len() == 0 {
        assert(x + q =~= x);
        assert(path_fold(x).0 + path_fold(q).0 =~= path_fold(x).0);
    } else {
        lemma_path_fold_after_bar(x, q.drop_last());
        assert((x + q).drop_last() =~= x + q.drop_last());
        let p0 = path_fold(x).0;
        let st = path_fold(q.drop_last());
        assert((p0 + st.0).push(flush(st.1.0, st.1.1)) =~= p0 + st.0.push(flush(st.1.0, st.1.1)));
    }
}

proof fn lemma_resolve_concat(n: Node, a: Seq<Seq<Seq<char>>>, b: Seq<Seq<Seq<char>>>)
    ensures
        resolve_alternatives(n, a + b) == match resolve_alternatives(n, a) {
            Some(v) => Some(v),
            None => resolve_alternatives(n, b),
        },
    decreases a.len(),
{
    if a.len() == 0 {
        assert(a + b =~= b);
    } else {
        lemma_resolve_concat(n, a.drop_first(), b);
        assert((a + b).drop_first() =~= a.drop_first() + b);
        assert((a + b)[0] == a[0]);
    }
}

/// Exchanging one separator for the other anywhere in a path leaves its
/// resolution unchanged: `a.b` and `a/b` address the same node.
pub proof fn law_separators_interchangeable(n: Node, a: Seq<char>, b: Seq<char>, c1: char, c2: char)
    requires
        is_sep(c1),
        is_sep(c2),
    ensures
        resolve(n, a + seq![c1] + b) == resolve(n, a + seq![c2] + b),
{
    assert((a + seq![c1]).drop_last() =~= a);
    assert((a + seq![c2]).drop_last() =~= a);
    lemma_path_fold_congruent(a + seq![c1], a + seq![c2], b);
    lemma_parsed(a + seq![c1] + b);
    lemma_parsed(a + seq![c2] + b);
}

/// A separator in front of a path does not change its resolution.
pub proof fn law_leading_separator(n: Node, p: Seq<char>, c: char)
    requires
        is_sep(c),
    ensures
        resolve(n, seq![c] + p) == resolve(n, p),
{
    let e = Seq::<char>::empty();
    assert(seq![c].drop_last() =~= e);
    lemma_path_fold_congruent(seq![c], e, p);
    assert(e + p =~= p);
    lemma_parsed(seq![c] + p);
    lemma_parsed(p);
}

/// A separator at the end of a path does not change its resolution.
pub proof fn law_trailing_separator(n: Node, p: Seq<char>, c: char)
    requires
        is_sep(c),
    ensures
        resolve(n, p + seq![c]) == resolve(n, p),
{
    assert((p + seq![c]).drop_last() =~= p);
    lemma_parsed(p + seq![c]);
    lemma_parsed(p);
}

/// Doubling a separator does not change a path's resolution: `a//b` and
/// `a/b` address the same node.
pub proof fn law_duplicate_separator(n: Node, a: Seq<char>, b: Seq<char>, c1: char, c2: char)
    requires
        is_sep(c1),
        is_sep(c2),
    ensures
        resolve(n, a + seq![c1, c2] + b) == resolve(n, a + seq![c1] + b),
{
    let x = a + seq![c1, c2];
    let y = a + seq![c1];
    assert(x.drop_last() =~= y);
    assert(y.drop_last() =~= a);
    lemma_path_fold_congruent(x, y, b);
    lemma_parsed(x + b);
    lemma_parsed(y + b);
}

/// Alternation is left-biased: `p|q` gives what `p` gives where `p`
/// resolves, and what `q` gives otherwise.
pub proof fn law_alternation_left_biased(n: Node, p: Seq<char>, q: Seq<char>)
    ensures
        resolve(n, p + seq!['|'] + q) == match resolve(n, p) {
            Some(v) => Some(v),
            None => resolve(n, q),
        },
{
    let x = p + seq!['|'];
    assert(x.drop_last() =~= p);
    lemma_parsed(p);
    lemma_parsed(q);
    lemma_parsed(x + q);
    lemma_path_fold_after_bar(x, q);
    let pq = path_fold(q);
    assert(path_result(path_fold(x + q)) =~= parsed(p) + path_result(pq));
    lemma_resolve_concat(n, parsed(p), parsed(q));
}

/// Joining validation results is associative.
pub proof fn law_and_associative(a: ValidationResult, b: ValidationResult, c: ValidationResult)
    ensures
        joined(joined(result_view(a), result_view(b)), result_view(c)) == joined(
            result_view(a),
            joined(result_view(b), result_view(c)),
        ),
{
    let (x, y, z) = (result_view(a), result_view(b), result_view(c));
    assert(x.0 + y.0 + z.0 =~= x.0 + (y.0 + z.0));
    assert(x.1 + y.1 + z.1 =~= x.1 + (y.1 + z.1));
}

} // verus!
