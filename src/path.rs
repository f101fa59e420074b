use vstd::prelude::*;

verus! {

/// `.` and `/` separate the segments of a path, interchangeably.
pub open spec fn is_sep(c: char) -> bool {
    c == '.' || c == '/'
}

/// The finished tokens, with the token in progress added if it is not empty.
pub open spec fn flush(done: Seq<Seq<char>>, cur: Seq<char>) -> Seq<Seq<char>> {
    if cur.len() > 0 {
        done.push(cur)
    } else {
        done
    }
}

/// One character of segment splitting: a separator closes the token in progress.
pub open spec fn seg_step(st: (Seq<Seq<char>>, Seq<char>), c: char) -> (Seq<Seq<char>>, Seq<char>) {
    if is_sep(c) {
        (flush(st.0, st.1), Seq::empty())
    } else {
        (st.0, st.1.push(c))
    }
}

/// Segment splitting state after reading all of `s`.
pub open spec fn seg_fold(s: Seq<char>) -> (Seq<Seq<char>>, Seq<char>)
    decreases s.len(),
{
    if s.len() == 0 {
        (Seq::empty(), Seq::empty())
    } else {
        seg_step(seg_fold(s.drop_last()), s.last())
    }
}

/// The segments of one path: the non-empty runs between separators, in order.
pub open spec fn segments(s: Seq<char>) -> Seq<Seq<char>> {
    flush(seg_fold(s).0, seg_fold(s).1)
}

/// Splitting state on `sep` after reading all of `s`: finished pieces and
/// the one in progress.
pub open spec fn piece_fold(s: Seq<char>, sep: char) -> (Seq<Seq<char>>, Seq<char>)
    decreases s.len(),
{
    if s.len() == 0 {
        (Seq::empty(), Seq::empty())
    } else {
        let st = piece_fold(s.drop_last(), sep);
        if s.last() == sep {
            (st.0.push(st.1), Seq::empty())
        } else {
            (st.0, st.1.push(s.last()))
        }
    }
}

/// The pieces of `s` between occurrences of `sep`, empty ones included.
pub open spec fn pieces(s: Seq<char>, sep: char) -> Seq<Seq<char>> {
    piece_fold(s, sep).0.push(piece_fold(s, sep).1)
}

/// The alternatives of a path string, split on `|`, empty ones included.
pub open spec fn alternatives(s: Seq<char>) -> Seq<Seq<char>> {
    pieces(s, '|')
}

/// Splits `s` on every `sep`, keeping empty pieces.
pub fn split_char<'a>(s: &'a str, sep: char) -> (r: Vec<&'a str>)
    ensures
        views(r@) == pieces(s@, sep),
{
    let n = s.unicode_len();
    let mut out: Vec<&'a str> = Vec::new();
    let mut start: usize = 0;
    let mut i: usize = 0;
    while i < n
        invariant
            n == s@.len(),
            start <= i <= n,
            piece_fold(s@.take(i as int), sep) == (views(out@), s@.subrange(start as int, i as int)),
        decreases n - i,
    {
        let c = s.get_char(i);
        assert(s@.take(i + 1).drop_last() =~= s@.take(i as int));
        if c == sep {
            let part = s.substring_char(start, i);
            let ghost before = out@;
            out.push(part);
            assert(views(out@) =~= views(before).push(part@));
            start = i + 1;
            assert(s@.subrange(start as int, i + 1) =~= Seq::<char>::empty());
        } else {
            assert(s@.subrange(start as int, i + 1) =~= s@.subrange(start as int, i as int).push(c));
        }
        i = i + 1;
    }
    assert(s@.take(n as int) =~= s@);
    let last = s.substring_char(start, n);
    let ghost before = out@;
    out.push(last);
    assert(views(out@) =~= views(before).push(last@));
    out
}

pub open spec fn views(v: Seq<&str>) -> Seq<Seq<char>> {
    v.map_values(|t: &str| t@)
}

/// An owned path string, possibly holding several alternatives.
pub struct Paths(pub String);

/// A borrowed path string, possibly holding several alternatives.
pub struct YPaths<'a>(pub &'a str);

/// A single alternative of a path.
#[derive(Clone, Copy)]
pub struct YPath<'a>(pub &'a str);

impl Paths {
    pub fn as_ref<'a>(&'a self) -> (r: YPaths<'a>)
        ensures
            r.0@ == self.0@,
    {
        YPaths(self.0.as_str())
    }
}

impl<'a> YPaths<'a> {
    fn str(&self) -> (r: &'a str)
        ensures
            r@ == self.0@,
    {
        self.0
    }

    /// The alternatives, in the order written.
    pub fn alternatives(&self) -> (r: Vec<YPath<'a>>)
        ensures
            r@.len() == alternatives(self.0@).len(),
            forall|i: int| 0 <= i < r@.len() ==> (#[trigger] r@[i]).0@ == alternatives(self.0@)[i],
    {
        let parts = split_char(self.str(), '|');
        let mut out: Vec<YPath<'a>> = Vec::new();
        let mut i: usize = 0;
        while i < parts.len()
            invariant
                i <= parts@.len(),
                views(parts@) == alternatives(self.0@),
                out@.len() == i,
                forall|k: int| 0 <= k < i ==> (#[trigger] out@[k]).0@ == parts@[k]@,
            decreases parts@.len() - i,
        {
            out.push(YPath(parts[i]));
            i = i + 1;
        }
        out
    }
}

impl<'a> From<&'a str> for YPaths<'a> {
    fn from(s: &'a str) -> YPaths<'a> {
        YPaths(s)
    }
}

impl<'a> vstd::std_specs::convert::FromSpecImpl<&'a str> for YPaths<'a> {
    open spec fn obeys_from_spec() -> bool {
        true
    }

    open spec fn from_spec(s: &'a str) -> YPaths<'a> {
        YPaths(s)
    }
}

impl<'a> From<&'a str> for Paths {
    fn from(s: &'a str) -> (r: Paths)
        ensures
            r.0@ == s@,
    {
        Paths(s.to_string())
    }
}

impl<'a> vstd::std_specs::convert::FromSpecImpl<&'a str> for Paths {
    open spec fn obeys_from_spec() -> bool {
        false
    }

    open spec fn from_spec(s: &'a str) -> Paths {
        arbitrary()
    }
}

impl<'a> AsRef<str> for YPaths<'a> {
    fn as_ref(&self) -> (r: &str)
        ensures
            r@ == self.0@,
    {
        self.0
    }
}

impl<'a> AsRef<str> for YPath<'a> {
    fn as_ref(&self) -> (r: &str)
        ensures
            r@ == self.0@,
    {
        self.0
    }
}

impl<'a> YPath<'a> {
    fn str(&self) -> (r: &'a str)
        ensures
            r@ == self.0@,
    {
        self.0
    }

    /// The segments of this path, as slices of it.
    pub fn elements(&self) -> (r: Vec<&'a str>)
        ensures
            views(r@) == segments(self.0@),
    {
        let s = self.str();
        let n = s.unicode_len();
        let mut out: Vec<&'a str> = Vec::new();
        let mut start: usize = 0;
        let mut i: usize = 0;
        while i < n
            invariant
                n == s@.len(),
                start <= i <= n,
                s@ == self.0@,
                seg_fold(s@.take(i as int)) == (views(out@), s@.subrange(start as int, i as int)),
            decreases n - i,
        {
            let c = s.get_char(i);
            assert(s@.take(i + 1).drop_last() =~= s@.take(i as int));
            if c == '.' || c == '/' {
                if start < i {
                    let part = s.substring_char(start, i);
                    let ghost before = out@;
                    out.push(part);
                    assert(views(out@) =~= views(before).push(part@));
                }
                start = i + 1;
                assert(s@.subrange(start as int, i + 1) =~= Seq::<char>::empty());
            } else {
                assert(s@.subrange(start as int, i + 1) =~= s@.subrange(start as int, i as int).push(c));
            }
            i = i + 1;
        }
        assert(s@.take(n as int) =~= s@);
        if start < n {
            let part = s.substring_char(start, n);
            let ghost before = out@;
            out.push(part);
            assert(views(out@) =~= views(before).push(part@));
        }
        out
    }
}

} // verus!
