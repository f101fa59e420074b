use vstd::prelude::*;

use crate::error::{FieldError, FieldResult};
use crate::node::Node;
use crate::path::{alternatives, segments, YPath, YPaths, views};

verus! {

pub open spec fn is_digit(c: char) -> bool {
    '0' <= c && c <= '9'
}

/// The number written by a run of decimal digits.
pub open spec fn digits_value(s: Seq<char>) -> nat
    decreases s.len(),
{
    if s.len() == 0 {
        0
    } else {
        digits_value(s.drop_last()) * 10 + ((s.last() as u32) - ('0' as u32)) as nat
    }
}

/// The sequence index a segment names: all digits, and no leading zero
/// unless the segment is `0` itself.
pub open spec fn index_of(seg: Seq<char>) -> Option<nat> {
    if seg.len() > 0 && (forall|i: int| 0 <= i < seg.len() ==> is_digit(#[trigger] seg[i])) && (
    seg.len() == 1 || seg[0] != '0') {
        Some(digits_value(seg))
    } else {
        None
    }
}

/// Whether a mapping key is the string `seg`.
pub open spec fn key_is(k: Node, seg: Seq<char>) -> bool {
    match k {
        Node::Str(s) => s@ == seg,
        _ => false,
    }
}

/// The value of the first entry whose key is the string `seg`.
pub open spec fn lookup(entries: Seq<(Node, Node)>, seg: Seq<char>) -> Option<Node>
    decreases entries.len(),
{
    if entries.len() == 0 {
        None
    } else if key_is(entries[0].0, seg) {
        Some(entries[0].1)
    } else {
        lookup(entries.drop_first(), seg)
    }
}

/// One step of traversal: a key into a mapping, an index into a sequence.
pub open spec fn child(n: Node, seg: Seq<char>) -> Option<Node> {
    match n {
        Node::Hash(entries) => lookup(entries@, seg),
        Node::Array(items) => match index_of(seg) {
            Some(i) => if i < items@.len() {
                Some(items@[i as int])
            } else {
                None
            },
            None => None,
        },
        _ => None,
    }
}

/// The node reached from `n` along all of `segs`.
pub open spec fn resolve_segments(n: Node, segs: Seq<Seq<char>>) -> Option<Node>
    decreases segs.len(),
{
    if segs.len() == 0 {
        Some(n)
    } else {
        match child(n, segs[0]) {
            Some(m) => resolve_segments(m, segs.drop_first()),
            None => None,
        }
    }
}

/// The result of the first alternative that resolves.
pub open spec fn resolve_alternatives(n: Node, alts: Seq<Seq<Seq<char>>>) -> Option<Node>
    decreases alts.len(),
{
    if alts.len() == 0 {
        None
    } else {
        match resolve_segments(n, alts[0]) {
            Some(m) => Some(m),
            None => resolve_alternatives(n, alts.drop_first()),
        }
    }
}

/// The segment lists of each alternative of a path string.
pub open spec fn parsed(p: Seq<char>) -> Seq<Seq<Seq<char>>> {
    alternatives(p).map_values(|a: Seq<char>| segments(a))
}

/// The node that a path string addresses in `n`, if any.
pub open spec fn resolve(n: Node, p: Seq<char>) -> Option<Node> {
    resolve_alternatives(n, parsed(p))
}

/// The reason given when a path resolves to a node of another kind than asked for.
pub open spec fn is_wrong_type<T>(r: FieldResult<T>) -> bool {
    r matches Err(FieldError::Invalid(m)) && m@ == "wrong type"@
}

fn wrong_type<T>() -> (r: FieldResult<T>)
    ensures
        is_wrong_type(r),
{
    Err(FieldError::invalid("wrong type"))
}

/// Whether two strings hold the same characters.
pub fn str_eq(a: &str, b: &str) -> (r: bool)
    ensures
        r == (a@ == b@),
{
    let n = a.unicode_len();
    if n != b.unicode_len() {
        return false;
    }
    let mut i: usize = 0;
    while i < n
        invariant
            n == a@.len() == b@.len(),
            i <= n,
            forall|k: int| 0 <= k < i ==> a@[k] == b@[k],
        decreases n - i,
    {
        if a.get_char(i) != b.get_char(i) {
            return false;
        }
        i = i + 1;
    }
    assert(a@ =~= b@);
    true
}

/// The index a segment names, where it is below `len`.
fn seq_index(seg: &str, len: usize) -> (r: Option<usize>)
    ensures
        r == (match index_of(seg@) {
            Some(i) => if i < len {
                Some(i as usize)
            } else {
                None::<usize>
            },
            None => None::<usize>,
        }),
{
    let n = seg.unicode_len();
    if n == 0 {
        return None;
    }
    if n > 1 && seg.get_char(0) == '0' {
        return None;
    }
    let mut v: u128 = 0;
    let mut i: usize = 0;
    while i < n
        invariant
            n == seg@.len(),
            i <= n,
            forall|k: int| 0 <= k < i ==> is_digit(#[trigger] seg@[k]),
            v <= len as u128 ==> v == digits_value(seg@.take(i as int)),
            v > len as u128 ==> digits_value(seg@.take(i as int)) > len,
            v <= 10 * (len as u128) + 9,
        decreases n - i,
    {
        let c = seg.get_char(i);
        if !('0' <= c && c <= '9') {
            return None;
        }
        assert(seg@.take(i + 1).drop_last() =~= seg@.take(i as int));
        let d = (c as u32 - '0' as u32) as u128;
        if v <= len as u128 {
            v = v * 10 + d;
        } else {
            let ghost prev = digits_value(seg@.take(i as int));
            assert(digits_value(seg@.take(i + 1)) >= prev) by (nonlinear_arith)
                requires
                    digits_value(seg@.take(i + 1)) == prev * 10 + d,
            ;
        }
        i = i + 1;
    }
    assert(seg@.take(n as int) =~= seg@);
    if v < len as u128 {
        Some(v as usize)
    } else {
        None
    }
}

impl Node {
    /// One step of traversal along `seg`.
    pub fn child<'a>(&'a self, seg: &str) -> (r: Option<&'a Node>)
        ensures
            r matches Some(m) ==> child(*self, seg@) == Some(*m),
            r is None ==> child(*self, seg@) is None,
    {
        match self {
            Node::Hash(entries) => {
                let mut i: usize = 0;
                assert(entries@.subrange(0, entries@.len() as int) =~= entries@);
                while i < entries.len()
                    invariant
                        i <= entries@.len(),
                        child(*self, seg@) == lookup(entries@, seg@),
                        lookup(entries@, seg@) == lookup(
                            entries@.subrange(i as int, entries@.len() as int),
                            seg@,
                        ),
                    decreases entries@.len() - i,
                {
                    assert(entries@.subrange(i as int, entries@.len() as int).drop_first()
                        =~= entries@.subrange(i + 1, entries@.len() as int));
                    let entry = &entries[i];
                    let found = match &entry.0 {
                        Node::Str(k) => str_eq(k.as_str(), seg),
                        _ => false,
                    };
                    assert(found == key_is(entry.0, seg@));
                    assert(entries@.subrange(i as int, entries@.len() as int)[0] == entries@[i as int]);
                    if found {
                        return Some(&entry.1);
                    }
                    i = i + 1;
                }
                None
            },
            Node::Array(items) => match seq_index(seg, items.len()) {
                Some(i) => Some(&items[i]),
                None => None,
            },
            _ => None,
        }
    }

    /// The node reached along all segments of one alternative.
    pub fn resolve_path<'a>(&'a self, path: YPath) -> (r: Option<&'a Node>)
        ensures
            r matches Some(m) ==> resolve_segments(*self, segments(path.0@)) == Some(*m),
            r is None ==> resolve_segments(*self, segments(path.0@)) is None,
    {
        let segs = path.elements();
        let mut cur: &'a Node = self;
        let mut i: usize = 0;
        assert(views(segs@).subrange(0, segs@.len() as int) =~= views(segs@));
        while i < segs.len()
            invariant
                i <= segs@.len(),
                views(segs@) == segments(path.0@),
                resolve_segments(*self, views(segs@)) == resolve_segments(
                    *cur,
                    views(segs@).subrange(i as int, segs@.len() as int),
                ),
            decreases segs@.len() - i,
        {
            let ghost rest = views(segs@).subrange(i as int, segs@.len() as int);
            assert(rest.drop_first() =~= views(segs@).subrange(i + 1, segs@.len() as int));
            match cur.child(segs[i]) {
                Some(next) => {
                    cur = next;
                },
                None => {
                    return None;
                },
            }
            i = i + 1;
        }
        assert(views(segs@).subrange(i as int, segs@.len() as int) =~= Seq::<Seq<char>>::empty());
        Some(cur)
    }

    /// The node that `path` addresses: the first of its alternatives that
    /// resolves.
    pub fn get<'a>(&'a self, path: &str) -> (r: Option<&'a Node>)
        ensures
            r matches Some(m) ==> resolve(*self, path@) == Some(*m),
            r is None ==> resolve(*self, path@) is None,
    {
        let paths = YPaths(path);
        let alts = paths.alternatives();
        let ghost all = parsed(path@);
        let mut i: usize = 0;
        assert(all.subrange(0, all.len() as int) =~= all);
        while i < alts.len()
            invariant
                i <= alts@.len(),
                alts@.len() == alternatives(path@).len(),
                forall|k: int| 0 <= k < alts@.len() ==> (#[trigger] alts@[k]).0@ == alternatives(path@)[k],
                all == parsed(path@),
                resolve(*self, path@) == resolve_alternatives(
                    *self,
                    all.subrange(i as int, all.len() as int),
                ),
            decreases alts@.len() - i,
        {
            let ghost rest = all.subrange(i as int, all.len() as int);
            assert(rest.drop_first() =~= all.subrange(i + 1, all.len() as int));
            assert(rest[0] == segments(alts@[i as int].0@));
            match self.resolve_path(alts[i]) {
                Some(found) => {
                    return Some(found);
                },
                None => {},
            }
            i = i + 1;
        }
        assert(all.subrange(i as int, all.len() as int) =~= Seq::<Seq<Seq<char>>>::empty());
        None
    }

    /// The string at `path`.
    pub fn get_str<'a>(&'a self, path: &str) -> (r: FieldResult<&'a str>)
        ensures
            match resolve(*self, path@) {
                None => r == Err::<&str, FieldError>(FieldError::Missing),
                Some(Node::Str(s)) => r matches Ok(t) && t@ == s@,
                Some(_) => is_wrong_type(r),
            },
    {
        match self.get(path) {
            None => Err(FieldError::Missing),
            Some(Node::Str(s)) => Ok(s.as_str()),
            Some(_) => wrong_type(),
        }
    }

    /// An owned copy of the text at `path`: a string, or a real number as written.
    pub fn get_string(&self, path: &str) -> (r: FieldResult<String>)
        ensures
            match resolve(*self, path@) {
                None => r == Err::<String, FieldError>(FieldError::Missing),
                Some(Node::Str(s)) => r == Ok::<String, FieldError>(s),
                Some(Node::Real(s)) => r == Ok::<String, FieldError>(s),
                Some(_) => is_wrong_type(r),
            },
    {
        match self.get(path) {
            None => Err(FieldError::Missing),
            Some(Node::Str(s)) => Ok(s.clone()),
            Some(Node::Real(s)) => Ok(s.clone()),
            Some(_) => wrong_type(),
        }
    }

    /// The integer at `path`.
    pub fn get_int(&self, path: &str) -> (r: FieldResult<i64>)
        ensures
            match resolve(*self, path@) {
                None => r == Err::<i64, FieldError>(FieldError::Missing),
                Some(Node::Integer(i)) => r == Ok::<i64, FieldError>(i),
                Some(_) => is_wrong_type(r),
            },
    {
        match self.get(path) {
            None => Err(FieldError::Missing),
            Some(Node::Integer(i)) => Ok(*i),
            Some(_) => wrong_type(),
        }
    }

    /// The boolean at `path`.
    pub fn get_bool(&self, path: &str) -> (r: FieldResult<bool>)
        ensures
            match resolve(*self, path@) {
                None => r == Err::<bool, FieldError>(FieldError::Missing),
                Some(Node::Boolean(b)) => r == Ok::<bool, FieldError>(b),
                Some(_) => is_wrong_type(r),
            },
    {
        match self.get(path) {
            None => Err(FieldError::Missing),
            Some(Node::Boolean(b)) => Ok(*b),
            Some(_) => wrong_type(),
        }
    }

    /// The entries of the mapping at `path`.
    pub fn get_hash<'a>(&'a self, path: &str) -> (r: FieldResult<&'a Vec<(Node, Node)>>)
        ensures
            match resolve(*self, path@) {
                None => r == Err::<&Vec<(Node, Node)>, FieldError>(FieldError::Missing),
                Some(Node::Hash(e)) => r matches Ok(f) && *f == e,
                Some(_) => is_wrong_type(r),
            },
    {
        match self.get(path) {
            None => Err(FieldError::Missing),
            Some(Node::Hash(e)) => Ok(e),
            Some(_) => wrong_type(),
        }
    }

    /// The items of the sequence at `path`.
    pub fn get_vec<'a>(&'a self, path: &str) -> (r: FieldResult<&'a Vec<Node>>)
        ensures
            match resolve(*self, path@) {
                None => r == Err::<&Vec<Node>, FieldError>(FieldError::Missing),
                Some(Node::Array(v)) => r matches Ok(f) && *f == v,
                Some(_) => is_wrong_type(r),
            },
    {
        match self.get(path) {
            None => Err(FieldError::Missing),
            Some(Node::Array(v)) => Ok(v),
            Some(_) => wrong_type(),
        }
    }
}

} // verus!
