use vstd::prelude::*;

use crate::error::{invalid_reason, FieldError, FieldResult, Invalidatable};
use crate::node::Node;
use crate::pathfinder::{lookup, resolve, str_eq};

verus! {

/// What std's `Debug` makes of a string: the text quoted, with special
/// characters escaped.
pub uninterp spec fn debug_text(s: Seq<char>) -> Seq<char>;

/// Relies on std's `Debug` for `str`, through `format!`, to quote a field name.
#[verifier::external_body]
fn debug_quoted(name: &str) -> (r: String)
    ensures
        r@ == debug_text(name@),
{
    format!("{:?}", name)
}

/// The message recorded for an invalid field.
pub open spec fn invalid_message(name: Seq<char>, reason: Seq<char>) -> Seq<char> {
    debug_text(name) + " is invalid: "@ + reason
}

/// The characters of each string, in order.
pub open spec fn texts(v: Seq<String>) -> Seq<Seq<char>> {
    v.map_values(|s: String| s@)
}

fn make_invalid_message(name: &str, reason: &str) -> (r: String)
    ensures
        r@ == invalid_message(name@, reason@),
{
    let mut m = debug_quoted(name);
    m.append(" is invalid: ");
    m.append(reason);
    m
}

fn push_text(v: &mut Vec<String>, s: String)
    ensures
        texts(final(v)@) == texts(old(v)@).push(s@),
{
    v.push(s);
    assert(texts(final(v)@) =~= texts(old(v)@).push(s@));
}

/// Result of validating part of a document.
///
/// Incomplete data (missing values) and wrong data (invalid values) are kept
/// apart: wrong data is a hard error, while missing data may simply not be
/// available yet.
#[derive(Debug, PartialEq, Eq)]
pub struct ValidationResult {
    /// hard error messages (invalid data)
    pub validation_errors: Vec<String>,
    /// soft error messages (incomplete data)
    pub missing_fields: Vec<String>,
}

/// A validation result as its two lists of texts: errors, then missing fields.
pub open spec fn result_view(r: ValidationResult) -> (Seq<Seq<char>>, Seq<Seq<char>>) {
    (texts(r.validation_errors@), texts(r.missing_fields@))
}

/// The lists of `a` followed by those of `b`.
pub open spec fn joined(
    a: (Seq<Seq<char>>, Seq<Seq<char>>),
    b: (Seq<Seq<char>>, Seq<Seq<char>>),
) -> (Seq<Seq<char>>, Seq<Seq<char>>) {
    (a.0 + b.0, a.1 + b.1)
}

impl ValidationResult {
    pub fn new() -> (r: Self)
        ensures
            r.validation_errors@.len() == 0,
            r.missing_fields@.len() == 0,
    {
        ValidationResult { validation_errors: Vec::new(), missing_fields: Vec::new() }
    }

    pub fn is_ok(&self) -> (r: bool)
        ensures
            r == (self.validation_errors@.len() == 0 && self.missing_fields@.len() == 0),
    {
        self.validation_errors.len() == 0 && self.missing_fields.len() == 0
    }

    /// Records `name` as invalid if `val` is `Invalid`.
    pub fn validate_field<T>(&mut self, name: &str, val: FieldResult<T>)
        ensures
            texts(final(self).missing_fields@) == texts(old(self).missing_fields@),
            texts(final(self).validation_errors@) == match invalid_reason(val) {
                Some(m) => texts(old(self).validation_errors@).push(invalid_message(name@, m)),
                None => texts(old(self).validation_errors@),
            },
    {
        if let Some(msg) = val.invalid() {
            let m = make_invalid_message(name, msg);
            push_text(&mut self.validation_errors, m);
        }
    }

    /// Records `name` as missing if `val` is `None`.
    pub fn require_option<T>(&mut self, name: &str, val: Option<T>)
        ensures
            texts(final(self).validation_errors@) == texts(old(self).validation_errors@),
            texts(final(self).missing_fields@) == if val is None {
                texts(old(self).missing_fields@).push(name@)
            } else {
                texts(old(self).missing_fields@)
            },
    {
        if val.is_none() {
            push_text(&mut self.missing_fields, name.to_string());
        }
    }

    /// Records `name` as missing if `val` is any error, and also as invalid
    /// if it is `Invalid`.
    pub fn require_field<T>(&mut self, name: &str, val: FieldResult<T>)
        ensures
            texts(final(self).missing_fields@) == if val is Err {
                texts(old(self).missing_fields@).push(name@)
            } else {
                texts(old(self).missing_fields@)
            },
            texts(final(self).validation_errors@) == match invalid_reason(val) {
                Some(m) => texts(old(self).validation_errors@).push(invalid_message(name@, m)),
                None => texts(old(self).validation_errors@),
            },
    {
        if val.is_err() {
            push_text(&mut self.missing_fields, name.to_string());
        }
        self.validate_field(name, val);
    }

    /// Both lists of `self`, each followed by the same list of `next`.
    pub fn and(self, next: ValidationResult) -> (r: ValidationResult)
        ensures
            result_view(r) == joined(result_view(self), result_view(next)),
    {
        let mut out = self;
        let ghost first = out;
        let mut i: usize = 0;
        while i < next.missing_fields.len()
            invariant
                i <= next.missing_fields@.len(),
                texts(out.validation_errors@) == texts(first.validation_errors@),
                texts(out.missing_fields@) == texts(first.missing_fields@) + texts(
                    next.missing_fields@,
                ).take(i as int),
            decreases next.missing_fields@.len() - i,
        {
            push_text(&mut out.missing_fields, next.missing_fields[i].clone());
            assert(texts(next.missing_fields@).take(i + 1) =~= texts(next.missing_fields@).take(
                i as int,
            ).push(next.missing_fields@[i as int]@));
            i = i + 1;
        }
        let mut j: usize = 0;
        while j < next.validation_errors.len()
            invariant
                j <= next.validation_errors@.len(),
                texts(out.missing_fields@) == texts(first.missing_fields@) + texts(
                    next.missing_fields@,
                ),
                texts(out.validation_errors@) == texts(first.validation_errors@) + texts(
                    next.validation_errors@,
                ).take(j as int),
            decreases next.validation_errors@.len() - j,
        {
            push_text(&mut out.validation_errors, next.validation_errors[j].clone());
            assert(texts(next.validation_errors@).take(j + 1) =~= texts(
                next.validation_errors@,
            ).take(j as int).push(next.validation_errors@[j as int]@));
            j = j + 1;
        }
        assert(texts(next.missing_fields@).take(i as int) =~= texts(next.missing_fields@));
        assert(texts(next.validation_errors@).take(j as int) =~= texts(next.validation_errors@));
        out
    }

    /// Stops unless there is neither an invalid nor a missing field.
    pub fn unwrap(self)
        requires
            self.validation_errors@.len() == 0,
            self.missing_fields@.len() == 0,
    {
    }
}

/// A check run against a node while validating it: it may find the node
/// invalid, and then says why.
///
/// Implement it for checks of your own; `Rule` covers the kind checks.
pub trait Check {
    /// The message this check records for `data`, if it finds it invalid.
    spec fn error_in(&self, data: Node) -> Option<Seq<char>>;

    /// Runs the check on `data`, giving the message to record, if any.
    fn check(&self, data: &Node) -> (r: Option<String>)
        ensures
            r matches Some(m) ==> self.error_in(*data) == Some(m@),
            r is None ==> self.error_in(*data) is None,
    ;
}

/// A check on one field of a node, where it is present: the field's path and
/// the kind of value it must hold, or the value itself.
#[derive(Debug, PartialEq, Eq)]
pub enum Rule {
    /// A string.
    Str(String),
    /// A string, or a real number as written.
    Text(String),
    /// An integer.
    Int(String),
    /// A boolean.
    Bool(String),
    /// A mapping.
    Hash(String),
    /// A sequence.
    Vec(String),
    /// A string equal to the second one.
    StrIs(String, String),
    /// A mapping with the second string as a key.
    HasKey(String, String),
}

impl Rule {
    pub open spec fn path(self) -> Seq<char> {
        match self {
            Rule::Str(p) => p@,
            Rule::Text(p) => p@,
            Rule::Int(p) => p@,
            Rule::Bool(p) => p@,
            Rule::Hash(p) => p@,
            Rule::Vec(p) => p@,
            Rule::StrIs(p, _) => p@,
            Rule::HasKey(p, _) => p@,
        }
    }

    /// Whether a node is of the kind this rule asks for.
    pub open spec fn accepts(self, n: Node) -> bool {
        match self {
            Rule::Str(_) => n is Str,
            Rule::Text(_) => n is Str || n is Real,
            Rule::Int(_) => n is Integer,
            Rule::Bool(_) => n is Boolean,
            Rule::Hash(_) => n is Hash,
            Rule::Vec(_) => n is Array,
            Rule::StrIs(_, _) => n is Str,
            Rule::HasKey(_, _) => n is Hash,
        }
    }

    fn path_str(&self) -> (r: &str)
        ensures
            r@ == self.path(),
    {
        match self {
            Rule::Str(p) => p.as_str(),
            Rule::Text(p) => p.as_str(),
            Rule::Int(p) => p.as_str(),
            Rule::Bool(p) => p.as_str(),
            Rule::Hash(p) => p.as_str(),
            Rule::Vec(p) => p.as_str(),
            Rule::StrIs(p, _) => p.as_str(),
            Rule::HasKey(p, _) => p.as_str(),
        }
    }

}

impl Check for Rule {
    /// The message for a field that is present and of another kind, or
    /// whose value is not the one asked for.
    open spec fn error_in(&self, data: Node) -> Option<Seq<char>> {
        match resolve(data, self.path()) {
            Some(n) => if !self.accepts(n) {
                Some(invalid_message(self.path(), "wrong type"@))
            } else {
                match (*self, n) {
                    (Rule::StrIs(_, want), Node::Str(v)) => if v@ == want@ {
                        None
                    } else {
                        Some(invalid_message(self.path(), "unexpected value"@))
                    },
                    (Rule::HasKey(_, key), Node::Hash(e)) => if lookup(e@, key@) is Some {
                        None
                    } else {
                        Some(invalid_message(self.path(), "key not found"@))
                    },
                    _ => None,
                }
            },
            None => None,
        }
    }

    fn check(&self, data: &Node) -> (r: Option<String>) {
        let path = self.path_str();
        match self {
            Rule::Str(_) => message_for(path, data.get_str(path)),
            Rule::Text(_) => message_for(path, data.get_string(path)),
            Rule::Int(_) => message_for(path, data.get_int(path)),
            Rule::Bool(_) => message_for(path, data.get_bool(path)),
            Rule::Hash(_) => message_for(path, data.get_hash(path)),
            Rule::Vec(_) => message_for(path, data.get_vec(path)),
            Rule::StrIs(_, want) => match data.get_str(path) {
                Ok(v) => if str_eq(v, want.as_str()) {
                    None
                } else {
                    Some(make_invalid_message(path, "unexpected value"))
                },
                Err(e) => message_for(path, Err::<(), FieldError>(e)),
            },
            Rule::HasKey(_, key) => match data.get(path) {
                Some(n) => match n {
                    Node::Hash(_) => if n.child(key.as_str()).is_some() {
                        None
                    } else {
                        Some(make_invalid_message(path, "key not found"))
                    },
                    _ => Some(make_invalid_message(path, "wrong type")),
                },
                None => None,
            },
        }
    }
}

/// The message to record for the field `name` if `val` is `Invalid`.
pub fn message_for<T>(name: &str, val: FieldResult<T>) -> (r: Option<String>)
    ensures
        r matches Some(m) ==> invalid_reason(val) matches Some(why) && m@ == invalid_message(
            name@,
            why,
        ),
        r is None ==> invalid_reason(val) is None,
{
    match val.invalid() {
        Some(msg) => Some(make_invalid_message(name, msg)),
        None => None,
    }
}

/// The paths among `required` that do not resolve in `data`, in order.
pub open spec fn missing_in(required: Seq<Seq<char>>, data: Node) -> Seq<Seq<char>>
    decreases required.len(),
{
    if required.len() == 0 {
        Seq::empty()
    } else {
        let rest = missing_in(required.drop_last(), data);
        if resolve(data, required.last()) is None {
            rest.push(required.last())
        } else {
            rest
        }
    }
}

/// The messages of `rules` for `data`, in order.
pub open spec fn errors_in<R: Check>(rules: Seq<R>, data: Node) -> Seq<Seq<char>>
    decreases rules.len(),
{
    if rules.len() == 0 {
        Seq::empty()
    } else {
        let rest = errors_in(rules.drop_last(), data);
        match rules.last().error_in(data) {
            Some(m) => rest.push(m),
            None => rest,
        }
    }
}

/// A set of rules and required paths, checked together against one node.
pub struct Validator<R: Check> {
    rules: Vec<R>,
    required: Vec<String>,
}

impl<R: Check> Validator<R> {
    pub closed spec fn rules(self) -> Seq<R> {
        self.rules@
    }

    pub closed spec fn required(self) -> Seq<Seq<char>> {
        texts(self.required@)
    }

    pub fn new() -> (r: Self)
        ensures
            r.rules().len() == 0,
            r.required().len() == 0,
    {
        let r = Validator { rules: Vec::new(), required: Vec::new() };
        assert(r.required() =~= Seq::<Seq<char>>::empty());
        r
    }

    /// Adds a rule, checked after those added before.
    pub fn add_rule(&mut self, rule: R) -> (r: &mut Self)
        ensures
            r.rules() == old(self).rules().push(rule),
            r.required() == old(self).required(),
            *final(self) == *final(r),
    {
        self.rules.push(rule);
        self
    }

    /// Adds a path that must resolve to something, of any kind.
    pub fn require(&mut self, path: &str) -> (r: &mut Self)
        ensures
            r.rules() == old(self).rules(),
            r.required() == old(self).required().push(path@),
            *final(self) == *final(r),
    {
        push_text(&mut self.required, path.to_string());
        self
    }

    /// Moves the rules and paths gathered so far into a new validator,
    /// leaving this one empty.
    pub fn fin(&mut self) -> (r: Self)
        ensures
            r.rules() == old(self).rules(),
            r.required() == old(self).required(),
            final(self).rules().len() == 0,
            final(self).required().len() == 0,
    {
        let mut rules: Vec<R> = Vec::new();
        let mut required: Vec<String> = Vec::new();
        std::mem::swap(&mut rules, &mut self.rules);
        std::mem::swap(&mut required, &mut self.required);
        assert(texts(self.required@) =~= Seq::<Seq<char>>::empty());
        Validator { rules, required }
    }

    /// Checks `data`: each required path that does not resolve is missing,
    /// and each rule that finds a value of the wrong kind records an error.
    pub fn validate(&self, data: &Node) -> (r: ValidationResult)
        ensures
            texts(r.missing_fields@) == missing_in(self.required(), *data),
            texts(r.validation_errors@) == errors_in(self.rules(), *data),
    {
        let mut out = ValidationResult::new();
        let mut i: usize = 0;
        assert(texts(out.missing_fields@) =~= Seq::<Seq<char>>::empty());
        assert(texts(out.validation_errors@) =~= Seq::<Seq<char>>::empty());
        while i < self.required.len()
            invariant
                i <= self.required@.len(),
                texts(out.missing_fields@) == missing_in(
                    self.required().take(i as int),
                    *data,
                ),
                texts(out.validation_errors@).len() == 0,
            decreases self.required@.len() - i,
        {
            let path = self.required[i].as_str();
            assert(self.required().take(i + 1).drop_last() =~= self.required().take(i as int));
            assert(self.required().take(i + 1).last() == path@);
            if data.get(path).is_none() {
                push_text(&mut out.missing_fields, path.to_string());
            }
            i = i + 1;
        }
        assert(self.required().take(i as int) =~= self.required());
        let mut j: usize = 0;
        while j < self.rules.len()
            invariant
                j <= self.rules@.len(),
                texts(out.missing_fields@) == missing_in(self.required(), *data),
                texts(out.validation_errors@) == errors_in(self.rules().take(j as int), *data),
            decreases self.rules@.len() - j,
        {
            assert(self.rules().take(j + 1).drop_last() =~= self.rules().take(j as int));
            assert(self.rules().take(j + 1).last() == self.rules@[j as int]);
            match self.rules[j].check(data) {
                Some(m) => push_text(&mut out.validation_errors, m),
                None => {},
            }
            j = j + 1;
        }
        assert(self.rules().take(j as int) =~= self.rules());
        out
    }
}

} // verus!
