use vstd::prelude::*;

verus! {

/// What can be wrong with a single field of a document.
#[derive(Debug, PartialEq, Eq, PartialOrd, Ord)]
pub enum FieldError {
    /// Nothing is found at the field's path.
    Missing,
    /// Something is found, but it has the wrong type or an unusable value.
    Invalid(String),
}

/// The outcome of reading one field.
pub type FieldResult<T> = Result<T, FieldError>;

/// The reason carried by an `Invalid` outcome, if the outcome is one.
pub open spec fn invalid_reason<T>(r: FieldResult<T>) -> Option<Seq<char>> {
    match r {
        Err(FieldError::Invalid(m)) => Some(m@),
        _ => None,
    }
}

impl FieldError {
    pub fn invalid(e: &str) -> (r: FieldError)
        ensures
            r matches FieldError::Invalid(m) && m@ == e@,
    {
        FieldError::Invalid(e.to_string())
    }
}

/// Something that can tell whether it is invalid, and why.
pub trait Invalidatable {
    fn invalid(&self) -> Option<&str>;
}

pub trait FieldResultExt<T>: Sized {
    /// Tries an alternative only if this result is actually `Missing`.
    ///
    /// An `Invalid` result is kept as it is, so that an older valid value
    /// never masks a current invalid one.
    fn if_missing_try<F: FnOnce() -> FieldResult<T>>(self, f: F) -> FieldResult<T>
        requires
            f.requires(()),
    ;

    fn is_invalid(&self) -> bool;

    fn is_missing(&self) -> bool;
}

impl<T> Invalidatable for FieldResult<T> {
    fn invalid(&self) -> (r: Option<&str>)
        ensures
            r matches Some(m) ==> invalid_reason(*self) == Some(m@),
            r is None ==> invalid_reason(*self) is None,
    {
        match self {
            Err(FieldError::Invalid(msg)) => Some(msg.as_str()),
            _ => None,
        }
    }
}

impl<T> FieldResultExt<T> for FieldResult<T> {
    fn if_missing_try<F: FnOnce() -> FieldResult<T>>(self, f: F) -> (r: FieldResult<T>)
        ensures
            self matches Err(FieldError::Missing) ==> f.ensures((), r),
            !(self matches Err(FieldError::Missing)) ==> r == self,
    {
        match self {
            Err(FieldError::Missing) => f(),
            _ => self,
        }
    }

    fn is_missing(&self) -> (r: bool)
        ensures
            r == (*self matches Err(FieldError::Missing)),
    {
        match self {
            Err(FieldError::Missing) => true,
            _ => false,
        }
    }

    fn is_invalid(&self) -> (r: bool)
        ensures
            r == (invalid_reason(*self) is Some),
    {
        self.invalid().is_some()
    }
}

} // verus!
