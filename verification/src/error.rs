//! Error values shared by the engine's components.

use vstd::prelude::*;

verus! {

/// Error type of the engine. Backend failures arrive already rendered as
/// text; `NoClipboards` reports a canonical set that came out empty.
#[derive(Debug, PartialEq, Eq)]
pub enum MyError {
    Generic(String),
    NoClipboards,
}

/// Output captured from a wrapped call's standard streams.
#[derive(Debug, PartialEq, Eq)]
pub struct StdIo {
    pub stdout: String,
    pub stderr: String,
}

impl StdIo {
    /// Appends another capture to this one, keeping stream order.
    pub fn extend(&mut self, other: StdIo)
        ensures
            final(self).stdout@ == old(self).stdout@ + other.stdout@,
            final(self).stderr@ == old(self).stderr@ + other.stderr@,
    {
        self.stdout.append(other.stdout.as_str());
        self.stderr.append(other.stderr.as_str());
    }
}

impl Default for StdIo {
    fn default() -> (s: StdIo)
        ensures
            s.stdout@ == Seq::<char>::empty(),
            s.stderr@ == Seq::<char>::empty(),
    {
        StdIo { stdout: String::new(), stderr: String::new() }
    }
}

/// An error together with whatever the failing call printed.
#[derive(Debug)]
pub struct StandardizedError<E> {
    pub inner: E,
    pub stdio: Option<StdIo>,
}

/// Uniform packaging of fallible results into `StandardizedError`.
pub trait Standardize<T, E>: Sized {
    spec fn spec_standardize(self) -> Result<T, StandardizedError<E>>;

    fn standardize(self) -> (r: Result<T, StandardizedError<E>>)
        ensures
            r == self.spec_standardize(),
    ;
}

impl<T, E> Standardize<T, E> for Result<T, E> {
    open spec fn spec_standardize(self) -> Result<T, StandardizedError<E>> {
        match self {
            Ok(t) => Ok(t),
            Err(e) => Err(StandardizedError { inner: e, stdio: None }),
        }
    }

    fn standardize(self) -> (r: Result<T, StandardizedError<E>>) {
        match self {
            Ok(t) => Ok(t),
            Err(e) => Err(StandardizedError { inner: e, stdio: None }),
        }
    }
}

impl<T, E> Standardize<T, E> for (Result<T, E>, StdIo) {
    open spec fn spec_standardize(self) -> Result<T, StandardizedError<E>> {
        match self.0 {
            Ok(t) => Ok(t),
            Err(e) => Err(StandardizedError { inner: e, stdio: Some(self.1) }),
        }
    }

    fn standardize(self) -> (r: Result<T, StandardizedError<E>>) {
        match self.0 {
            Ok(t) => Ok(t),
            Err(e) => Err(StandardizedError { inner: e, stdio: Some(self.1) }),
        }
    }
}

} // verus!
