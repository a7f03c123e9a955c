use vstd::prelude::*;

verus! {

/// Why a request did not produce content.
///
/// `Nowhere` is the plain failure: the repository, reference or path does
/// not exist or cannot be read. `Elsewhere` is not a failure of the request
/// but a hint that what was asked for lives under another view; it carries
/// what is needed to get there.
#[derive(Debug, PartialEq, Eq)]
pub enum Missing {
    Nowhere,
    Elsewhere(String),
}

impl Missing {
    /// The place an `Elsewhere` points to, if this is one.
    pub open spec fn location(self) -> Option<Seq<char>> {
        match self {
            Missing::Nowhere => None,
            Missing::Elsewhere(place) => Some(place@),
        }
    }

    pub fn is_redirect(&self) -> (r: bool)
        ensures
            r == (self is Elsewhere),
    {
        match self {
            Missing::Nowhere => false,
            Missing::Elsewhere(_) => true,
        }
    }
}

impl Clone for Missing {
    fn clone(&self) -> (r: Self)
        ensures
            r.location() == self.location(),
    {
        match self {
            Missing::Nowhere => Missing::Nowhere,
            Missing::Elsewhere(place) => Missing::Elsewhere(place.clone()),
        }
    }
}

/// What a lookup comes to: what it found, or `Nowhere` where it found
/// nothing.
pub fn or_nowhere<T>(found: Option<T>) -> (r: Result<T, Missing>)
    ensures
        r is Ok <==> found is Some,
        r matches Ok(value) ==> found == Some(value),
        r matches Err(missing) ==> missing == Missing::Nowhere,
{
    match found {
        Some(value) => Ok(value),
        None => Err(Missing::Nowhere),
    }
}

} // verus!
