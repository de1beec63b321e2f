use vstd::prelude::*;
use vstd::hash_map::StringHashMap;
use crate::reg_date::RegDate;

verus! {

/// What a [`RegDateLoader`] holds, as contracts speak of it.
pub struct Registry {
    /// The registration dates that are settled, by author.
    pub cache: Map<Seq<char>, RegDate>,
    /// The date taken for an author whose registration date is unknown.
    pub default_reg_date: RegDate,
}

impl Registry {
    /// The settled date of `author`, if there is one.
    pub open spec fn cached(self, author: Seq<char>) -> Option<RegDate> {
        if self.cache.contains_key(author) {
            Some(self.cache[author])
        } else {
            None
        }
    }

    /// What the answer `loaded` of the source settles for `author`, and the
    /// date or the error that the lookup ends with.
    ///
    /// A date that is settled stays, whatever the source says. Else a date
    /// from the source is settled; an account that the source does not know
    /// gets the default date, for good; an error settles nothing.
    pub open spec fn after_load(
        self,
        author: Seq<char>,
        loaded: Result<Option<RegDate>, String>,
    ) -> (Registry, Result<RegDate, String>) {
        if self.cache.contains_key(author) {
            (self, Ok(self.cache[author]))
        } else {
            match loaded {
                Ok(Some(reg_date)) => (
                    Registry { cache: self.cache.insert(author, reg_date), ..self },
                    Ok(reg_date),
                ),
                Ok(None) => (
                    Registry { cache: self.cache.insert(author, self.default_reg_date), ..self },
                    Ok(self.default_reg_date),
                ),
                Err(error) => (self, Err(error)),
            }
        }
    }
}

/// What is settled stays settled: no answer about any author changes the
/// date of an author who has one.
pub proof fn lemma_settled_stays(
    registry: Registry,
    author: Seq<char>,
    asked: Seq<char>,
    loaded: Result<Option<RegDate>, String>,
)
    requires
        registry.cache.contains_key(author),
    ensures
        registry.after_load(asked, loaded).0.cached(author) == registry.cached(author),
{
}

/// An answer settles the author's date, so that the source is asked about
/// an author once: after any answer but an error, the author has the date
/// that the lookup ended with, and an account that the source does not know
/// has the default date.
pub proof fn lemma_answer_settles(registry: Registry, author: Seq<char>, answer: Option<RegDate>)
    ensures
        ({
            let (settled, reg_date) = registry.after_load(author, Ok(answer));
            &&& reg_date is Ok
            &&& settled.cached(author) == Some(reg_date->Ok_0)
            &&& !registry.cache.contains_key(author) && answer is None ==> reg_date->Ok_0
                == registry.default_reg_date
        }),
{
}

/// An error settles nothing: the lookup of an author without a date ends
/// with the error of the source, and the author is asked about again.
pub proof fn lemma_error_settles_nothing(registry: Registry, author: Seq<char>, error: String)
    requires
        !registry.cache.contains_key(author),
    ensures
        registry.after_load(author, Err(error)) == (registry, Err::<RegDate, String>(error)),
{
}

/// The registration dates that were looked up, kept so that each author is
/// asked about once. The source that answers is not part of it: the caller
/// asks the source where `cached` has no date, and hands the answer to
/// `load_reg_date`.
pub struct RegDateLoader {
    cache: StringHashMap<RegDate>,
    default_reg_date: RegDate,
}

impl View for RegDateLoader {
    type V = Registry;

    closed spec fn view(&self) -> Registry {
        Registry { cache: self.cache@, default_reg_date: self.default_reg_date }
    }
}

impl RegDateLoader {
    /// A loader with nothing settled.
    pub fn new(default_reg_date: RegDate) -> (loader: Self)
        ensures
            loader@ == (Registry { cache: Map::empty(), default_reg_date }),
    {
        RegDateLoader { cache: StringHashMap::with_capacity(100), default_reg_date }
    }

    /// The settled registration date of `author`, if there is one.
    pub fn cached(&self, author: &str) -> (reg_date: Option<RegDate>)
        ensures
            reg_date == self@.cached(author@),
    {
        match self.cache.get(author) {
            Some(reg_date) => Some(*reg_date),
            None => None,
        }
    }

    /// Ends a lookup for `author` with `loaded`, the answer of the source:
    /// see [`Registry::after_load`].
    pub fn load_reg_date(
        &mut self,
        author: &str,
        loaded: Result<Option<RegDate>, String>,
    ) -> (reg_date: Result<RegDate, String>)
        ensures
            (final(self)@, reg_date) == old(self)@.after_load(author@, loaded),
    {
        if let Some(reg_date) = self.cache.get(author) {
            return Ok(*reg_date);
        }
        match loaded {
            Ok(answer) => {
                let reg_date = match answer {
                    Some(reg_date) => reg_date,
                    None => self.default_reg_date,
                };
                self.cache.insert(author.to_string(), reg_date);
                Ok(reg_date)
            },
            Err(error) => Err(error),
        }
    }

    /// Replaces the default date. What is settled stays as it is.
    pub fn update_default_reg_date(&mut self, new_default_reg_date: RegDate)
        ensures
            final(self)@ == (Registry { default_reg_date: new_default_reg_date, ..old(self)@ }),
    {
        self.default_reg_date = new_default_reg_date;
    }
}

} // verus!
