//! The fundamental building block: a value with semantic context.
//!
//! A `FractalAtom` wraps a value with a validated set of descriptive tags
//! and structured metadata. `TagSet` guarantees it is never empty, holds no
//! empty or duplicate tags, and keeps its tags in lexicographic order.

use vstd::prelude::*;
use vstd::string::{StrSliceExecFns, StringExecFns};
use crate::text::{lex_le, sort_strings, str_eq, trim_str, trimmed, views_of};
use crate::traits::SemanticEq;

verus! {

/// The errors of `FractalAtom` construction.
#[derive(Debug, PartialEq, Eq)]
pub enum AtomError {
    /// The atom was given an empty tag set.
    EmptyTags,
    /// The metadata failed validation; the payload describes why.
    InvalidMetadata(String),
    /// A specific error from tag set construction.
    TagSetError(TagSetError),
}

/// Structured metadata giving an atom its context.
#[derive(Debug, PartialEq, Eq, Hash)]
pub struct Metadata {
    /// The primary domain or category of the atom.
    pub domain: String,
    /// An optional, human-readable description.
    pub description: Option<String>,
}

impl Metadata {
    /// Validates the metadata: the domain must not be blank.
    pub fn validate(&self) -> (r: Result<(), AtomError>)
        ensures
            r is Err <==> trimmed(self.domain@).len() == 0,
            r matches Err(e) ==> e matches AtomError::InvalidMetadata(m)
                && m@ == "Domain cannot be empty"@,
    {
        let t: String = trim_str(self.domain.as_str());
        if t.as_str().unicode_len() == 0 {
            Err(AtomError::InvalidMetadata(String::from_str("Domain cannot be empty")))
        } else {
            Ok(())
        }
    }
}

impl Clone for Metadata {
    /// An exact copy.
    fn clone(&self) -> (r: Self)
        ensures
            r.domain@ == self.domain@,
            r.description matches Some(d) ==> self.description matches Some(sd) && d@ == sd@,
            r.description is Some <==> self.description is Some,
    {
        Metadata {
            domain: self.domain.clone(),
            description: match &self.description {
                Some(d) => Some(d.clone()),
                None => None,
            },
        }
    }
}

impl Default for Metadata {
    /// Blank metadata; it does not pass validation until a domain is set.
    fn default() -> (r: Self)
        ensures
            r.domain@ == Seq::<char>::empty(),
            r.description is None,
    {
        Metadata { domain: String::new(), description: None }
    }
}

/// The errors of `TagSet` construction.
#[derive(Debug, PartialEq, Eq)]
pub enum TagSetError {
    /// The initial collection was empty.
    EmptyCollection,
    /// A tag was empty or whitespace-only; the payload is the trimmed tag.
    EmptyTag(String),
    /// A tag occurred twice; the payload is the repeated trimmed tag.
    DuplicateTag(String),
}

/// A validated, sorted and duplicate-free set of non-empty string tags.
#[derive(Debug, PartialEq, Eq, Hash)]
pub struct TagSet {
    // The tags, trimmed, lexicographically sorted and pairwise distinct.
    tags: Vec<String>,
}

/// The first `i` raw tags trim to non-empty, pairwise distinct tags.
pub open spec fn tags_ok_until(ts: Seq<Seq<char>>, i: int) -> bool {
    forall|j: int| 0 <= j < i ==> {
        &&& trimmed(#[trigger] ts[j]).len() > 0
        &&& forall|j2: int| 0 <= j2 < j ==> trimmed(#[trigger] ts[j2]) != trimmed(ts[j])
    }
}

impl TagSet {
    /// The tags as character sequences, in stored order.
    pub closed spec fn spec_tags(&self) -> Seq<Seq<char>> {
        views_of(self.tags@)
    }

    /// The structural invariant: at least one tag, no empty tag, and the
    /// tags strictly ordered (hence pairwise distinct).
    pub closed spec fn wf(&self) -> bool {
        &&& self.spec_tags().len() > 0
        &&& forall|i: int| 0 <= i < self.spec_tags().len()
            ==> (#[trigger] self.spec_tags()[i]).len() > 0
        &&& forall|i: int, j: int| 0 <= i < j < self.spec_tags().len()
            ==> lex_le(#[trigger] self.spec_tags()[i], #[trigger] self.spec_tags()[j])
                && self.spec_tags()[i] != self.spec_tags()[j]
    }

    /// Builds a tag set from raw strings. Each raw tag is trimmed; a blank
    /// tag, a repeated tag or an empty collection is refused, in the order
    /// the input presents them, and the accepted tags come out sorted.
    pub fn new(raw_tags: Vec<String>) -> (r: Result<TagSet, TagSetError>)
        ensures
            ({
                let ts = views_of(raw_tags@);
                match r {
                    Ok(set) => {
                        &&& ts.len() > 0
                        &&& tags_ok_until(ts, ts.len() as int)
                        &&& set.wf()
                        &&& set.spec_tags().to_multiset()
                            == ts.map_values(|t: Seq<char>| trimmed(t)).to_multiset()
                    },
                    Err(TagSetError::EmptyCollection) => ts.len() == 0,
                    Err(TagSetError::EmptyTag(t)) => exists|i: int| {
                        &&& 0 <= i < ts.len()
                        &&& tags_ok_until(ts, i)
                        &&& trimmed(#[trigger] ts[i]).len() == 0
                        &&& t@ == trimmed(ts[i])
                    },
                    Err(TagSetError::DuplicateTag(t)) => exists|i: int| {
                        &&& 0 <= i < ts.len()
                        &&& tags_ok_until(ts, i)
                        &&& trimmed(#[trigger] ts[i]).len() > 0
                        &&& (exists|j: int| 0 <= j < i && trimmed(ts[j]) == trimmed(ts[i]))
                        &&& t@ == trimmed(ts[i])
                    },
                }
            }),
    {
        let ghost ts = views_of(raw_tags@);
        let n: usize = raw_tags.len();
        let mut tags: Vec<String> = Vec::new();
        let mut k: usize = 0;
        while k < n
            invariant
                k <= n,
                n == raw_tags@.len(),
                ts == views_of(raw_tags@),
                tags@.len() == k,
                views_of(tags@) =~= ts.subrange(0, k as int).map_values(
                    |t: Seq<char>| trimmed(t)),
                tags_ok_until(ts, k as int),
            decreases n - k,
        {
            let tag: String = trim_str(raw_tags[k].as_str());
            if tag.as_str().unicode_len() == 0 {
                proof {
                    assert(trimmed(ts[k as int]).len() == 0);
                }
                return Err(TagSetError::EmptyTag(tag));
            }
            // Refuse a duplicate among the tags accepted so far.
            let t_len: usize = tags.len();
            proof {
                assert(t_len == k);
            }
            let mut j: usize = 0;
            while j < t_len
                invariant
                    j <= t_len,
                    t_len == tags@.len(),
                    t_len == k,
                    k < n,
                    n == raw_tags@.len(),
                    ts == views_of(raw_tags@),
                    tags_ok_until(ts, k as int),
                    tag@ == trimmed(ts[k as int]),
                    tag@.len() > 0,
                    views_of(tags@) =~= ts.subrange(0, k as int).map_values(
                        |t: Seq<char>| trimmed(t)),
                    forall|m: int| 0 <= m < j ==> (#[trigger] tags@[m]@) != tag@,
                decreases t_len - j,
            {
                if str_eq(tags[j].as_str(), tag.as_str()) {
                    proof {
                        assert(views_of(tags@)[j as int] == tags@[j as int]@);
                        assert(views_of(tags@)[j as int] == trimmed(ts[j as int]));
                        assert(trimmed(ts[j as int]) == trimmed(ts[k as int]));
                        assert(exists|j2: int| 0 <= j2 < k as int
                            && trimmed(ts[j2]) == trimmed(ts[k as int]));
                        assert(exists|i: int| {
                            &&& 0 <= i < ts.len()
                            &&& tags_ok_until(ts, i)
                            &&& trimmed(#[trigger] ts[i]).len() > 0
                            &&& (exists|j2: int| 0 <= j2 < i && trimmed(ts[j2]) == trimmed(ts[i]))
                            &&& tag@ == trimmed(ts[i])
                        }) by {
                            assert(0 <= (k as int) && (k as int) < ts.len());
                            assert(tags_ok_until(ts, k as int));
                            assert(trimmed(ts[k as int]).len() > 0);
                            assert(exists|j2: int| 0 <= j2 < k as int
                                && trimmed(ts[j2]) == trimmed(ts[k as int]));
                            assert(tag@ == trimmed(ts[k as int]));
                        }
                    }
                    return Err(TagSetError::DuplicateTag(tag));
                }
                j = j + 1;
            }
            proof {
                assert forall|j2: int| 0 <= j2 < k
                    implies trimmed(#[trigger] ts[j2]) != trimmed(ts[k as int]) by {
                    assert(views_of(tags@)[j2] == tags@[j2]@);
                    assert(views_of(tags@)[j2] == trimmed(ts[j2]));
                    assert(tags@[j2]@ != tag@);
                }
                assert(ts.subrange(0, k as int + 1).map_values(|t: Seq<char>| trimmed(t))
                    =~= ts.subrange(0, k as int).map_values(|t: Seq<char>| trimmed(t))
                        .push(trimmed(ts[k as int])));
            }
            tags.push(tag);
            k = k + 1;
        }
        if n == 0 {
            return Err(TagSetError::EmptyCollection);
        }
        proof {
            assert(ts.subrange(0, n as int) =~= ts);
        }
        let ghost unsorted = views_of(tags@);
        let ghost trimmed_all = ts.map_values(|t: Seq<char>| trimmed(t));
        let sorted: Vec<String> = sort_strings(tags);
        proof {
            assert(unsorted =~= trimmed_all);
            assert forall|i: int, j: int| 0 <= i < j < unsorted.len()
                implies (#[trigger] unsorted[i]) != (#[trigger] unsorted[j]) by {
                assert(unsorted[i] == trimmed(ts[i]));
                assert(unsorted[j] == trimmed(ts[j]));
            }
            lemma_sorted_from_distinct(unsorted, views_of(sorted@));
            vstd::seq_lib::to_multiset_len(views_of(sorted@));
            vstd::seq_lib::to_multiset_len(unsorted);
            assert(views_of(sorted@).len() == unsorted.len());
            assert forall|i: int| 0 <= i < views_of(sorted@).len()
                implies (#[trigger] views_of(sorted@)[i]).len() > 0 by {
                assert(unsorted.contains(views_of(sorted@)[i]));
                let w = choose|w: int| 0 <= w < unsorted.len()
                    && unsorted[w] == views_of(sorted@)[i];
                assert(unsorted[w] == trimmed(ts[w]));
            }
        }
        Ok(TagSet { tags: sorted })
    }

    /// Whether there are no tags; construction guarantees there is at least
    /// one, so this holds of no well-formed set.
    pub fn is_empty(&self) -> (r: bool)
        ensures
            r == (self.spec_tags().len() == 0),
    {
        self.tags.len() == 0
    }

    /// The number of tags.
    pub fn len(&self) -> (r: usize)
        ensures
            r == self.spec_tags().len(),
    {
        self.tags.len()
    }

    /// The tags in their stored (sorted) order.
    pub fn iter(&self) -> (r: Vec<String>)
        ensures
            views_of(r@) == self.spec_tags(),
    {
        let n: usize = self.tags.len();
        let mut out: Vec<String> = Vec::new();
        let mut k: usize = 0;
        while k < n
            invariant
                k <= n,
                n == self.tags@.len(),
                out@.len() == k,
                forall|i: int| 0 <= i < k ==> (#[trigger] out@[i]@) == self.tags@[i]@,
            decreases n - k,
        {
            out.push(self.tags[k].clone());
            k = k + 1;
        }
        proof {
            assert(views_of(out@) =~= self.spec_tags());
        }
        out
    }

    /// Whether a tag is present in the set.
    pub fn contains(&self, tag: &str) -> (r: bool)
        ensures
            r == self.spec_tags().contains(tag@),
    {
        let n: usize = self.tags.len();
        let mut k: usize = 0;
        while k < n
            invariant
                k <= n,
                n == self.tags@.len(),
                forall|i: int| 0 <= i < k ==> (#[trigger] self.tags@[i]@) != tag@,
            decreases n - k,
        {
            if str_eq(self.tags[k].as_str(), tag) {
                proof {
                    assert(self.spec_tags()[k as int] == tag@);
                }
                return true;
            }
            k = k + 1;
        }
        proof {
            assert forall|i: int| 0 <= i < self.spec_tags().len()
                implies (#[trigger] self.spec_tags()[i]) != tag@ by {
                assert(self.tags@[i]@ != tag@);
            }
        }
        false
    }
}

impl Clone for TagSet {
    /// An exact copy: the clone holds the same tags.
    fn clone(&self) -> (r: Self)
        ensures
            r.spec_tags() == self.spec_tags(),
    {
        TagSet { tags: self.iter() }
    }
}

impl Default for TagSet {
    /// A tag set holding only the tag "untagged".
    fn default() -> (r: Self)
        ensures
            r.spec_tags() =~= seq!["untagged"@],
            r.wf(),
    {
        proof {
            reveal_strlit("untagged");
        }
        let mut tags: Vec<String> = Vec::new();
        tags.push(String::from_str("untagged"));
        proof {
            assert(views_of(tags@) =~= seq!["untagged"@]);
        }
        TagSet { tags }
    }
}

/// A sorted rearrangement of pairwise-distinct values is strictly sorted:
/// the multiset is unchanged, so no value repeats, and order plus
/// distinctness give strict order.
proof fn lemma_sorted_from_distinct(unsorted: Seq<Seq<char>>, sorted: Seq<Seq<char>>)
    requires
        sorted.to_multiset() == unsorted.to_multiset(),
        forall|i: int, j: int| 0 <= i < j < unsorted.len()
            ==> (#[trigger] unsorted[i]) != (#[trigger] unsorted[j]),
        forall|i: int, j: int| 0 <= i <= j < sorted.len()
            ==> lex_le(#[trigger] sorted[i], #[trigger] sorted[j]),
    ensures
        forall|i: int| 0 <= i < sorted.len()
            ==> unsorted.contains(#[trigger] sorted[i]),
        forall|i: int, j: int| 0 <= i < j < sorted.len()
            ==> lex_le(#[trigger] sorted[i], #[trigger] sorted[j])
                && sorted[i] != sorted[j],
{
    broadcast use vstd::multiset::group_multiset_axioms;

    assert(unsorted.no_duplicates());
    unsorted.lemma_multiset_has_no_duplicates();
    sorted.lemma_multiset_has_no_duplicates_conv();
    assert(sorted.no_duplicates());
    assert forall|i: int| 0 <= i < sorted.len()
        implies unsorted.contains(#[trigger] sorted[i]) by {
        assert(sorted.contains(sorted[i]));
        vstd::seq_lib::to_multiset_contains(sorted, sorted[i]);
        vstd::seq_lib::to_multiset_contains(unsorted, sorted[i]);
    }
}

/// A wrapper around a value that adds semantic context through tags and
/// metadata; every atom has at least one tag and valid metadata.
#[derive(Debug)]
pub struct FractalAtom<T> {
    pub value: T,
    pub tags: TagSet,
    pub metadata: Metadata,
}

impl<T> FractalAtom<T> {
    /// Builds an atom after validating its components: the tag set must not
    /// be empty and the metadata must pass validation.
    pub fn new(value: T, tags: TagSet, metadata: Metadata) -> (r: Result<Self, AtomError>)
        ensures
            tags.spec_tags().len() == 0 ==> r == Err::<Self, AtomError>(AtomError::EmptyTags),
            tags.spec_tags().len() > 0 && trimmed(metadata.domain@).len() == 0 ==> (r matches Err(e)
                && (e matches AtomError::InvalidMetadata(m) && m@ == "Domain cannot be empty"@)),
            tags.spec_tags().len() > 0 && trimmed(metadata.domain@).len() > 0 ==> (r matches Ok(a)
                && a.value == value && a.tags == tags && a.metadata == metadata),
    {
        if tags.is_empty() {
            return Err(AtomError::EmptyTags);
        }
        match metadata.validate() {
            Err(e) => Err(e),
            Ok(()) => Ok(FractalAtom { value, tags, metadata }),
        }
    }

    /// Immutable access to the atom's value.
    pub fn value(&self) -> (r: &T)
        ensures
            *r == self.value,
    {
        &self.value
    }

    /// The atom's tags in canonical (sorted) order.
    pub fn tags(&self) -> (r: Vec<String>)
        ensures
            views_of(r@) == self.tags.spec_tags(),
    {
        self.tags.iter()
    }

    /// Immutable access to the validated metadata.
    pub fn metadata(&self) -> (r: &Metadata)
        ensures
            *r == self.metadata,
    {
        &self.metadata
    }
}

impl<T> SemanticEq for FractalAtom<T> {
    /// Two atoms mean the same when their descriptions and tags agree; the
    /// wrapped value and the domain are not consulted.
    open spec fn semantic_eq_spec(&self, other: &Self) -> bool {
        &&& (match (self.metadata.description, other.metadata.description) {
            (Some(a), Some(b)) => a@ == b@,
            (None, None) => true,
            _ => false,
        })
        &&& self.tags.spec_tags() == other.tags.spec_tags()
    }

    fn semantic_eq(&self, other: &Self) -> (r: bool)
        ensures
            r == self.semantic_eq_spec(other),
    {
        let descriptions_match: bool = match (&self.metadata.description,
            &other.metadata.description) {
            (Some(a), Some(b)) => str_eq(a.as_str(), b.as_str()),
            (None, None) => true,
            _ => false,
        };
        descriptions_match && self.tags.semantic_eq(&other.tags)
    }
}

impl SemanticEq for TagSet {
    /// Two tag sets mean the same when they hold the same tags.
    open spec fn semantic_eq_spec(&self, other: &Self) -> bool {
        self.spec_tags() == other.spec_tags()
    }

    fn semantic_eq(&self, other: &Self) -> (r: bool)
        ensures
            r == self.semantic_eq_spec(other),
    {
        let n: usize = self.tags.len();
        if n != other.tags.len() {
            proof {
                assert(self.spec_tags().len() != other.spec_tags().len());
            }
            return false;
        }
        let mut k: usize = 0;
        while k < n
            invariant
                k <= n,
                n == self.tags@.len(),
                n == other.tags@.len(),
                forall|i: int| 0 <= i < k
                    ==> (#[trigger] self.tags@[i]@) == other.tags@[i]@,
            decreases n - k,
        {
            if !str_eq(self.tags[k].as_str(), other.tags[k].as_str()) {
                proof {
                    assert(self.spec_tags()[k as int] != other.spec_tags()[k as int]);
                }
                return false;
            }
            k = k + 1;
        }
        proof {
            assert(self.spec_tags() =~= other.spec_tags());
        }
        true
    }
}

} // verus!
