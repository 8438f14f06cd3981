//! User-configurable filters over key/value pair collections.
//!
//! A matcher holds filter rows; each row pairs a key filter with a value
//! filter, and a collection passes when every row finds some pair whose
//! key and value both match.

use vstd::prelude::*;
use crate::text::has_prefix;
use crate::text::has_substring;
use crate::text::has_suffix;
use crate::text::str_eq;
use crate::text::str_has_prefix;
use crate::text::str_has_substring;
use crate::text::str_has_suffix;

verus! {

/// How a filter's needle is held against a string.
#[derive(Clone, Copy, PartialEq, Eq, Structural, Debug)]
pub enum StringMatchMode {
    Substring,
    StartsWith,
    EndsWith,
    Exact,
}

impl StringMatchMode {
    /// Whether `haystack` matches `needle` under this mode.
    pub open spec fn spec_matches(self, haystack: Seq<char>, needle: Seq<char>) -> bool {
        match self {
            StringMatchMode::Substring => has_substring(haystack, needle),
            StringMatchMode::StartsWith => has_prefix(haystack, needle),
            StringMatchMode::EndsWith => has_suffix(haystack, needle),
            StringMatchMode::Exact => haystack == needle,
        }
    }

    /// See `spec_matches`.
    pub fn matches(&self, haystack: &str, needle: &str) -> (r: bool)
        ensures
            r == self.spec_matches(haystack@, needle@),
    {
        match self {
            StringMatchMode::Substring => str_has_substring(haystack, needle),
            StringMatchMode::StartsWith => str_has_prefix(haystack, needle),
            StringMatchMode::EndsWith => str_has_suffix(haystack, needle),
            StringMatchMode::Exact => str_eq(haystack, needle),
        }
    }
}

/// One filter: a needle and the mode it is held with.
pub struct StringFilter {
    pub needle: String,
    pub match_mode: StringMatchMode,
}

impl StringFilter {
    /// Whether `value` passes this filter.
    pub open spec fn spec_test(self, value: Seq<char>) -> bool {
        self.match_mode.spec_matches(value, self.needle@)
    }

    /// See `spec_test`.
    pub fn test(&self, value: &str) -> (r: bool)
        ensures
            r == self.spec_test(value@),
    {
        self.match_mode.matches(value, self.needle.as_str())
    }
}

impl Default for StringFilter {
    fn default() -> (r: Self)
        ensures
            r.needle@.len() == 0,
            r.match_mode == StringMatchMode::Substring,
    {
        StringFilter { needle: String::new(), match_mode: StringMatchMode::Substring }
    }
}

/// Whether some pair of `kv` passes both halves of the filter row `f`.
pub open spec fn row_matches(f: (StringFilter, StringFilter), kv: Seq<(String, String)>) -> bool {
    exists|j: int|
        0 <= j < kv.len() && f.0.spec_test((#[trigger] kv[j]).0@) && f.1.spec_test(kv[j].1@)
}

/// Scans the pairs for one that passes both halves of the row.
fn row_find(row: &(StringFilter, StringFilter), kv: &Vec<(String, String)>) -> (r: bool)
    ensures
        r == row_matches(*row, kv@),
{
    let mut j: usize = 0;
    while j < kv.len()
        invariant
            j <= kv@.len(),
            forall|j2: int|
                0 <= j2 < j ==> !(row.0.spec_test((#[trigger] kv@[j2]).0@) && row.1.spec_test(
                    kv@[j2].1@,
                )),
        decreases kv@.len() - j,
    {
        if row.0.test(kv[j].0.as_str()) && row.1.test(kv[j].1.as_str()) {
            proof {
                assert(row.0.spec_test(kv@[j as int].0@) && row.1.spec_test(kv@[j as int].1@));
            }
            return true;
        }
        j = j + 1;
    }
    false
}

/// A user-configurable conjunction of filter rows.
pub struct KvMatcher {
    filters: Vec<(StringFilter, StringFilter)>,
}

impl KvMatcher {
    /// The filter rows, in display order.
    pub closed spec fn filters_spec(self) -> Seq<(StringFilter, StringFilter)> {
        self.filters@
    }

    /// A matcher with no rows (which every collection passes).
    pub fn new() -> (s: Self)
        ensures
            s.filters_spec().len() == 0,
    {
        KvMatcher { filters: Vec::new() }
    }

    /// Appends one filter row.
    pub fn add_filter(&mut self, key_filter: StringFilter, value_filter: StringFilter)
        ensures
            final(self).filters_spec() == old(self).filters_spec().push(
                (key_filter, value_filter),
            ),
    {
        self.filters.push((key_filter, value_filter));
    }

    /// Write access to the filter rows, for an editor widget.
    pub fn filters_mut(&mut self) -> (r: &mut Vec<(StringFilter, StringFilter)>)
        ensures
            r@ == old(self).filters_spec(),
            final(self).filters_spec() == final(r)@,
    {
        &mut self.filters
    }

    /// Whether every filter row finds some pair whose key and value both
    /// match.
    pub open spec fn spec_matches(self, kv: Seq<(String, String)>) -> bool {
        forall|i: int|
            0 <= i < self.filters_spec().len() ==> row_matches(
                #[trigger] self.filters_spec()[i],
                kv,
            )
    }

    /// See `spec_matches`.
    pub fn matches(&self, kv: &Vec<(String, String)>) -> (r: bool)
        ensures
            r == self.spec_matches(kv@),
    {
        let mut i: usize = 0;
        while i < self.filters.len()
            invariant
                i <= self.filters@.len(),
                forall|i2: int| 0 <= i2 < i ==> row_matches(#[trigger] self.filters@[i2], kv@),
            decreases self.filters@.len() - i,
        {
            if !row_find(&self.filters[i], kv) {
                proof {
                    assert(!row_matches(self.filters_spec()[i as int], kv@));
                }
                return false;
            }
            i = i + 1;
        }
        true
    }
}

} // verus!
