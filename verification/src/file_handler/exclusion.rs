//! Exclusion rules: a set of regular expressions, any of which drops a path.

use vstd::prelude::*;
use crate::file_handler::file_handler_error::FileHandlerError;

verus! {

/// `regex::RegexSet`: a compiled set of regular expressions.
#[verifier::external_type_specification]
#[verifier::external_body]
pub struct ExPatternSet(regex::RegexSet);

/// The patterns that a set holds: those that it was compiled from, in the
/// order in which they were given, as `regex::RegexSet::patterns` hands
/// them out.
pub uninterp spec fn set_patterns(set: regex::RegexSet) -> Seq<Seq<char>>;

/// Whether `regex::RegexSet::new` compiles these patterns into a set.
pub uninterp spec fn patterns_compile(patterns: Seq<Seq<char>>) -> bool;

/// Whether the regular expression `pattern`, as a member of a
/// `regex::RegexSet`, matches `text`. Nothing is claimed of it but what the
/// contract of `set_is_match` says.
pub uninterp spec fn pattern_matches(pattern: Seq<char>, text: Seq<char>) -> bool;

/// The text of each string of `strings`.
pub open spec fn texts(strings: Seq<String>) -> Seq<Seq<char>> {
    Seq::new(strings.len(), |i: int| strings[i]@)
}

/// Whether at least one of `patterns` matches `text`.
pub open spec fn matches_any(patterns: Seq<Seq<char>>, text: Seq<char>) -> bool {
    exists|i: int| 0 <= i < patterns.len() && #[trigger] pattern_matches(patterns[i], text)
}

/// The paths of `paths` that none of `patterns` matches, in their order.
pub open spec fn kept_paths(paths: Seq<Seq<char>>, patterns: Seq<Seq<char>>) -> Seq<Seq<char>> {
    paths.filter(|path: Seq<char>| !matches_any(patterns, path))
}

/// Calls `regex::RegexSet::new`. Believed of it: whether it gives a set
/// depends on the patterns alone, and a set that it gives holds the given
/// patterns in the given order.
#[verifier::external_body]
fn compile_set(exclusions: &Vec<String>) -> (r: Result<regex::RegexSet, regex::Error>)
    ensures
        r is Ok <==> patterns_compile(texts(exclusions@)),
        r matches Ok(set) ==> set_patterns(set) == texts(exclusions@),
{
    regex::RegexSet::new(exclusions)
}

/// Calls `regex::RegexSet::is_match`. Believed of it: it is true if and
/// only if one of the expressions of the set matches the text.
#[verifier::external_body]
fn set_is_match(set: &regex::RegexSet, text: &str) -> (r: bool)
    ensures
        r == (exists|i: int|
            0 <= i < set_patterns(*set).len() && #[trigger] pattern_matches(
                set_patterns(*set)[i],
                text@,
            )),
{
    set.is_match(text)
}

/// A compiled exclusion rule set.
pub struct Exclusions {
    set: regex::RegexSet,
}

impl Exclusions {
    /// The patterns of the rule set.
    pub closed spec fn patterns(self) -> Seq<Seq<char>> {
        set_patterns(self.set)
    }

    /// Compiles the patterns, or says why they do not compile.
    pub fn new(exclusions: &Vec<String>) -> (r: Result<Exclusions, FileHandlerError>)
        ensures
            match r {
                Ok(rules) => patterns_compile(texts(exclusions@)) && rules.patterns() == texts(
                    exclusions@,
                ),
                Err(e) => !patterns_compile(texts(exclusions@)) && e is Regex,
            },
    {
        match compile_set(exclusions) {
            Ok(set) => Ok(Exclusions { set }),
            Err(e) => Err(FileHandlerError::Regex(e)),
        }
    }

    /// Whether the rule set drops `path`: whether at least one pattern
    /// matches it.
    pub fn excludes(&self, path: &str) -> (r: bool)
        ensures
            r == matches_any(self.patterns(), path@),
    {
        set_is_match(&self.set, path)
    }

    /// The paths that the rule set keeps, in their order.
    pub fn filter(&self, paths: &Vec<String>) -> (kept: Vec<String>)
        ensures
            texts(kept@) == kept_paths(texts(paths@), self.patterns()),
    {
        let mut matched: Vec<bool> = Vec::new();
        let mut i: usize = 0;
        while i < paths.len()
            invariant
                i <= paths.len(),
                matched@.len() == i,
                forall|j: int|
                    0 <= j < i ==> matched@[j] == matches_any(
                        self.patterns(),
                        #[trigger] texts(paths@)[j],
                    ),
            decreases paths.len() - i,
        {
            matched.push(self.excludes(paths[i].as_str()));
            i = i + 1;
        }
        proof {
            lemma_unmatched_are_kept(texts(paths@), matched@, self.patterns());
        }
        select_unmatched(paths, &matched)
    }
}

/// The paths of `paths` whose flag in `matched` is not set, in their order.
/// A path without a flag counts as not matched.
pub open spec fn unmatched(paths: Seq<Seq<char>>, matched: Seq<bool>) -> Seq<Seq<char>>
    decreases paths.len(),
{
    if paths.len() == 0 {
        paths
    } else if paths.len() <= matched.len() && matched[paths.len() - 1] {
        unmatched(paths.drop_last(), matched)
    } else {
        unmatched(paths.drop_last(), matched).push(paths.last())
    }
}

/// Keeps the paths whose flag in `matched` is not set, in their order. A
/// path without a flag is kept.
pub fn select_unmatched(paths: &Vec<String>, matched: &Vec<bool>) -> (kept: Vec<String>)
    ensures
        texts(kept@) == unmatched(texts(paths@), matched@),
{
    let ghost all = texts(paths@);
    let mut kept: Vec<String> = Vec::new();
    let mut i: usize = 0;
    assert(texts(kept@) =~= unmatched(all.take(0), matched@));
    while i < paths.len()
        invariant
            i <= paths.len(),
            all == texts(paths@),
            texts(kept@) == unmatched(all.take(i as int), matched@),
        decreases paths.len() - i,
    {
        let ghost before = texts(kept@);
        let ghost prefix = all.take(i as int + 1);
        assert(prefix.drop_last() =~= all.take(i as int));
        assert(prefix.last() == paths@[i as int]@);
        if i >= matched.len() || !matched[i] {
            kept.push(paths[i].clone());
            assert(texts(kept@) =~= before.push(paths@[i as int]@));
        }
        i = i + 1;
    }
    assert(all.take(i as int) =~= all);
    kept
}

/// Where each flag says whether one of the patterns matches its path, the
/// paths without a set flag are the paths that the patterns keep.
pub proof fn lemma_unmatched_are_kept(
    paths: Seq<Seq<char>>,
    matched: Seq<bool>,
    patterns: Seq<Seq<char>>,
)
    requires
        matched.len() >= paths.len(),
        forall|i: int| 0 <= i < paths.len() ==> matched[i] == matches_any(patterns, #[trigger] paths[i]),
    ensures
        unmatched(paths, matched) == kept_paths(paths, patterns),
    decreases paths.len(),
{
    reveal(Seq::filter);
    if paths.len() > 0 {
        let rest = paths.drop_last();
        assert forall|i: int| 0 <= i < rest.len() implies matched[i] == matches_any(
            patterns,
            #[trigger] rest[i],
        ) by {
            assert(rest[i] == paths[i]);
        }
        lemma_unmatched_are_kept(rest, matched, patterns);
        assert(matched[paths.len() - 1] == matches_any(patterns, paths[paths.len() - 1]));
    }
}

/// Whether a path is dropped depends on which patterns the set holds, not
/// on their order or on how often one of them is given.
pub proof fn lemma_matches_any_unordered(
    first: Seq<Seq<char>>,
    second: Seq<Seq<char>>,
    text: Seq<char>,
)
    requires
        first.to_set() == second.to_set(),
    ensures
        matches_any(first, text) == matches_any(second, text),
{
    if matches_any(first, text) {
        let i = choose|i: int| 0 <= i < first.len() && #[trigger] pattern_matches(first[i], text);
        lemma_member_matches(first, second, i, text);
    }
    if matches_any(second, text) {
        let i = choose|i: int| 0 <= i < second.len() && #[trigger] pattern_matches(second[i], text);
        lemma_member_matches(second, first, i, text);
    }
}

proof fn lemma_member_matches(from: Seq<Seq<char>>, to: Seq<Seq<char>>, i: int, text: Seq<char>)
    requires
        from.to_set() == to.to_set(),
        0 <= i < from.len(),
        pattern_matches(from[i], text),
    ensures
        matches_any(to, text),
{
    assert(from.contains(from[i]));
    assert(from.to_set().contains(from[i]));
    assert(to.to_set().contains(from[i]));
    assert(to.contains(from[i]));
    let j = choose|j: int| 0 <= j < to.len() && to[j] == from[i];
    assert(pattern_matches(to[j], text));
}

/// A path matches the concatenation of two pattern lists exactly when it
/// matches one of the two.
pub proof fn lemma_matches_any_concat(
    first: Seq<Seq<char>>,
    second: Seq<Seq<char>>,
    text: Seq<char>,
)
    ensures
        matches_any(first + second, text) == (matches_any(first, text) || matches_any(
            second,
            text,
        )),
{
    let both = first + second;
    if matches_any(first, text) {
        let i = choose|i: int| 0 <= i < first.len() && #[trigger] pattern_matches(first[i], text);
        assert(both[i] == first[i]);
        assert(pattern_matches(both[i], text));
    }
    if matches_any(second, text) {
        let i = choose|i: int| 0 <= i < second.len() && #[trigger] pattern_matches(second[i], text);
        assert(both[first.len() + i] == second[i]);
        assert(pattern_matches(both[first.len() + i], text));
    }
    if matches_any(both, text) {
        let i = choose|i: int| 0 <= i < both.len() && #[trigger] pattern_matches(both[i], text);
        if i < first.len() {
            assert(pattern_matches(first[i], text));
        } else {
            assert(both[i] == second[i - first.len()]);
            assert(pattern_matches(second[i - first.len()], text));
        }
    }
}

/// Every path that is kept is one of the given paths and matches no pattern,
/// and every given path that matches no pattern is kept.
pub proof fn lemma_kept_paths(paths: Seq<Seq<char>>, patterns: Seq<Seq<char>>)
    ensures
        forall|i: int|
            0 <= i < kept_paths(paths, patterns).len() ==> paths.contains(
                #[trigger] kept_paths(paths, patterns)[i],
            ) && !matches_any(patterns, kept_paths(paths, patterns)[i]),
        forall|i: int|
            0 <= i < paths.len() && !matches_any(patterns, paths[i]) ==> kept_paths(
                paths,
                patterns,
            ).contains(#[trigger] paths[i]),
{
    let pred = |path: Seq<char>| !matches_any(patterns, path);
    let kept = kept_paths(paths, patterns);
    assert forall|i: int| 0 <= i < kept.len() implies paths.contains(#[trigger] kept[i])
        && !matches_any(patterns, kept[i]) by {
        paths.lemma_filter_pred(pred, i);
        paths.lemma_filter_contains_rev(pred, kept[i]);
    }
    assert forall|i: int| 0 <= i < paths.len() && !matches_any(patterns, paths[i]) implies kept.contains(
        #[trigger] paths[i],
    ) by {
        paths.lemma_filter_contains(pred, i);
    }
}

} // verus!
