//! Sets of URL patterns: how the lenses and the block list make them up, and
//! how they are compiled.
use regex::RegexSet;
use vstd::prelude::*;

use crate::settings::{LensConfig, LensRule};
use crate::text::{extend_texts, texts};

verus! {

/// `regex::RegexSet`: a compiled set of regular expressions.
#[verifier::external_type_specification]
#[verifier::external_body]
pub struct ExRegexSet(RegexSet);

/// `regex::Error`: why a set of regular expressions could not be compiled.
#[verifier::external_type_specification]
#[verifier::external_body]
pub struct ExRegexError(regex::Error);

/// The expressions that a `RegexSet` holds, in the order in which they were given.
pub uninterp spec fn set_patterns(set: RegexSet) -> Seq<Seq<char>>;

/// Whether the regular expression `pattern` matches somewhere in `text`.
pub uninterp spec fn regex_matches(pattern: Seq<char>, text: Seq<char>) -> bool;

/// Whether one of the regular expressions matches somewhere in `text`.
pub open spec fn any_matches(patterns: Seq<Seq<char>>, text: Seq<char>) -> bool {
    exists|i: int| 0 <= i < patterns.len() && #[trigger] regex_matches(patterns[i], text)
}

/// Whether there is a compiled set that holds these expressions.
pub open spec fn compiles(patterns: Seq<Seq<char>>) -> bool {
    exists|set: RegexSet| #[trigger] set_patterns(set) == patterns
}

/// The most patterns that one set can hold.
pub const MAX_PATTERNS: usize = 0x7fff_ffff;

/// Calls `RegexSet::new`. Claimed: a set that was compiled holds the given
/// patterns, and a set of no patterns can always be compiled. When else it
/// succeeds is left open: that rests on the syntax of each pattern and on the
/// memory that the compiled set takes on the machine at hand. A list of more
/// than `MAX_PATTERNS` entries would make the call panic.
#[verifier::external_body]
fn regex_set_new(patterns: &Vec<String>) -> (set: Result<RegexSet, regex::Error>)
    requires
        patterns@.len() <= MAX_PATTERNS,
    ensures
        set matches Ok(s) ==> set_patterns(s) == texts(patterns@),
        patterns@.len() == 0 ==> set is Ok,
{
    RegexSet::new(patterns)
}

/// Calls `RegexSet::is_match`. Claimed: the result is true if and only if one
/// of the expressions of the set matches somewhere in the text.
#[verifier::external_body]
pub(crate) fn regex_set_is_match(set: &RegexSet, text: &str) -> (found: bool)
    ensures
        found == (exists|i: int|
            0 <= i < set_patterns(*set).len() && #[trigger] regex_matches(
                set_patterns(*set)[i],
                text@,
            )),
{
    set.is_match(text)
}

/// Calls `RegexSet::is_empty`. Claimed: the result is true if and only if the
/// set holds no expression.
#[verifier::external_body]
pub(crate) fn regex_set_is_empty(set: &RegexSet) -> (empty: bool)
    ensures
        empty == (set_patterns(*set).len() == 0),
{
    set.is_empty()
}

/// The patterns of a lens, sorted by what they do to a URL.
#[derive(Debug)]
pub struct LensRuleSets {
    /// Allow if any URLs match.
    pub allow_list: Vec<String>,
    /// Skip if any URLs match.
    pub skip_list: Vec<String>,
    /// Skip if any URLs do not match.
    pub restrict_list: Vec<String>,
}

/// Create a set of allow/skip rules from a lens.
pub fn create_ruleset_from_lens(lens: &LensConfig) -> (sets: LensRuleSets)
    ensures
        texts(sets.allow_list@) == lens.allows(),
        texts(sets.skip_list@) == lens.skips(),
        texts(sets.restrict_list@) == lens.restricts(),
{
    let mut allow_list: Vec<String> = Vec::new();
    let mut skip_list: Vec<String> = Vec::new();
    let mut restrict_list: Vec<String> = Vec::new();

    extend_texts(&mut allow_list, &lens.domains);
    extend_texts(&mut allow_list, &lens.urls);

    for i in 0..lens.rules.len()
        invariant
            texts(skip_list@) == crate::settings::skip_patterns(lens.rules@.take(i as int)),
            texts(restrict_list@) == crate::settings::depth_patterns(lens.rules@.take(i as int)),
    {
        proof {
            assert(lens.rules@.take(i + 1).drop_last() =~= lens.rules@.take(i as int));
        }
        let ghost skipped = skip_list@;
        let ghost restricted = restrict_list@;
        match &lens.rules[i] {
            LensRule::SkipURL(pattern) => {
                skip_list.push(pattern.clone());
                assert(texts(skip_list@) =~= texts(skipped).push(pattern@));
            },
            LensRule::LimitURLDepth(pattern) => {
                restrict_list.push(pattern.clone());
                assert(texts(restrict_list@) =~= texts(restricted).push(pattern@));
            },
        }
    }
    assert(lens.rules@.take(lens.rules.len() as int) =~= lens.rules@);
    assert(texts(allow_list@) =~= lens.allows());

    LensRuleSets { allow_list, skip_list, restrict_list }
}

/// Which of the three sets of patterns is meant.
#[derive(Clone, Copy, Debug, PartialEq, Eq, Structural)]
pub enum RuleList {
    Allow,
    Skip,
    Restrict,
}

/// A set of patterns that could not be compiled.
#[derive(Debug)]
pub struct RuleSetError {
    pub list: RuleList,
    /// What the pattern compiler said; nothing, where there were too many patterns.
    pub cause: Option<regex::Error>,
}

/// The patterns of three compiled sets.
pub struct RulesView {
    pub allow: Seq<Seq<char>>,
    pub skip: Seq<Seq<char>>,
    pub restrict: Seq<Seq<char>>,
}

impl LensRuleSets {
    /// The patterns of the three lists.
    pub open spec fn patterns(self) -> RulesView {
        RulesView {
            allow: texts(self.allow_list@),
            skip: texts(self.skip_list@),
            restrict: texts(self.restrict_list@),
        }
    }
}

impl RulesView {
    /// The patterns of one of the sets.
    pub open spec fn list(self, list: RuleList) -> Seq<Seq<char>> {
        match list {
            RuleList::Allow => self.allow,
            RuleList::Skip => self.skip,
            RuleList::Restrict => self.restrict,
        }
    }

    /// Whether a set can hold each of the lists.
    pub open spec fn few_enough(self) -> bool {
        &&& self.allow.len() <= MAX_PATTERNS
        &&& self.skip.len() <= MAX_PATTERNS
        &&& self.restrict.len() <= MAX_PATTERNS
    }

    /// Whether a failure to compile the lists is put down to a list that can
    /// have caused it: one that is not empty, and without a word of the pattern
    /// compiler exactly where there are too many patterns in it. The lists that
    /// come before it have been compiled.
    pub open spec fn blames(self, e: RuleSetError) -> bool {
        &&& self.list(e.list).len() > 0
        &&& e.cause is None <==> self.list(e.list).len() > MAX_PATTERNS
        &&& e.list == RuleList::Skip ==> compiles(self.allow)
        &&& e.list == RuleList::Restrict ==> compiles(self.allow) && compiles(self.skip)
    }
}

/// The compiled patterns that URLs are held against.
pub struct UrlRules {
    pub allow: RegexSet,
    pub skip: RegexSet,
    pub restrict: RegexSet,
}

impl View for UrlRules {
    type V = RulesView;

    open spec fn view(&self) -> RulesView {
        RulesView {
            allow: set_patterns(self.allow),
            skip: set_patterns(self.skip),
            restrict: set_patterns(self.restrict),
        }
    }
}

/// What the three sets say of one URL.
#[derive(Clone, Copy, Debug, PartialEq, Eq, Structural)]
pub struct Verdict {
    /// A pattern allows the URL.
    pub allowed: bool,
    /// A pattern skips the URL.
    pub skipped: bool,
    /// There are restrictions and the URL matches none of them.
    pub restricted: bool,
}

impl RulesView {
    /// What the three sets say of `text`.
    pub open spec fn verdict(self, text: Seq<char>) -> Verdict {
        Verdict {
            allowed: any_matches(self.allow, text),
            skipped: any_matches(self.skip, text),
            restricted: self.restrict.len() > 0 && !any_matches(self.restrict, text),
        }
    }
}

fn compile_list(list: RuleList, patterns: &Vec<String>) -> (set: Result<RegexSet, RuleSetError>)
    ensures
        set matches Ok(s) ==> set_patterns(s) == texts(patterns@),
        set is Ok ==> patterns@.len() <= MAX_PATTERNS,
        set matches Err(e) ==> {
            &&& e.list == list
            &&& patterns@.len() > 0
            &&& e.cause is None <==> patterns@.len() > MAX_PATTERNS
        },
{
    if patterns.len() > MAX_PATTERNS {
        return Err(RuleSetError { list, cause: None });
    }
    match regex_set_new(patterns) {
        Ok(set) => Ok(set),
        Err(cause) => Err(RuleSetError { list, cause: Some(cause) }),
    }
}

impl UrlRules {
    /// Compiles the three lists. An empty list never fails.
    pub fn compile(sets: &LensRuleSets) -> (rules: Result<UrlRules, RuleSetError>)
        ensures
            rules matches Ok(r) ==> r@ == sets.patterns(),
            rules is Ok ==> sets.patterns().few_enough(),
            rules matches Err(e) ==> sets.patterns().blames(e),
            rules matches Err(e) ==> {
                let list = match e.list {
                    RuleList::Allow => sets.allow_list@,
                    RuleList::Skip => sets.skip_list@,
                    RuleList::Restrict => sets.restrict_list@,
                };
                list.len() > 0 && (e.cause is None <==> list.len() > 0x7fff_ffff)
            },
    {
        let allow = match compile_list(RuleList::Allow, &sets.allow_list) {
            Ok(set) => set,
            Err(e) => return Err(e),
        };
        let skip = match compile_list(RuleList::Skip, &sets.skip_list) {
            Ok(set) => set,
            Err(e) => return Err(e),
        };
        let restrict = match compile_list(RuleList::Restrict, &sets.restrict_list) {
            Ok(set) => set,
            Err(e) => return Err(e),
        };
        Ok(UrlRules { allow, skip, restrict })
    }

    /// What the three sets say of `text`.
    pub fn verdict(&self, text: &str) -> (verdict: Verdict)
        ensures
            verdict == self@.verdict(text@),
    {
        Verdict {
            allowed: !regex_set_is_empty(&self.allow) && regex_set_is_match(&self.allow, text),
            skipped: regex_set_is_match(&self.skip, text),
            restricted: !regex_set_is_empty(&self.restrict) && !regex_set_is_match(
                &self.restrict,
                text,
            ),
        }
    }
}

} // verus!
