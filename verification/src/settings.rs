//! What the queue reads of the user's settings and of their lenses.
use vstd::prelude::*;

use crate::text::texts;

verus! {

/// An upper bound that a user may switch off.
#[derive(Clone, Copy, Debug, PartialEq, Eq, Structural)]
pub enum Limit {
    /// No bound. The number stands for it wherever a query or a channel needs one.
    Infinite(u32),
    Finite(u32),
}

impl Limit {
    /// The bound as a number.
    pub open spec fn spec_value(self) -> u32 {
        match self {
            Limit::Infinite(n) => n,
            Limit::Finite(n) => n,
        }
    }

    /// The bound as a number.
    #[verifier::when_used_as_spec(spec_value)]
    pub fn value(self) -> (n: u32)
        ensures
            n == self.spec_value(),
            self matches Limit::Infinite(m) ==> n == m,
            self matches Limit::Finite(m) ==> n == m,
    {
        match self {
            Limit::Infinite(n) => n,
            Limit::Finite(n) => n,
        }
    }

    /// Whether `count` has come up to the bound.
    pub open spec fn reached(self, count: nat) -> bool {
        self matches Limit::Finite(n) && count >= n
    }

    /// Whether `count` has come up to the bound.
    pub fn is_reached(self, count: u64) -> (reached: bool)
        ensures
            reached == self.reached(count as nat),
            reached <==> (self matches Limit::Finite(m) && count >= m),
    {
        match self {
            Limit::Finite(n) => count >= n as u64,
            Limit::Infinite(_) => false,
        }
    }
}

/// The settings that decide what is crawled.
#[derive(Debug)]
pub struct UserSettings {
    /// Patterns of the domains that are never crawled.
    pub block_list: Vec<String>,
    /// Whether URLs outside of every lens are crawled too.
    pub crawl_external_links: bool,
    /// How many documents of one domain are indexed at most.
    pub domain_crawl_limit: Limit,
    /// How many tasks are in flight at most.
    pub inflight_crawl_limit: Limit,
    /// How many tasks of one domain are in flight at most.
    pub inflight_domain_limit: Limit,
}

/// A rule of a lens, with the pattern that it stands for.
#[derive(Debug)]
pub enum LensRule {
    /// URLs that match are skipped.
    SkipURL(String),
    /// URLs that lie deeper than the rule allows do not match.
    LimitURLDepth(String),
}

/// What the queue reads of a lens.
#[derive(Debug)]
pub struct LensConfig {
    /// One pattern for each domain of the lens.
    pub domains: Vec<String>,
    /// One pattern for each URL prefix of the lens.
    pub urls: Vec<String>,
    /// The rules, in the order in which the lens lists them.
    pub rules: Vec<LensRule>,
}

/// The patterns of those of the rules that skip URLs, in order.
pub open spec fn skip_patterns(rules: Seq<LensRule>) -> Seq<Seq<char>>
    decreases rules.len(),
{
    if rules.len() == 0 {
        Seq::empty()
    } else {
        match rules.last() {
            LensRule::SkipURL(pattern) => skip_patterns(rules.drop_last()).push(pattern@),
            LensRule::LimitURLDepth(_) => skip_patterns(rules.drop_last()),
        }
    }
}

/// The patterns of those of the rules that limit a depth, in order.
pub open spec fn depth_patterns(rules: Seq<LensRule>) -> Seq<Seq<char>>
    decreases rules.len(),
{
    if rules.len() == 0 {
        Seq::empty()
    } else {
        match rules.last() {
            LensRule::SkipURL(_) => depth_patterns(rules.drop_last()),
            LensRule::LimitURLDepth(pattern) => depth_patterns(rules.drop_last()).push(pattern@),
        }
    }
}

impl LensConfig {
    /// The patterns that allow a URL: those of the domains, then those of the prefixes.
    pub open spec fn allows(self) -> Seq<Seq<char>> {
        texts(self.domains@) + texts(self.urls@)
    }

    /// The patterns that skip a URL.
    pub open spec fn skips(self) -> Seq<Seq<char>> {
        skip_patterns(self.rules@)
    }

    /// The patterns that a URL must match one of.
    pub open spec fn restricts(self) -> Seq<Seq<char>> {
        depth_patterns(self.rules@)
    }
}

/// The rules of a lens are taken one by one and in order: each gives one pattern,
/// its own, to the list of its kind and none to the other.
pub proof fn law_rules_are_taken_in_order(
    a: Seq<LensRule>,
    b: Seq<LensRule>,
    rule: LensRule,
)
    ensures
        skip_patterns(a + b) == skip_patterns(a) + skip_patterns(b),
        depth_patterns(a + b) == depth_patterns(a) + depth_patterns(b),
        match rule {
            LensRule::SkipURL(pattern) => {
                &&& skip_patterns(seq![rule]) == seq![pattern@]
                &&& depth_patterns(seq![rule]).len() == 0
            },
            LensRule::LimitURLDepth(pattern) => {
                &&& skip_patterns(seq![rule]).len() == 0
                &&& depth_patterns(seq![rule]) == seq![pattern@]
            },
        },
    decreases b.len(),
{
    let one = seq![rule];
    assert(one.drop_last() =~= Seq::empty());
    assert(one.last() == rule);
    assert(skip_patterns(one.drop_last()) =~= Seq::empty());
    assert(depth_patterns(one.drop_last()) =~= Seq::empty());
    match rule {
        LensRule::SkipURL(pattern) => {
            assert(skip_patterns(one) =~= seq![pattern@]);
        },
        LensRule::LimitURLDepth(pattern) => {
            assert(depth_patterns(one) =~= seq![pattern@]);
        },
    }
    if b.len() == 0 {
        assert(a + b =~= a);
        assert(skip_patterns(a) + skip_patterns(b) =~= skip_patterns(a));
        assert(depth_patterns(a) + depth_patterns(b) =~= depth_patterns(a));
    } else {
        law_rules_are_taken_in_order(a, b.drop_last(), rule);
        assert((a + b).drop_last() =~= a + b.drop_last());
        assert((a + b).last() == b.last());
        assert(skip_patterns(a + b) =~= skip_patterns(a) + skip_patterns(b));
        assert(depth_patterns(a + b) =~= depth_patterns(a) + depth_patterns(b));
    }
}

} // verus!
