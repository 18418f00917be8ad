//! Which URLs may enter the queue, and under which form.
use vstd::prelude::*;

use crate::address::{
    can_handle_scheme, handled_scheme, opt_parts, parsed_url, url_parse, UrlParts, UrlView,
};
use crate::rules::{
    any_matches, create_ruleset_from_lens, regex_matches, LensRuleSets, RuleSetError, RulesView,
    UrlRules, Verdict,
};
use crate::settings::{depth_patterns, skip_patterns, LensConfig, LensRule, UserSettings};
use crate::task::EnqueueSettings;
use crate::text::{extend_texts, lemma_texts_push, opt_text, texts};

verus! {

/// The patterns by which the lenses allow URLs, lens after lens.
pub open spec fn lens_allows(lenses: Seq<LensConfig>) -> Seq<Seq<char>>
    decreases lenses.len(),
{
    if lenses.len() == 0 {
        Seq::empty()
    } else {
        lens_allows(lenses.drop_last()) + lenses.last().allows()
    }
}

/// The patterns by which the lenses skip URLs, lens after lens.
pub open spec fn lens_skips(lenses: Seq<LensConfig>) -> Seq<Seq<char>>
    decreases lenses.len(),
{
    if lenses.len() == 0 {
        Seq::empty()
    } else {
        lens_skips(lenses.drop_last()) + lenses.last().skips()
    }
}

/// The patterns by which the lenses restrict URLs, lens after lens.
pub open spec fn lens_restricts(lenses: Seq<LensConfig>) -> Seq<Seq<char>>
    decreases lenses.len(),
{
    if lenses.len() == 0 {
        Seq::empty()
    } else {
        lens_restricts(lenses.drop_last()) + lenses.last().restricts()
    }
}

/// All patterns that URLs are held against: those of the lenses, and those of
/// the block list among the ones that skip.
pub open spec fn all_rules(lenses: Seq<LensConfig>, block_list: Seq<String>) -> RulesView {
    RulesView {
        allow: lens_allows(lenses),
        skip: texts(block_list) + lens_skips(lenses),
        restrict: lens_restricts(lenses),
    }
}

/// Gathers the patterns of the block list and of the lenses.
pub fn collect_rules(lenses: &[LensConfig], block_list: &Vec<String>) -> (sets: LensRuleSets)
    ensures
        sets.patterns() == all_rules(lenses@, block_list@),
{
    let mut allow_list: Vec<String> = Vec::new();
    let mut skip_list: Vec<String> = Vec::new();
    let mut restrict_list: Vec<String> = Vec::new();

    extend_texts(&mut skip_list, block_list);
    assert(texts(skip_list@) =~= texts(block_list@) + lens_skips(lenses@.take(0)));

    for i in 0..lenses.len()
        invariant
            texts(allow_list@) == lens_allows(lenses@.take(i as int)),
            texts(skip_list@) == texts(block_list@) + lens_skips(lenses@.take(i as int)),
            texts(restrict_list@) == lens_restricts(lenses@.take(i as int)),
    {
        let ruleset = create_ruleset_from_lens(&lenses[i]);
        extend_texts(&mut allow_list, &ruleset.allow_list);
        extend_texts(&mut skip_list, &ruleset.skip_list);
        extend_texts(&mut restrict_list, &ruleset.restrict_list);
        proof {
            let seen = lenses@.take(i + 1);
            assert(seen.drop_last() =~= lenses@.take(i as int));
            assert(seen.last() == lenses@[i as int]);
            assert(texts(skip_list@) =~= texts(block_list@) + lens_skips(seen));
        }
    }
    assert(lenses@.take(lenses.len() as int) =~= lenses@);

    LensRuleSets { allow_list, skip_list, restrict_list }
}

/// Whether a URL of which the patterns say `verdict` may enter the queue.
pub open spec fn admits(verdict: Verdict, external: bool, force: bool) -> bool {
    &&& !verdict.skipped
    &&& !verdict.restricted
    &&& external || force || verdict.allowed
}

/// Whether a URL of which the patterns say `verdict` may enter the queue.
pub fn is_admitted(verdict: Verdict, external: bool, force: bool) -> (admitted: bool)
    ensures
        admitted == admits(verdict, external, force),
{
    // Ignore domains on blacklist, and URLs that do not match a restriction.
    if verdict.skipped || verdict.restricted {
        return false;
    }
    // Should we crawl external links? If not, only allow crawls specified in our lenses.
    external || force || verdict.allowed
}

/// The form under which a parsed URL enters the queue, if it may.
pub open spec fn admitted_form(
    parsed: Option<UrlView>,
    rules: RulesView,
    external: bool,
    force: bool,
) -> Option<Seq<char>> {
    match parsed {
        Some(url) => if handled_scheme(url.scheme) && admits(
            rules.verdict(url.text),
            external,
            force,
        ) {
            Some(url.text)
        } else {
            None
        },
        None => None,
    }
}

/// The form under which a parsed URL enters the queue, if it may.
pub fn admit_parsed(
    parsed: Option<UrlParts>,
    rules: &UrlRules,
    external: bool,
    force: bool,
) -> (form: Option<String>)
    ensures
        opt_text(form) == admitted_form(opt_parts(parsed), rules@, external, force),
{
    match parsed {
        Some(url) => {
            if !can_handle_scheme(&url.scheme) {
                return None;
            }
            let verdict = rules.verdict(url.text.as_str());
            if is_admitted(verdict, external, force) {
                Some(url.text)
            } else {
                None
            }
        },
        None => None,
    }
}

/// The forms under which URLs enter the queue, in order, without those that may not.
pub open spec fn admitted_urls(
    urls: Seq<Seq<char>>,
    rules: RulesView,
    external: bool,
    force: bool,
) -> Seq<Seq<char>>
    decreases urls.len(),
{
    if urls.len() == 0 {
        Seq::empty()
    } else {
        let before = admitted_urls(urls.drop_last(), rules, external, force);
        match admitted_form(parsed_url(urls.last()), rules, external, force) {
            Some(text) => before.push(text),
            None => before,
        }
    }
}

/// Whether a text has no fragment and begins with a scheme that can be crawled.
pub open spec fn crawlable_form(text: Seq<char>) -> bool {
    &&& !text.contains('#')
    &&& exists|n: int|
        0 <= n < text.len() && text[n] == ':' && #[trigger] handled_scheme(text.take(n))
}

/// Holds URLs against compiled patterns.
pub fn filter_by_rules(
    rules: &UrlRules,
    external: bool,
    force: bool,
    urls: &[String],
) -> (kept: Vec<String>)
    ensures
        texts(kept@) == admitted_urls(texts(urls@), rules@, external, force),
        forall|k: int| 0 <= k < kept@.len() ==> crawlable_form(#[trigger] kept@[k]@),
{
    let mut kept: Vec<String> = Vec::new();
    for i in 0..urls.len()
        invariant
            texts(kept@) == admitted_urls(texts(urls@).take(i as int), rules@, external, force),
            forall|k: int| 0 <= k < kept@.len() ==> crawlable_form(#[trigger] kept@[k]@),
    {
        let ghost before = kept@;
        let parsed = url_parse(urls[i].as_str());
        proof {
            let seen = texts(urls@).take(i + 1);
            assert(seen.drop_last() =~= texts(urls@).take(i as int));
            assert(seen.last() == urls@[i as int]@);
        }
        let ghost form = opt_parts(parsed);
        match admit_parsed(parsed, rules, external, force) {
            Some(text) => {
                proof {
                    assert(handled_scheme(text@.take(form->0.scheme.len() as int)));
                    assert(crawlable_form(text@));
                    lemma_texts_push(before, text);
                }
                kept.push(text);
            },
            None => {},
        }
    }
    assert(texts(urls@).take(urls.len() as int) =~= texts(urls@));
    kept
}

/// The URLs among `urls` that may be crawled, in their normal form and without
/// their fragments. Fails where the patterns cannot be compiled.
pub fn filter_urls(
    lenses: &[LensConfig],
    settings: &UserSettings,
    overrides: &EnqueueSettings,
    urls: &[String],
) -> (kept: Result<Vec<String>, RuleSetError>)
    ensures
        kept matches Ok(list) ==> texts(list@) == admitted_urls(
            texts(urls@),
            all_rules(lenses@, settings.block_list@),
            settings.crawl_external_links,
            overrides.force_allow,
        ),
        kept matches Ok(list) ==> forall|k: int|
            0 <= k < list@.len() ==> crawlable_form(#[trigger] list@[k]@),
        kept is Ok ==> all_rules(lenses@, settings.block_list@).few_enough(),
        kept matches Err(e) ==> all_rules(lenses@, settings.block_list@).blames(e),
        kept matches Err(e) ==> (e.cause is None <==> all_rules(
            lenses@,
            settings.block_list@,
        ).list(e.list).len() > 0x7fff_ffff),
{
    let sets = collect_rules(lenses, &settings.block_list);
    match UrlRules::compile(&sets) {
        Ok(rules) => Ok(
            filter_by_rules(&rules, settings.crawl_external_links, overrides.force_allow, urls),
        ),
        Err(e) => Err(e),
    }
}

/// Whether `text` is the form under which the URL at `i` enters the queue.
pub open spec fn admitted_from(
    urls: Seq<Seq<char>>,
    rules: RulesView,
    external: bool,
    force: bool,
    i: int,
    text: Seq<char>,
) -> bool {
    admitted_form(parsed_url(urls[i]), rules, external, force) == Some(text)
}

/// What is kept is exactly what may be crawled: every text that is kept is the
/// form of one of the URLs, and the form of every URL that may be crawled is
/// kept.
pub proof fn law_kept_iff_admitted(
    urls: Seq<Seq<char>>,
    rules: RulesView,
    external: bool,
    force: bool,
    text: Seq<char>,
)
    ensures
        admitted_urls(urls, rules, external, force).contains(text) <==> exists|i: int|
            0 <= i < urls.len() && #[trigger] admitted_from(urls, rules, external, force, i, text),
    decreases urls.len(),
{
    let kept = admitted_urls(urls, rules, external, force);
    if urls.len() > 0 {
        let init = urls.drop_last();
        let n = init.len() as int;
        let before = admitted_urls(init, rules, external, force);
        law_kept_iff_admitted(init, rules, external, force, text);
        if kept.contains(text) {
            let k = choose|k: int| 0 <= k < kept.len() && kept[k] == text;
            if k < before.len() {
                assert(before[k] == text);
                let i = choose|i: int|
                    0 <= i < init.len() && #[trigger] admitted_from(
                        init,
                        rules,
                        external,
                        force,
                        i,
                        text,
                    );
                assert(admitted_from(urls, rules, external, force, i, text));
            } else {
                assert(admitted_from(urls, rules, external, force, n, text));
            }
        }
        if exists|i: int|
            0 <= i < urls.len() && #[trigger] admitted_from(urls, rules, external, force, i, text) {
            let i = choose|i: int|
                0 <= i < urls.len() && #[trigger] admitted_from(
                    urls,
                    rules,
                    external,
                    force,
                    i,
                    text,
                );
            if i < n {
                assert(admitted_from(init, rules, external, force, i, text));
                let k = choose|k: int| 0 <= k < before.len() && before[k] == text;
                assert(kept[k] == text);
            } else {
                assert(kept[kept.len() - 1] == text);
            }
        }
    }
}

/// URLs are judged one by one and their order is kept: filtering two lists one
/// after the other is filtering the first and then the second.
pub proof fn law_filter_distributes(
    first: Seq<Seq<char>>,
    second: Seq<Seq<char>>,
    rules: RulesView,
    external: bool,
    force: bool,
)
    ensures
        admitted_urls(first + second, rules, external, force) == admitted_urls(
            first,
            rules,
            external,
            force,
        ) + admitted_urls(second, rules, external, force),
    decreases second.len(),
{
    if second.len() == 0 {
        assert(first + second =~= first);
        assert(admitted_urls(first, rules, external, force) + Seq::<Seq<char>>::empty()
            =~= admitted_urls(first, rules, external, force));
    } else {
        law_filter_distributes(first, second.drop_last(), rules, external, force);
        assert((first + second).drop_last() =~= first + second.drop_last());
        assert((first + second).last() == second.last());
        assert(admitted_urls(first + second, rules, external, force) =~= admitted_urls(
            first,
            rules,
            external,
            force,
        ) + admitted_urls(second, rules, external, force));
    }
}

/// A URL that the block list or a lens skips is never kept, whether external
/// links are crawled or the URL is forced, and neither is one that the
/// restrictions leave out.
pub proof fn law_skipped_urls_stay_out(
    urls: Seq<Seq<char>>,
    rules: RulesView,
    external: bool,
    force: bool,
    text: Seq<char>,
)
    requires
        rules.verdict(text).skipped || rules.verdict(text).restricted,
    ensures
        !admitted_urls(urls, rules, external, force).contains(text),
{
    law_kept_iff_admitted(urls, rules, external, force, text);
}

/// Without lenses, only crawling external links or forcing lets a URL in.
pub proof fn law_nothing_without_lenses(urls: Seq<Seq<char>>, block_list: Seq<String>)
    ensures
        admitted_urls(urls, all_rules(Seq::empty(), block_list), false, false).len() == 0,
    decreases urls.len(),
{
    if urls.len() > 0 {
        law_nothing_without_lenses(urls.drop_last(), block_list);
    }
}

/// Whether two lists hold the same patterns, in any order and any number.
pub open spec fn same_patterns(a: Seq<Seq<char>>, b: Seq<Seq<char>>) -> bool {
    forall|p: Seq<char>| a.contains(p) <==> b.contains(p)
}

proof fn lemma_same_patterns_match(a: Seq<Seq<char>>, b: Seq<Seq<char>>, text: Seq<char>)
    requires
        same_patterns(a, b),
    ensures
        any_matches(a, text) == any_matches(b, text),
        (a.len() == 0) == (b.len() == 0),
{
    lemma_patterns_match_too(a, b, text);
    lemma_patterns_match_too(b, a, text);
}

proof fn lemma_patterns_match_too(a: Seq<Seq<char>>, b: Seq<Seq<char>>, text: Seq<char>)
    requires
        forall|p: Seq<char>| a.contains(p) ==> b.contains(p),
    ensures
        any_matches(a, text) ==> any_matches(b, text),
        a.len() > 0 ==> b.len() > 0,
{
    if a.len() > 0 {
        assert(a.contains(a[0]));
    }
    if any_matches(a, text) {
        let i = choose|i: int| 0 <= i < a.len() && #[trigger] regex_matches(a[i], text);
        assert(a.contains(a[i]));
        let j = choose|j: int| 0 <= j < b.len() && b[j] == a[i];
        assert(regex_matches(b[j], text));
    }
}

/// Only which patterns there are counts, not their order nor how often each is
/// listed.
pub proof fn law_pattern_order_is_irrelevant(
    urls: Seq<Seq<char>>,
    a: RulesView,
    b: RulesView,
    external: bool,
    force: bool,
)
    requires
        same_patterns(a.allow, b.allow),
        same_patterns(a.skip, b.skip),
        same_patterns(a.restrict, b.restrict),
    ensures
        admitted_urls(urls, a, external, force) == admitted_urls(urls, b, external, force),
    decreases urls.len(),
{
    if urls.len() > 0 {
        law_pattern_order_is_irrelevant(urls.drop_last(), a, b, external, force);
        match parsed_url(urls.last()) {
            Some(url) => {
                lemma_same_patterns_match(a.allow, b.allow, url.text);
                lemma_same_patterns_match(a.skip, b.skip, url.text);
                lemma_same_patterns_match(a.restrict, b.restrict, url.text);
            },
            None => {},
        }
    }
}

proof fn lemma_lens_patterns(lenses: Seq<LensConfig>, p: Seq<char>)
    ensures
        lens_allows(lenses).contains(p) <==> exists|i: int|
            0 <= i < lenses.len() && (#[trigger] lenses[i]).allows().contains(p),
        lens_skips(lenses).contains(p) <==> exists|i: int|
            0 <= i < lenses.len() && (#[trigger] lenses[i]).skips().contains(p),
        lens_restricts(lenses).contains(p) <==> exists|i: int|
            0 <= i < lenses.len() && (#[trigger] lenses[i]).restricts().contains(p),
    decreases lenses.len(),
{
    if lenses.len() > 0 {
        let init = lenses.drop_last();
        let last = lenses.last();
        lemma_lens_patterns(init, p);
        lemma_concat_contains(lens_allows(init), last.allows(), p);
        lemma_concat_contains(lens_skips(init), last.skips(), p);
        lemma_concat_contains(lens_restricts(init), last.restricts(), p);
        assert(lenses[lenses.len() - 1] == last);
        assert(forall|i: int| 0 <= i < init.len() ==> init[i] == lenses[i]);
    }
}

proof fn lemma_concat_contains(a: Seq<Seq<char>>, b: Seq<Seq<char>>, p: Seq<char>)
    ensures
        (a + b).contains(p) <==> a.contains(p) || b.contains(p),
{
    if a.contains(p) {
        let k = choose|k: int| 0 <= k < a.len() && a[k] == p;
        assert((a + b)[k] == p);
    }
    if b.contains(p) {
        let k = choose|k: int| 0 <= k < b.len() && b[k] == p;
        assert((a + b)[a.len() + k] == p);
    }
}

proof fn lemma_same_lenses(a: Seq<LensConfig>, b: Seq<LensConfig>, p: Seq<char>)
    requires
        forall|lens: LensConfig| a.contains(lens) ==> b.contains(lens),
    ensures
        lens_allows(a).contains(p) ==> lens_allows(b).contains(p),
        lens_skips(a).contains(p) ==> lens_skips(b).contains(p),
        lens_restricts(a).contains(p) ==> lens_restricts(b).contains(p),
{
    lemma_lens_patterns(a, p);
    lemma_lens_patterns(b, p);
    assert forall|i: int| 0 <= i < a.len() implies b.contains(#[trigger] a[i]) by {
        assert(a.contains(a[i]));
    }
}

/// The order in which the lenses are listed does not matter.
pub proof fn law_lens_order_is_irrelevant(
    urls: Seq<Seq<char>>,
    a: Seq<LensConfig>,
    b: Seq<LensConfig>,
    block_list: Seq<String>,
    external: bool,
    force: bool,
)
    requires
        forall|lens: LensConfig| a.contains(lens) <==> b.contains(lens),
    ensures
        admitted_urls(urls, all_rules(a, block_list), external, force) == admitted_urls(
            urls,
            all_rules(b, block_list),
            external,
            force,
        ),
{
    let left = all_rules(a, block_list);
    let right = all_rules(b, block_list);
    assert forall|p: Seq<char>|
        (left.allow.contains(p) <==> right.allow.contains(p)) && (left.skip.contains(p)
            <==> right.skip.contains(p)) && (left.restrict.contains(p)
            <==> right.restrict.contains(p)) by {
        lemma_same_lenses(a, b, p);
        lemma_same_lenses(b, a, p);
        lemma_concat_contains(texts(block_list), lens_skips(a), p);
        lemma_concat_contains(texts(block_list), lens_skips(b), p);
    }
    law_pattern_order_is_irrelevant(urls, left, right, external, force);
}

/// Blocking more domains never lets more URLs in.
pub proof fn law_blocking_only_removes(
    urls: Seq<Seq<char>>,
    lenses: Seq<LensConfig>,
    block_list: Seq<String>,
    more: Seq<String>,
    external: bool,
    force: bool,
    text: Seq<char>,
)
    requires
        admitted_urls(urls, all_rules(lenses, block_list + more), external, force).contains(text),
    ensures
        admitted_urls(urls, all_rules(lenses, block_list), external, force).contains(text),
{
    let less = all_rules(lenses, block_list);
    let full = all_rules(lenses, block_list + more);
    law_kept_iff_admitted(urls, full, external, force, text);
    let i = choose|i: int|
        0 <= i < urls.len() && #[trigger] admitted_from(urls, full, external, force, i, text);
    assert forall|p: Seq<char>| less.skip.contains(p) implies full.skip.contains(p) by {
        assert(texts(block_list + more) =~= texts(block_list) + texts(more));
        lemma_concat_contains(texts(block_list), lens_skips(lenses), p);
        lemma_concat_contains(texts(block_list), texts(more), p);
        lemma_concat_contains(texts(block_list + more), lens_skips(lenses), p);
    }
    lemma_patterns_match_too(less.skip, full.skip, text);
    assert(admitted_from(urls, less, external, force, i, text));
    law_kept_iff_admitted(urls, less, external, force, text);
}

/// Whether one of the patterns matches somewhere in `text`.
pub open spec fn some_match(patterns: Seq<String>, text: Seq<char>) -> bool {
    exists|i: int| 0 <= i < patterns.len() && #[trigger] regex_matches(patterns[i]@, text)
}

/// Whether the rule skips the URLs that match it, and `text` does.
pub open spec fn skipped_by(rule: LensRule, text: Seq<char>) -> bool {
    rule matches LensRule::SkipURL(pattern) && regex_matches(pattern@, text)
}

/// Whether the rule limits the depth of URLs, and `text` lies within it.
pub open spec fn within_depth(rule: LensRule, text: Seq<char>) -> bool {
    rule matches LensRule::LimitURLDepth(pattern) && regex_matches(pattern@, text)
}

/// Whether a rule of a lens skips `text`.
pub open spec fn lens_hides(lens: LensConfig, text: Seq<char>) -> bool {
    exists|i: int| 0 <= i < lens.rules@.len() && skipped_by(#[trigger] lens.rules@[i], text)
}

/// Whether a rule of a lens limits the depth of URLs.
pub open spec fn lens_limits(lens: LensConfig) -> bool {
    exists|i: int|
        0 <= i < lens.rules@.len() && (#[trigger] lens.rules@[i]) is LimitURLDepth
}

/// Whether `text` lies within the depth that a rule of a lens allows.
pub open spec fn lens_reaches(lens: LensConfig, text: Seq<char>) -> bool {
    exists|i: int| 0 <= i < lens.rules@.len() && within_depth(#[trigger] lens.rules@[i], text)
}

/// Whether a domain or a prefix of a lens matches `text`.
pub open spec fn lens_wants(lens: LensConfig, text: Seq<char>) -> bool {
    some_match(lens.domains@, text) || some_match(lens.urls@, text)
}

/// Whether the block list or a lens rules `text` out.
pub open spec fn ruled_out(
    lenses: Seq<LensConfig>,
    block_list: Seq<String>,
    text: Seq<char>,
) -> bool {
    ||| some_match(block_list, text)
    ||| exists|k: int| 0 <= k < lenses.len() && lens_hides(#[trigger] lenses[k], text)
}

/// Whether the lenses limit the depth of URLs and `text` lies within none of
/// their limits.
pub open spec fn too_deep(lenses: Seq<LensConfig>, text: Seq<char>) -> bool {
    &&& exists|k: int| 0 <= k < lenses.len() && lens_limits(#[trigger] lenses[k])
    &&& forall|k: int| 0 <= k < lenses.len() ==> !lens_reaches(#[trigger] lenses[k], text)
}

/// Whether a URL may be crawled.
pub open spec fn may_crawl(
    url: UrlView,
    lenses: Seq<LensConfig>,
    block_list: Seq<String>,
    external: bool,
    force: bool,
) -> bool {
    &&& url.scheme == "http"@ || url.scheme == "https"@ || url.scheme == "file"@ || url.scheme
        == "api"@
    &&& !ruled_out(lenses, block_list, url.text)
    &&& !too_deep(lenses, url.text)
    &&& external || force || exists|k: int|
        0 <= k < lenses.len() && lens_wants(#[trigger] lenses[k], url.text)
}

proof fn lemma_texts_match(list: Seq<String>, text: Seq<char>)
    ensures
        any_matches(texts(list), text) == some_match(list, text),
{
    if any_matches(texts(list), text) {
        let i = choose|i: int|
            0 <= i < texts(list).len() && #[trigger] regex_matches(texts(list)[i], text);
        assert(regex_matches(list[i]@, text));
    }
    if some_match(list, text) {
        let i = choose|i: int| 0 <= i < list.len() && #[trigger] regex_matches(list[i]@, text);
        assert(texts(list)[i] == list[i]@);
        assert(regex_matches(texts(list)[i], text));
    }
}

proof fn lemma_concat_matches(a: Seq<Seq<char>>, b: Seq<Seq<char>>, text: Seq<char>)
    ensures
        any_matches(a + b, text) == (any_matches(a, text) || any_matches(b, text)),
{
    if any_matches(a, text) {
        let i = choose|i: int| 0 <= i < a.len() && #[trigger] regex_matches(a[i], text);
        assert(regex_matches((a + b)[i], text));
    }
    if any_matches(b, text) {
        let i = choose|i: int| 0 <= i < b.len() && #[trigger] regex_matches(b[i], text);
        assert((a + b)[a.len() + i] == b[i]);
        assert(regex_matches((a + b)[a.len() + i], text));
    }
    if any_matches(a + b, text) {
        let i = choose|i: int| 0 <= i < (a + b).len() && #[trigger] regex_matches((a + b)[i], text);
        if i < a.len() {
            assert(regex_matches(a[i], text));
        } else {
            assert(regex_matches(b[i - a.len()], text));
        }
    }
}

proof fn lemma_skip_patterns(rules: Seq<LensRule>, text: Seq<char>)
    ensures
        any_matches(skip_patterns(rules), text) <==> exists|i: int|
            0 <= i < rules.len() && skipped_by(#[trigger] rules[i], text),
    decreases rules.len(),
{
    if rules.len() > 0 {
        let init = rules.drop_last();
        let n = rules.len() - 1;
        lemma_skip_patterns(init, text);
        assert(forall|i: int| 0 <= i < n ==> init[i] == rules[i]);
        match rules.last() {
            LensRule::SkipURL(pattern) => {
                let before = skip_patterns(init);
                lemma_concat_matches(before, seq![pattern@], text);
                assert(before.push(pattern@) =~= before + seq![pattern@]);
                assert(any_matches(seq![pattern@], text) == regex_matches(pattern@, text)) by {
                    if regex_matches(pattern@, text) {
                        assert(regex_matches(seq![pattern@][0], text));
                    }
                }
                assert(skipped_by(rules[n], text) == regex_matches(pattern@, text));
                if exists|i: int| 0 <= i < init.len() && skipped_by(#[trigger] init[i], text) {
                    let i = choose|i: int|
                        0 <= i < init.len() && skipped_by(#[trigger] init[i], text);
                    assert(skipped_by(rules[i], text));
                }
            },
            LensRule::LimitURLDepth(_) => {
                assert(!skipped_by(rules[n], text));
            },
        }
    }
}

proof fn lemma_depth_patterns(rules: Seq<LensRule>, text: Seq<char>)
    ensures
        any_matches(depth_patterns(rules), text) <==> exists|i: int|
            0 <= i < rules.len() && within_depth(#[trigger] rules[i], text),
        depth_patterns(rules).len() > 0 <==> exists|i: int|
            0 <= i < rules.len() && (#[trigger] rules[i]) is LimitURLDepth,
    decreases rules.len(),
{
    if rules.len() > 0 {
        let init = rules.drop_last();
        let n = rules.len() - 1;
        lemma_depth_patterns(init, text);
        assert(forall|i: int| 0 <= i < n ==> init[i] == rules[i]);
        match rules.last() {
            LensRule::LimitURLDepth(pattern) => {
                let before = depth_patterns(init);
                lemma_concat_matches(before, seq![pattern@], text);
                assert(before.push(pattern@) =~= before + seq![pattern@]);
                assert(any_matches(seq![pattern@], text) == regex_matches(pattern@, text)) by {
                    if regex_matches(pattern@, text) {
                        assert(regex_matches(seq![pattern@][0], text));
                    }
                }
                assert(rules[n] is LimitURLDepth);
                assert(within_depth(rules[n], text) == regex_matches(pattern@, text));
            },
            LensRule::SkipURL(_) => {
                assert(!within_depth(rules[n], text));
                assert(!(rules[n] is LimitURLDepth));
            },
        }
    }
}

proof fn lemma_lenses_match(lenses: Seq<LensConfig>, text: Seq<char>)
    ensures
        any_matches(lens_allows(lenses), text) <==> exists|k: int|
            0 <= k < lenses.len() && lens_wants(#[trigger] lenses[k], text),
        any_matches(lens_skips(lenses), text) <==> exists|k: int|
            0 <= k < lenses.len() && lens_hides(#[trigger] lenses[k], text),
        any_matches(lens_restricts(lenses), text) <==> exists|k: int|
            0 <= k < lenses.len() && lens_reaches(#[trigger] lenses[k], text),
        lens_restricts(lenses).len() > 0 <==> exists|k: int|
            0 <= k < lenses.len() && lens_limits(#[trigger] lenses[k]),
    decreases lenses.len(),
{
    if lenses.len() > 0 {
        let init = lenses.drop_last();
        let last = lenses.last();
        let n = lenses.len() - 1;
        lemma_lenses_match(init, text);
        assert(forall|k: int| 0 <= k < n ==> init[k] == lenses[k]);
        assert(lenses[n] == last);
        lemma_concat_matches(lens_allows(init), last.allows(), text);
        lemma_concat_matches(texts(last.domains@), texts(last.urls@), text);
        lemma_texts_match(last.domains@, text);
        lemma_texts_match(last.urls@, text);
        lemma_concat_matches(lens_skips(init), last.skips(), text);
        lemma_skip_patterns(last.rules@, text);
        lemma_concat_matches(lens_restricts(init), last.restricts(), text);
        lemma_depth_patterns(last.rules@, text);
        assert(any_matches(last.allows(), text) == lens_wants(lenses[n], text));
        assert(any_matches(last.skips(), text) == lens_hides(lenses[n], text));
        assert(any_matches(last.restricts(), text) == lens_reaches(lenses[n], text));
        assert((last.restricts().len() > 0) == lens_limits(lenses[n]));
    }
}

/// A URL is kept, in its normal form, if and only if it can be parsed, its scheme
/// is one that can be crawled, neither the block list nor a lens rules it out, it
/// lies within a depth that the lenses allow, and external links are crawled, the
/// URL is forced or a lens has its domain or prefix.
pub proof fn law_kept_iff_it_may_be_crawled(
    url: Seq<char>,
    lenses: Seq<LensConfig>,
    block_list: Seq<String>,
    external: bool,
    force: bool,
)
    ensures
        admitted_urls(seq![url], all_rules(lenses, block_list), external, force) == (
        match parsed_url(url) {
            Some(u) => if may_crawl(u, lenses, block_list, external, force) {
                seq![u.text]
            } else {
                Seq::empty()
            },
            None => Seq::empty(),
        }),
{
    let rules = all_rules(lenses, block_list);
    let one = seq![url];
    assert(one.drop_last() =~= Seq::empty());
    assert(admitted_urls(one.drop_last(), rules, external, force) =~= Seq::empty());
    match parsed_url(url) {
        Some(u) => {
            lemma_lenses_match(lenses, u.text);
            lemma_texts_match(block_list, u.text);
            lemma_concat_matches(texts(block_list), lens_skips(lenses), u.text);
            assert(rules.verdict(u.text).skipped == ruled_out(lenses, block_list, u.text));
            assert(rules.verdict(u.text).restricted == too_deep(lenses, u.text));
            assert(Seq::<Seq<char>>::empty().push(u.text) =~= seq![u.text]);
        },
        None => {},
    }
}

/// A text that a pattern of the block list or a `SkipURL` rule of a lens matches
/// is never among the URLs that are kept, whatever else there is in the lenses
/// and the settings.
pub proof fn law_ruled_out_urls_stay_out(
    urls: Seq<Seq<char>>,
    lenses: Seq<LensConfig>,
    block_list: Seq<String>,
    external: bool,
    force: bool,
    text: Seq<char>,
)
    requires
        ruled_out(lenses, block_list, text),
    ensures
        !admitted_urls(urls, all_rules(lenses, block_list), external, force).contains(text),
    decreases urls.len(),
{
    if urls.len() > 0 {
        let rules = all_rules(lenses, block_list);
        let init = urls.drop_last();
        let last = seq![urls.last()];
        assert(urls =~= init + last);
        law_filter_distributes(init, last, rules, external, force);
        law_ruled_out_urls_stay_out(init, lenses, block_list, external, force, text);
        law_kept_iff_it_may_be_crawled(urls.last(), lenses, block_list, external, force);
        lemma_concat_contains(
            admitted_urls(init, rules, external, force),
            admitted_urls(last, rules, external, force),
            text,
        );
    }
}

/// A text is among the URLs that are kept if and only if it is the normal form of
/// one of the given URLs that may be crawled.
pub proof fn law_filtered_urls_may_be_crawled(
    urls: Seq<Seq<char>>,
    lenses: Seq<LensConfig>,
    block_list: Seq<String>,
    external: bool,
    force: bool,
    text: Seq<char>,
)
    ensures
        admitted_urls(urls, all_rules(lenses, block_list), external, force).contains(text)
            <==> exists|i: int|
            0 <= i < urls.len() && (#[trigger] parsed_url(urls[i]) matches Some(u) && u.text == text
                && may_crawl(u, lenses, block_list, external, force)),
    decreases urls.len(),
{
    if urls.len() > 0 {
        let rules = all_rules(lenses, block_list);
        let init = urls.drop_last();
        let last = seq![urls.last()];
        let n = urls.len() - 1;
        assert(urls =~= init + last);
        law_filter_distributes(init, last, rules, external, force);
        law_filtered_urls_may_be_crawled(init, lenses, block_list, external, force, text);
        law_kept_iff_it_may_be_crawled(urls.last(), lenses, block_list, external, force);
        lemma_concat_contains(
            admitted_urls(init, rules, external, force),
            admitted_urls(last, rules, external, force),
            text,
        );
        assert(forall|i: int| 0 <= i < n ==> init[i] == urls[i]);
        assert(urls[n] == urls.last());
        match parsed_url(urls[n]) {
            Some(u) => {
                assert(seq![u.text].contains(text) <==> u.text == text) by {
                    assert(seq![u.text][0] == u.text);
                }
            },
            None => {},
        }
        if exists|i: int|
            0 <= i < init.len() && (#[trigger] parsed_url(init[i]) matches Some(u) && u.text == text
                && may_crawl(u, lenses, block_list, external, force)) {
            let i = choose|i: int|
                0 <= i < init.len() && (#[trigger] parsed_url(init[i]) matches Some(u) && u.text
                    == text && may_crawl(u, lenses, block_list, external, force));
            assert(parsed_url(urls[i]) is Some);
        }
    }
}

/// The patterns are gathered in the order of the lenses, and within a lens in the
/// order in which it lists them, with the block list before all that skip.
pub proof fn law_rules_are_gathered_in_order(
    a: Seq<LensConfig>,
    b: Seq<LensConfig>,
    lens: LensConfig,
    block_list: Seq<String>,
)
    ensures
        all_rules(a + b, block_list).allow == all_rules(a, block_list).allow + all_rules(
            b,
            Seq::empty(),
        ).allow,
        all_rules(a + b, block_list).skip == all_rules(a, block_list).skip + all_rules(
            b,
            Seq::empty(),
        ).skip,
        all_rules(a + b, block_list).restrict == all_rules(a, block_list).restrict + all_rules(
            b,
            Seq::empty(),
        ).restrict,
        all_rules(Seq::empty(), block_list).skip == texts(block_list),
        all_rules(seq![lens], Seq::empty()).allow == texts(lens.domains@) + texts(lens.urls@),
    decreases b.len(),
{
    assert(texts(Seq::empty()) =~= Seq::empty());
    let one = seq![lens];
    assert(one.drop_last() =~= Seq::empty());
    assert(one.last() == lens);
    assert(lens_allows(Seq::empty()) =~= Seq::empty());
    assert(lens_allows(one) == lens_allows(one.drop_last()) + lens.allows());
    assert(lens_allows(one) =~= texts(lens.domains@) + texts(lens.urls@));
    assert(all_rules(Seq::empty(), block_list).skip =~= texts(block_list));
    if b.len() == 0 {
        assert(a + b =~= a);
        assert(lens_allows(a) + lens_allows(b) =~= lens_allows(a));
        assert(all_rules(a, block_list).skip + all_rules(b, Seq::empty()).skip =~= all_rules(
            a,
            block_list,
        ).skip);
        assert(lens_restricts(a) + lens_restricts(b) =~= lens_restricts(a));
    } else {
        let init = b.drop_last();
        law_rules_are_gathered_in_order(a, init, lens, block_list);
        assert((a + b).drop_last() =~= a + init);
        assert((a + b).last() == b.last());
        assert(all_rules(a + b, block_list).allow =~= all_rules(a, block_list).allow + all_rules(
            b,
            Seq::empty(),
        ).allow);
        assert(all_rules(b, Seq::empty()).skip =~= lens_skips(b));
        assert(all_rules(init, Seq::empty()).skip =~= lens_skips(init));
        assert(lens_skips(b) == lens_skips(init) + b.last().skips());
        assert(lens_skips(a + b) == lens_skips(a + init) + b.last().skips());
        assert(texts(block_list) + lens_skips(a + b) =~= (texts(block_list) + lens_skips(a + init))
            + b.last().skips());
        assert(all_rules(a + b, block_list).skip =~= all_rules(a, block_list).skip + all_rules(
            b,
            Seq::empty(),
        ).skip);
        assert(all_rules(a + b, block_list).restrict =~= all_rules(a, block_list).restrict
            + all_rules(b, Seq::empty()).restrict);
    }
}

} // verus!
