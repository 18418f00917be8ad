//! Lists of texts, and what contracts say of them.
use vstd::prelude::*;

verus! {

/// The contents of a list of strings.
pub open spec fn texts(list: Seq<String>) -> Seq<Seq<char>> {
    list.map_values(|s: String| s@)
}

/// Appending a string appends its contents.
pub proof fn lemma_texts_push(list: Seq<String>, last: String)
    ensures
        texts(list.push(last)) == texts(list).push(last@),
{
    assert(texts(list.push(last)) =~= texts(list).push(last@));
}

/// The contents of an optional string.
pub open spec fn opt_text(text: Option<String>) -> Option<Seq<char>> {
    match text {
        Some(s) => Some(s@),
        None => None,
    }
}

/// Whether a string and a literal hold the same text.
pub fn same_text(text: &String, literal: &str) -> (same: bool)
    ensures
        same == (text@ == literal@),
{
    *text == literal.to_owned()
}

/// A copy of an optional string.
pub fn clone_opt(text: &Option<String>) -> (copy: Option<String>)
    ensures
        opt_text(copy) == opt_text(*text),
{
    match text {
        Some(s) => Some(s.clone()),
        None => None,
    }
}

/// Appends copies of the strings of `more` to `list`.
pub fn extend_texts(list: &mut Vec<String>, more: &Vec<String>)
    ensures
        texts(final(list)@) == texts(old(list)@) + texts(more@),
{
    let ghost start = texts(list@);
    for i in 0..more.len()
        invariant
            texts(list@) == start + texts(more@.take(i as int)),
    {
        let ghost before = list@;
        list.push(more[i].clone());
        proof {
            lemma_texts_push(before, more[i as int]);
            lemma_texts_push(more@.take(i as int), more[i as int]);
            assert(more@.take(i + 1) =~= more@.take(i as int).push(more[i as int]));
        }
    }
    assert(more@.take(more.len() as int) =~= more@);
}

/// Whether `part` stands in `text` at position `at`.
pub open spec fn stands_at(text: Seq<char>, part: Seq<char>, at: int) -> bool {
    0 <= at && at + part.len() <= text.len() && text.subrange(at, at + part.len()) == part
}

/// Whether `part` stands somewhere in `text`.
pub fn contains_text(text: &str, part: &str) -> (found: bool)
    ensures
        found == (exists|at: int| stands_at(text@, part@, at)),
{
    let text_len = text.unicode_len();
    let part_len = part.unicode_len();
    if part_len == 0 {
        assert(text@.subrange(0, 0) =~= part@);
        assert(stands_at(text@, part@, 0));
        return true;
    }
    if part_len > text_len {
        return false;
    }
    for at in 0..text_len - part_len + 1
        invariant
            text_len == text@.len(),
            part_len == part@.len(),
            part_len <= text_len,
            forall|before: int| 0 <= before < at ==> !stands_at(text@, part@, before),
    {
        let mut matched: usize = 0;
        while matched < part_len && text.get_char(at + matched) == part.get_char(matched)
            invariant
                text_len == text@.len(),
                part_len == part@.len(),
                matched <= part_len,
                at + part_len <= text_len,
                forall|i: int| 0 <= i < matched ==> text@[at + i] == part@[i],
            decreases part_len - matched,
        {
            matched += 1;
        }
        if matched == part_len {
            assert(text@.subrange(at as int, at + part@.len()) =~= part@);
            assert(stands_at(text@, part@, at as int));
            return true;
        }
        assert(!stands_at(text@, part@, at as int)) by {
            if stands_at(text@, part@, at as int) {
                assert(text@.subrange(at as int, at + part@.len())[matched as int]
                    == part@[matched as int]);
            }
        }
    }
    false
}

/// A text stands at a position if and only if its characters do, one after the
/// other.
pub proof fn law_stands_at_by_characters(text: Seq<char>, part: Seq<char>, at: int)
    ensures
        stands_at(text, part, at) <==> {
            &&& 0 <= at && at + part.len() <= text.len()
            &&& forall|i: int| 0 <= i < part.len() ==> #[trigger] part[i] == text[at + i]
        },
{
    if 0 <= at && at + part.len() <= text.len() {
        let there = text.subrange(at, at + part.len());
        if forall|i: int| 0 <= i < part.len() ==> #[trigger] part[i] == text[at + i] {
            assert(there =~= part);
        }
        if there == part {
            assert forall|i: int| 0 <= i < part.len() implies #[trigger] part[i] == text[at + i] by {
                assert(there[i] == text[at + i]);
            }
        }
    }
}

} // verus!
