//! Lists of distinct strings, as tags are kept, and what vstd does not yet say
//! of strings.

use vstd::prelude::*;

verus! {

/// `String::push` appends one character, as std documents.
pub assume_specification[ std::string::String::push ](text: &mut std::string::String, c: char)
    ensures
        final(text)@ == old(text)@.push(c),
;

/// The texts of a list of strings, in the order of the list.
pub open spec fn texts(list: Seq<String>) -> Seq<Seq<char>> {
    list.map_values(|s: String| s@)
}

/// `list` with `text` at its end, unless `list` holds `text` already.
pub open spec fn with_text(list: Seq<Seq<char>>, text: Seq<char>) -> Seq<Seq<char>> {
    if list.contains(text) {
        list
    } else {
        list.push(text)
    }
}

/// `list` without any occurrence of `text`, the rest in its order.
pub open spec fn without_text(list: Seq<Seq<char>>, text: Seq<char>) -> Seq<Seq<char>> {
    list.filter(|t: Seq<char>| t != text)
}

/// Whether `list` holds `text`.
pub fn contains_text(list: &Vec<String>, text: &str) -> (found: bool)
    ensures
        found == texts(list@).contains(text@),
{
    let wanted: String = text.to_owned();
    let mut i: usize = 0;
    while i < list.len()
        invariant
            i <= list@.len(),
            wanted@ == text@,
            forall|k: int| 0 <= k < i ==> texts(list@)[k] != text@,
        decreases list@.len() - i,
    {
        if list[i] == wanted {
            assert(texts(list@)[i as int] == text@);
            return true;
        }
        i += 1;
    }
    false
}

/// Appends `text` to `list` unless `list` holds it already, and says whether
/// it was appended.
pub fn insert_text(list: &mut Vec<String>, text: String) -> (added: bool)
    ensures
        texts(final(list)@) == with_text(texts(old(list)@), text@),
        added == !texts(old(list)@).contains(text@),
{
    if contains_text(list, text.as_str()) {
        false
    } else {
        list.push(text);
        assert(texts(list@) =~= texts(old(list)@).push(text@));
        true
    }
}

/// Removes every occurrence of `text` from `list`, keeping the order of the
/// rest, and says whether there was one.
pub fn remove_text(list: &mut Vec<String>, text: &str) -> (removed: bool)
    ensures
        texts(final(list)@) == without_text(texts(old(list)@), text@),
        removed == texts(old(list)@).contains(text@),
{
    let ghost before: Seq<Seq<char>> = texts(list@);
    let unwanted: String = text.to_owned();
    let mut kept: Vec<String> = Vec::new();
    let mut removed: bool = false;
    let mut i: usize = 0;
    assert(before.take(0) =~= Seq::<Seq<char>>::empty());
    assert(texts(kept@) =~= Seq::<Seq<char>>::empty());
    proof {
        reveal(Seq::filter);
    }
    while i < list.len()
        invariant
            i <= list@.len(),
            before == texts(list@),
            unwanted@ == text@,
            texts(kept@) == without_text(before.take(i as int), text@),
            removed == before.take(i as int).contains(text@),
        decreases list@.len() - i,
    {
        proof {
            before.lemma_take_succ_push(i as int);
            before.take(i as int).lemma_filter_push(before[i as int], |t: Seq<char>| t != text@);
            lemma_contains_push(before.take(i as int), before[i as int], text@);
        }
        if list[i] == unwanted {
            removed = true;
        } else {
            let copy: String = list[i].clone();
            kept.push(copy);
            assert(texts(kept@) =~= texts(kept@.drop_last()).push(before[i as int]));
        }
        i += 1;
    }
    assert(before.take(i as int) =~= before);
    *list = kept;
    removed
}

/// A list with one more element holds what it held before, and that element.
pub proof fn lemma_contains_push<A>(list: Seq<A>, last: A, needle: A)
    ensures
        list.push(last).contains(needle) <==> list.contains(needle) || last == needle,
{
    if list.contains(needle) {
        let k = choose|k: int| 0 <= k < list.len() && list[k] == needle;
        assert(list.push(last)[k] == needle);
    }
    if last == needle {
        assert(list.push(last)[list.len() as int] == needle);
    }
}

/// What `with_text` and `without_text` keep and change.
pub proof fn lemma_text_list(list: Seq<Seq<char>>, text: Seq<char>)
    ensures
        with_text(list, text).contains(text),
        with_text(with_text(list, text), text) == with_text(list, text),
        list.no_duplicates() ==> with_text(list, text).no_duplicates(),
        !without_text(list, text).contains(text),
        list.no_duplicates() ==> without_text(list, text).no_duplicates(),
        forall|other: Seq<char>|
            other != text ==> (#[trigger] with_text(list, text).contains(other) <==> list.contains(
                other,
            )),
        forall|other: Seq<char>|
            other != text ==> (#[trigger] without_text(list, text).contains(other)
                <==> list.contains(other)),
        !list.contains(text) ==> without_text(list, text) == list,
{
    lemma_contains_push(list, text, text);
    assert forall|other: Seq<char>| other != text implies (#[trigger] with_text(
        list,
        text,
    ).contains(other) <==> list.contains(other)) by {
        lemma_contains_push(list, text, other);
    }
    lemma_without_text(list, text);
}

/// `without_text` as a whole: which texts stay, that none occurs more often
/// than before, and that a list without `text` stays as it is.
proof fn lemma_without_text(list: Seq<Seq<char>>, text: Seq<char>)
    ensures
        !without_text(list, text).contains(text),
        list.no_duplicates() ==> without_text(list, text).no_duplicates(),
        forall|other: Seq<char>|
            other != text ==> (#[trigger] without_text(list, text).contains(other)
                <==> list.contains(other)),
        !list.contains(text) ==> without_text(list, text) == list,
    decreases list.len(),
{
    reveal(Seq::filter);
    let keep = |t: Seq<char>| t != text;
    if list.len() == 0 {
    } else {
        let front = list.drop_last();
        let last = list.last();
        lemma_without_text(front, text);
        assert(list =~= front.push(last));
        front.lemma_filter_push(last, keep);
        lemma_contains_push(without_text(front, text), last, text);
        assert forall|other: Seq<char>| other != text implies (#[trigger] without_text(
            list,
            text,
        ).contains(other) <==> list.contains(other)) by {
            lemma_contains_push(front, last, other);
            lemma_contains_push(without_text(front, text), last, other);
        }
        if list.no_duplicates() {
            assert(front.no_duplicates());
            if last != text {
                assert(!front.contains(last)) by {
                    if front.contains(last) {
                        let k = choose|k: int| 0 <= k < front.len() && front[k] == last;
                        assert(list[k] == list[list.len() - 1]);
                    }
                }
                assert(!without_text(front, text).contains(last));
            }
        }
        if !list.contains(text) {
            lemma_contains_push(front, last, text);
        }
    }
}

} // verus!
