//! Token text: the generated code is a sequence of words, each the text of one
//! or more tokens, written out with single spaces between them.

use vstd::prelude::*;
use vstd::string::StringExecFns;

verus! {

/// The words written one after another, with one space between neighbours.
pub open spec fn joined(words: Seq<Seq<char>>) -> Seq<char>
    decreases words.len(),
{
    if words.len() == 0 {
        Seq::empty()
    } else if words.len() == 1 {
        words[0]
    } else {
        joined(words.drop_last()) + seq![' '] + words.last()
    }
}

/// The view of a vector after a push is the view before it with the view of
/// the pushed item at its end.
pub proof fn lemma_deep_view_push<T: DeepView>(before: Vec<T>, item: T, after: Vec<T>)
    requires
        after@ == before@.push(item),
    ensures
        after.deep_view() == before.deep_view().push(item.deep_view()),
{
}

/// Appends one word.
pub fn push_word(words: &mut Vec<String>, word: &str)
    ensures
        final(words).deep_view() == old(words).deep_view().push(word@),
{
    words.push(String::from_str(word));
}

/// Appends the words of `more`, in order.
pub fn append_words(words: &mut Vec<String>, more: &Vec<String>)
    ensures
        final(words).deep_view() == old(words).deep_view() + more.deep_view(),
{
    let mut i: usize = 0;
    while i < more.len()
        invariant
            i <= more.len(),
            words.deep_view() == old(words).deep_view() + more.deep_view().take(i as int),
        decreases more.len() - i,
    {
        push_word(words, more[i].as_str());
        i += 1;
    }
}

/// Writes the words out as one text.
pub fn join(words: &Vec<String>) -> (text: String)
    ensures
        text@ == joined(words.deep_view()),
{
    let mut text = String::new();
    let mut i: usize = 0;
    while i < words.len()
        invariant
            i <= words.len(),
            text@ == joined(words.deep_view().take(i as int)),
        decreases words.len() - i,
    {
        let ghost prefix = words.deep_view().take(i + 1);
        assert(prefix.drop_last() =~= words.deep_view().take(i as int));
        if i > 0 {
            proof {
                reveal_strlit(" ");
            }
            text.append(" ");
        }
        text.append(words[i].as_str());
        i += 1;
    }
    assert(words.deep_view().take(i as int) =~= words.deep_view());
    text
}

/// The groups written one after another, with the words of `separator`
/// between neighbours.
pub open spec fn interleaved(groups: Seq<Seq<Seq<char>>>, separator: Seq<Seq<char>>) -> Seq<
    Seq<char>,
>
    decreases groups.len(),
{
    if groups.len() == 0 {
        Seq::empty()
    } else if groups.len() == 1 {
        groups[0]
    } else {
        interleaved(groups.drop_last(), separator) + separator + groups.last()
    }
}

/// A copy of the words.
pub fn copy_words(words: &Vec<String>) -> (copy: Vec<String>)
    ensures
        copy.deep_view() == words.deep_view(),
{
    let mut copy: Vec<String> = Vec::new();
    append_words(&mut copy, words);
    copy
}

/// Appends a group of words to a list of groups.
pub fn push_group(groups: &mut Vec<Vec<String>>, group: Vec<String>)
    ensures
        final(groups).deep_view() == old(groups).deep_view().push(group.deep_view()),
{
    groups.push(group);
}

/// Appends the groups in order, with the separator between neighbours.
pub fn append_interleaved(
    words: &mut Vec<String>,
    groups: &Vec<Vec<String>>,
    separator: &Vec<String>,
)
    ensures
        final(words).deep_view() == old(words).deep_view() + interleaved(
            groups.deep_view(),
            separator.deep_view(),
        ),
{
    let mut i: usize = 0;
    while i < groups.len()
        invariant
            i <= groups.len(),
            words.deep_view() == old(words).deep_view() + interleaved(
                groups.deep_view().take(i as int),
                separator.deep_view(),
            ),
        decreases groups.len() - i,
    {
        let ghost before = groups.deep_view().take(i as int);
        let ghost after = groups.deep_view().take(i + 1);
        assert(after.drop_last() =~= before);
        if i > 0 {
            append_words(words, separator);
        }
        append_words(words, &groups[i]);
        i += 1;
    }
    assert(groups.deep_view().take(i as int) =~= groups.deep_view());
}

} // verus!
