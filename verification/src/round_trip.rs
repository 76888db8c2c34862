//! What the list codec gives back of what it was given: a list that is
//! written and then read is the same list, where the texts of its items
//! stay clear of the two characters that the reader gives a meaning to.

use crate::list::{bool_list_digits, bool_list_value, bool_list_words, list_text, list_value};
use crate::scalar::{
    bool_digit, bool_value, bool_word, lemma_bool_digit_reads_back, lemma_bool_word_reads_back,
    reads_back, TextConvertible,
};
use crate::tokens::{is_plain, lemma_tokens_of_joined, splits_back};
use vstd::prelude::*;

verus! {

/// A list that is written and then read is the same list, where each item
/// is read back from its own text and the texts of the items split back.
pub proof fn lemma_list_reads_back<T: TextConvertible>(items: Seq<T::V>)
    requires
        forall|i: int| 0 <= i < items.len() ==> reads_back::<T>(#[trigger] items[i]),
        splits_back(items.map_values(|v: T::V| T::formatted(v))),
    ensures
        list_value::<T>(list_text::<T>(items)) == Some(items),
{
    let texts = items.map_values(|v: T::V| T::formatted(v));
    let value = |t: Seq<char>| T::parsed(t);
    lemma_tokens_of_joined(texts);
    assert forall|i: int| 0 <= i < texts.len() implies value(#[trigger] texts[i]) == Some(
        items[i],
    ) by {
        assert(reads_back::<T>(items[i]));
    }
    assert(texts.map_values(|t: Seq<char>| value(t)->0) =~= items);
}

/// A list of booleans that is written in words and then read is the same list.
pub proof fn lemma_bool_words_read_back(items: Seq<bool>)
    ensures
        bool_list_value(bool_list_words(items)) == Some(items),
{
    let texts = items.map_values(|b: bool| bool_word(b));
    let value = |t: Seq<char>| bool_value(t);
    reveal_strlit("true");
    reveal_strlit("false");
    assert forall|i: int| 0 <= i < texts.len() implies {
        &&& is_plain(#[trigger] texts[i])
        &&& texts[i].len() > 0
        &&& value(texts[i]) == Some(items[i])
    } by {
        lemma_bool_word_reads_back(items[i]);
    }
    lemma_tokens_of_joined(texts);
    assert(texts.map_values(|t: Seq<char>| value(t)->0) =~= items);
}

/// A list of booleans that is written in digits and then read is the same list.
pub proof fn lemma_bool_digits_read_back(items: Seq<bool>)
    ensures
        bool_list_value(bool_list_digits(items)) == Some(items),
{
    let texts = items.map_values(|b: bool| bool_digit(b));
    let value = |t: Seq<char>| bool_value(t);
    reveal_strlit("1");
    reveal_strlit("0");
    assert forall|i: int| 0 <= i < texts.len() implies {
        &&& is_plain(#[trigger] texts[i])
        &&& texts[i].len() > 0
        &&& value(texts[i]) == Some(items[i])
    } by {
        lemma_bool_digit_reads_back(items[i]);
    }
    lemma_tokens_of_joined(texts);
    assert(texts.map_values(|t: Seq<char>| value(t)->0) =~= items);
}

} // verus!
