//! The grammar of a delimited text: tokens, separated by a delimiter, with
//! an escape character that makes the character behind it part of a token.

use vstd::prelude::*;

verus! {

/// The character that separates two tokens.
pub const DELIMITER: char = ',';

/// The character that makes the one after it part of the token.
pub const ESCAPE: char = '\\';

/// The first token of `s`: the text before the first delimiter that no
/// escape character protects, with every escape character taken out and the
/// character behind it kept. An escape character at the very end stands for
/// nothing.
pub open spec fn first_token(s: Seq<char>) -> Seq<char>
    decreases s.len(),
{
    if s.len() == 0 || s[0] == DELIMITER {
        Seq::empty()
    } else if s[0] == ESCAPE {
        if s.len() == 1 {
            Seq::empty()
        } else {
            seq![s[1]] + first_token(s.skip(2))
        }
    } else {
        seq![s[0]] + first_token(s.skip(1))
    }
}

/// What is left of `s` behind its first token and the delimiter that ends it.
pub open spec fn after_first_token(s: Seq<char>) -> Seq<char>
    decreases s.len(),
{
    if s.len() == 0 {
        s
    } else if s[0] == DELIMITER {
        s.skip(1)
    } else if s[0] == ESCAPE {
        if s.len() == 1 {
            Seq::empty()
        } else {
            after_first_token(s.skip(2))
        }
    } else {
        after_first_token(s.skip(1))
    }
}

/// Taking the first token off a text never makes it longer, and makes it
/// shorter unless it is empty.
pub proof fn lemma_after_first_token_shorter(s: Seq<char>)
    ensures
        after_first_token(s).len() <= s.len(),
        s.len() > 0 ==> after_first_token(s).len() < s.len(),
    decreases s.len(),
{
    if s.len() == 0 || s[0] == DELIMITER {
    } else if s[0] == ESCAPE {
        if s.len() > 1 {
            lemma_after_first_token_shorter(s.skip(2));
        }
    } else {
        lemma_after_first_token_shorter(s.skip(1));
    }
}

/// The tokens of a delimited text, in their order. The empty text has no
/// token; any other text has its first token, followed by the tokens of what
/// is left behind it. A delimiter at the very end therefore closes the last
/// token and opens no further, empty one.
pub open spec fn tokens(s: Seq<char>) -> Seq<Seq<char>>
    decreases s.len(),
    via tokens_decreases
{
    if s.len() == 0 {
        Seq::empty()
    } else {
        seq![first_token(s)] + tokens(after_first_token(s))
    }
}

#[via_fn]
proof fn tokens_decreases(s: Seq<char>) {
    lemma_after_first_token_shorter(s);
}

/// The texts joined into one, with a delimiter between each two neighbours.
/// Nothing is escaped: a delimiter or an escape character inside a text goes
/// into the result as it is.
pub open spec fn joined(texts: Seq<Seq<char>>) -> Seq<char>
    decreases texts.len(),
{
    if texts.len() == 0 {
        Seq::empty()
    } else if texts.len() == 1 {
        texts[0]
    } else {
        texts[0] + seq![DELIMITER] + joined(texts.drop_first())
    }
}

/// Joining one more text to the end: after a delimiter, unless it is the first.
pub proof fn lemma_joined_push(texts: Seq<Seq<char>>, last: Seq<char>)
    ensures
        joined(texts.push(last)) == if texts.len() == 0 {
            last
        } else {
            joined(texts) + seq![DELIMITER] + last
        },
    decreases texts.len(),
{
    let all = texts.push(last);
    if texts.len() == 0 {
    } else {
        assert(all.drop_first() =~= texts.drop_first().push(last));
        lemma_joined_push(texts.drop_first(), last);
        assert(joined(all) =~= joined(texts) + seq![DELIMITER] + last);
    }
}

/// Whether `text` holds neither the delimiter nor the escape character.
pub open spec fn is_plain(text: Seq<char>) -> bool {
    forall|i: int| 0 <= i < text.len() ==> #[trigger] text[i] != DELIMITER && text[i] != ESCAPE
}

/// Whether `text` is free of the character `c`.
pub open spec fn is_free_of(text: Seq<char>, c: char) -> bool {
    forall|i: int| 0 <= i < text.len() ==> #[trigger] text[i] != c
}

/// In a text without escape characters the first token holds no delimiter,
/// and what is left behind it is again without escape characters.
pub proof fn lemma_first_token_without_escape(s: Seq<char>)
    requires
        is_free_of(s, ESCAPE),
    ensures
        is_free_of(first_token(s), DELIMITER),
        is_free_of(after_first_token(s), ESCAPE),
    decreases s.len(),
{
    if s.len() == 0 {
    } else {
        let rest = s.skip(1);
        assert forall|i: int| 0 <= i < rest.len() implies #[trigger] rest[i] != ESCAPE by {
            assert(rest[i] == s[i + 1]);
        }
        if s[0] != DELIMITER {
            lemma_first_token_without_escape(rest);
        }
    }
}

/// A delimiter gets into a token only behind an escape character: the
/// tokens of a text that holds no escape character hold no delimiter.
pub proof fn lemma_tokens_without_escape(s: Seq<char>)
    requires
        is_free_of(s, ESCAPE),
    ensures
        forall|k: int| 0 <= k < tokens(s).len() ==> is_free_of(#[trigger] tokens(s)[k], DELIMITER),
    decreases s.len(),
{
    if s.len() > 0 {
        lemma_first_token_without_escape(s);
        lemma_after_first_token_shorter(s);
        let others = tokens(after_first_token(s));
        lemma_tokens_without_escape(after_first_token(s));
        assert forall|k: int| 0 <= k < tokens(s).len() implies is_free_of(
            #[trigger] tokens(s)[k],
            DELIMITER,
        ) by {
            if k > 0 {
                assert(tokens(s)[k] == others[k - 1]);
            }
        }
    }
}

/// Whether a list of texts can be joined and split again: each text is
/// plain, and the last one is not empty. (With an empty last text the joined
/// text is empty or ends in a delimiter, and its tokens are one less than
/// the texts.)
pub open spec fn splits_back(texts: Seq<Seq<char>>) -> bool {
    &&& forall|i: int| 0 <= i < texts.len() ==> is_plain(#[trigger] texts[i])
    &&& texts.len() > 0 ==> texts.last().len() > 0
}

/// A plain text at the head of the input, with the end of the input or a
/// delimiter behind it, is the first token, and what follows the delimiter
/// is left.
pub proof fn lemma_plain_first_token(text: Seq<char>, tail: Seq<char>)
    requires
        is_plain(text),
        tail.len() == 0 || tail[0] == DELIMITER,
    ensures
        first_token(text + tail) == text,
        after_first_token(text + tail) == if tail.len() == 0 {
            tail
        } else {
            tail.drop_first()
        },
    decreases text.len(),
{
    let s = text + tail;
    if text.len() == 0 {
        assert(s =~= tail);
        if tail.len() > 0 {
            assert(tail.skip(1) =~= tail.drop_first());
        }
    } else {
        assert(s[0] == text[0]);
        assert(s.skip(1) =~= text.skip(1) + tail);
        assert forall|i: int| 0 <= i < text.skip(1).len() implies #[trigger] text.skip(1)[i]
            != DELIMITER && text.skip(1)[i] != ESCAPE by {
            assert(text.skip(1)[i] == text[i + 1]);
        }
        lemma_plain_first_token(text.skip(1), tail);
        assert(seq![text[0]] + text.skip(1) =~= text);
    }
}

/// The tokens of joined texts are the texts, where these split back.
pub proof fn lemma_tokens_of_joined(texts: Seq<Seq<char>>)
    requires
        splits_back(texts),
    ensures
        tokens(joined(texts)) == texts,
    decreases texts.len(),
{
    if texts.len() == 0 {
    } else if texts.len() == 1 {
        let only = texts[0];
        lemma_plain_first_token(only, Seq::empty());
        assert(only + Seq::<char>::empty() =~= only);
        assert(tokens(after_first_token(only)) =~= Seq::<Seq<char>>::empty());
        assert(tokens(only) =~= texts);
    } else {
        let head = texts[0];
        let others = texts.drop_first();
        assert(others.last() == texts.last());
        assert forall|i: int| 0 <= i < others.len() implies is_plain(#[trigger] others[i]) by {
            assert(others[i] == texts[i + 1]);
        }
        lemma_tokens_of_joined(others);
        let tail = seq![DELIMITER] + joined(others);
        assert(joined(texts) =~= head + tail);
        lemma_plain_first_token(head, tail);
        assert(tail.drop_first() =~= joined(others));
        assert(tokens(joined(texts)) =~= texts);
    }
}

} // verus!
