//! The list codec: a delimited text on one side, an ordered sequence of
//! values on the other.

use crate::scalar::{
    bool_digit, bool_value, bool_word, conversion_message, format_bool, format_bool_as_int, parse,
    parse_bool, ConversionError, TextConvertible,
};
use crate::strings::{advanced, pending};
use crate::tokens::{
    after_first_token, first_token, joined, lemma_after_first_token_shorter, lemma_joined_push,
    tokens, DELIMITER, ESCAPE,
};
use vstd::prelude::*;
use vstd::std_specs::iter::IteratorSpec;

verus! {

broadcast use vstd::string::group_string_axioms;

/// An element parser `f` may turn the token `token` into `value`.
pub open spec fn accepts<T, F: Fn(&str) -> Result<T, String>>(
    f: F,
    token: Seq<char>,
    value: T,
) -> bool {
    exists|t: &str| t@ == token && call_ensures(f, (t,), Ok::<T, String>(value))
}

/// An element parser `f` may turn the token `token` into some value.
pub open spec fn accepts_some<T, F: Fn(&str) -> Result<T, String>>(f: F, token: Seq<char>) -> bool {
    exists|value: T| accepts(f, token, value)
}

/// An element parser `f` may refuse the token `token` with `error`.
pub open spec fn rejects<T, F: Fn(&str) -> Result<T, String>>(
    f: F,
    token: Seq<char>,
    error: String,
) -> bool {
    exists|t: &str| t@ == token && call_ensures(f, (t,), Err::<T, String>(error))
}

/// Splits `s` into its tokens and hands each to `f`, in order. The values
/// that `f` makes of them are returned in the same order; the first token
/// that `f` refuses ends the scan with the error that `f` gave for it.
pub fn parse_list_with<T, F>(s: &str, f: F) -> (r: Result<Vec<T>, String>) where
    F: Fn(&str) -> Result<T, String>,

    requires
        forall|t: &str| call_requires(f, (t,)),
    ensures
        s@.len() == 0 ==> r is Ok && r->Ok_0.len() == 0,
        match r {
            Ok(v) => {
                &&& v.len() == tokens(s@).len()
                &&& forall|i: int| 0 <= i < v.len() ==> accepts(f, #[trigger] tokens(s@)[i], v[i])
            },
            Err(e) => exists|i: int|
                {
                    &&& 0 <= i < tokens(s@).len()
                    &&& rejects::<T, F>(f, #[trigger] tokens(s@)[i], e)
                    &&& forall|j: int| 0 <= j < i ==> accepts_some(f, #[trigger] tokens(s@)[j])
                },
        },
{
    let mut result: Vec<T> = Vec::new();
    if s.is_empty() {
        return Ok(result);
    }
    let mut chars = s.chars();
    let mut current = chars.next();
    let ghost mut rest: Seq<char> = s@.drop_first();
    let ghost mut done: Seq<Seq<char>> = Seq::empty();
    proof {
        assert(pending(current, rest) == s@);
    }
    while current.is_some()
        invariant
            chars.remaining() == rest,
            current is None ==> rest.len() == 0,
            tokens(s@) == done + tokens(pending(current, rest)),
            result.len() == done.len(),
            forall|i: int| 0 <= i < done.len() ==> accepts(f, #[trigger] done[i], result[i]),
            forall|t: &str| call_requires(f, (t,)),
        decreases pending(current, rest).len(),
    {
        let ghost start = pending(current, rest);
        let mut token = String::new();
        loop
            invariant
                chars.remaining() == rest,
                current is None ==> rest.len() == 0,
                token@ + first_token(pending(current, rest)) == first_token(start),
                after_first_token(pending(current, rest)) == after_first_token(start),
            ensures
                token@ == first_token(start),
                match current {
                    Some(c) => c == DELIMITER && rest == after_first_token(start),
                    None => after_first_token(start).len() == 0,
                },
            decreases pending(current, rest).len(),
        {
            let ghost before = pending(current, rest);
            match current {
                None => {
                    break ;
                },
                Some(value) => {
                    if value == DELIMITER {
                        assert(before.skip(1) == rest);
                        break ;
                    }
                    if value == ESCAPE {
                        current = chars.next();
                        proof {
                            rest = advanced(rest);
                        }
                    }
                    match current {
                        Some(kept) => {
                            token.push(kept);
                        },
                        None => {},
                    }
                    current = chars.next();
                    proof {
                        rest = advanced(rest);
                        if value == ESCAPE {
                            if before.len() > 1 {
                                assert(before.skip(2) == pending(current, rest));
                            }
                        } else {
                            assert(before.skip(1) == pending(current, rest));
                        }
                    }
                },
            }
        }
        let text = token.as_str();
        match f(text) {
            Ok(value) => {
                result.push(value);
            },
            Err(error) => {
                proof {
                    let i = done.len() as int;
                    assert(tokens(s@)[i] == token@);
                    assert(text@ == token@ && call_ensures(f, (text,), Err::<T, String>(error)));
                    assert(rejects::<T, F>(f, tokens(s@)[i], error));
                    assert forall|j: int| 0 <= j < i implies accepts_some(
                        f,
                        #[trigger] tokens(s@)[j],
                    ) by {
                        assert(tokens(s@)[j] == done[j]);
                        assert(accepts(f, done[j], result[j]));
                    }
                }
                return Err(error);
            },
        }
        current = chars.next();
        proof {
            lemma_after_first_token_shorter(start);
            rest = advanced(rest);
            assert(pending(current, rest) == after_first_token(start));
            done = done.push(token@);
        }
    }
    proof {
        assert(tokens(s@) == done);
    }
    Ok(result)
}

/// The values that `texts` denote under `value`, in their order, where each
/// of them denotes one.
pub open spec fn values_of<V>(
    texts: Seq<Seq<char>>,
    value: spec_fn(Seq<char>) -> Option<V>,
) -> Option<Seq<V>> {
    if forall|i: int| 0 <= i < texts.len() ==> (#[trigger] value(texts[i])) is Some {
        Some(texts.map_values(|t: Seq<char>| value(t)->0))
    } else {
        None
    }
}

/// `at` is the place of the first of `texts` that denotes nothing under `value`.
pub open spec fn first_without_value<V>(
    texts: Seq<Seq<char>>,
    value: spec_fn(Seq<char>) -> Option<V>,
    at: int,
) -> bool {
    &&& 0 <= at < texts.len()
    &&& value(texts[at]) is None
    &&& forall|j: int| 0 <= j < at ==> (#[trigger] value(texts[j])) is Some
}

/// The views of the items, one for one.
pub open spec fn views<T: View>(items: Seq<T>) -> Seq<T::V> {
    items.map_values(|x: T| x@)
}

/// The list of `T` that a delimited text denotes: the values of its tokens,
/// where each token is a `T`.
pub open spec fn list_value<T: TextConvertible>(s: Seq<char>) -> Option<Seq<T::V>> {
    values_of(tokens(s), |t: Seq<char>| T::parsed(t))
}

/// The list of booleans that a delimited text denotes: the values of its
/// tokens, where each token is one of the four boolean literals.
pub open spec fn bool_list_value(s: Seq<char>) -> Option<Seq<bool>> {
    values_of(tokens(s), |t: Seq<char>| bool_value(t))
}

/// Reads a list of `T` from a delimited text: each token by the grammar of
/// `T`. The first token that is no `T` fails the whole list.
pub fn parse_list<T: TextConvertible>(s: &str) -> (r: Result<Vec<T>, ConversionError>)
    ensures
        s@.len() == 0 ==> r is Ok && r->Ok_0.len() == 0,
        match r {
            Ok(v) => list_value::<T>(s@) == Some(views(v@)),
            Err(e) => list_value::<T>(s@) is None && exists|i: int|
                {
                    &&& first_without_value(tokens(s@), |t: Seq<char>| T::parsed(t), i)
                    &&& e@ == conversion_message(tokens(s@)[i], T::type_label())
                },
        },
{
    let r = parse_list_with(s, parse::<T>);
    proof {
        let texts = tokens(s@);
        let value = |t: Seq<char>| T::parsed(t);
        if r is Ok {
            let v = r->Ok_0;
            assert forall|i: int| 0 <= i < texts.len() implies (#[trigger] value(texts[i]))
                == Some(v[i]@) by {
                assert(accepts(parse::<T>, texts[i], v[i]));
            }
            assert(texts.map_values(|t: Seq<char>| value(t)->0) =~= v@.map_values(|x: T| x@));
        } else {
            let e = r->Err_0;
            let i = choose|i: int|
                {
                    &&& 0 <= i < texts.len()
                    &&& rejects::<T, _>(parse::<T>, #[trigger] texts[i], e)
                    &&& forall|j: int| 0 <= j < i ==> accepts_some(parse::<T>, #[trigger] texts[j])
                };
            assert forall|j: int| 0 <= j < i implies (#[trigger] value(texts[j])) is Some by {
                assert(accepts_some(parse::<T>, texts[j]));
            }
            assert(first_without_value(texts, value, i));
        }
    }
    r
}

/// Reads a list of booleans from a delimited text: each token is one of the
/// four boolean literals. The first token that is none of them fails the
/// whole list.
pub fn parse_bool_list(s: &str) -> (r: Result<Vec<bool>, ConversionError>)
    ensures
        s@.len() == 0 ==> r is Ok && r->Ok_0.len() == 0,
        match r {
            Ok(v) => bool_list_value(s@) == Some(v@),
            Err(e) => bool_list_value(s@) is None && exists|i: int|
                {
                    &&& first_without_value(tokens(s@), |t: Seq<char>| bool_value(t), i)
                    &&& e@ == conversion_message(tokens(s@)[i], "bool"@)
                },
        },
{
    let r = parse_list_with(s, parse_bool);
    proof {
        let texts = tokens(s@);
        let value = |t: Seq<char>| bool_value(t);
        if r is Ok {
            let v = r->Ok_0;
            assert forall|i: int| 0 <= i < texts.len() implies (#[trigger] value(texts[i]))
                == Some(v[i]) by {
                assert(accepts(parse_bool, texts[i], v[i]));
            }
            assert(texts.map_values(|t: Seq<char>| value(t)->0) =~= v@);
        } else {
            let e = r->Err_0;
            let i = choose|i: int|
                {
                    &&& 0 <= i < texts.len()
                    &&& rejects::<bool, _>(parse_bool, #[trigger] texts[i], e)
                    &&& forall|j: int| 0 <= j < i ==> accepts_some(parse_bool, #[trigger] texts[j])
                };
            assert forall|j: int| 0 <= j < i implies (#[trigger] value(texts[j])) is Some by {
                assert(accepts_some(parse_bool, texts[j]));
            }
            assert(first_without_value(texts, value, i));
        }
    }
    r
}

/// An element formatter `f` may turn the items into the texts, one for one.
pub open spec fn formats_to<T, F: Fn(&T) -> String>(f: F, items: Seq<T>, texts: Seq<String>) -> bool {
    &&& texts.len() == items.len()
    &&& forall|i: int| 0 <= i < items.len() ==> call_ensures(f, (&items[i],), #[trigger] texts[i])
}

/// Formats each item of `v` with `f` and joins the texts with the delimiter,
/// in the order of the items.
pub fn format_list_with<T, F>(v: &[T], f: F) -> (r: String) where F: Fn(&T) -> String
    requires
        forall|i: int| 0 <= i < v@.len() ==> call_requires(f, (&#[trigger] v@[i],)),
    ensures
        exists|texts: Seq<String>| #[trigger]
            formats_to(f, v@, texts) && r@ == joined(texts.map_values(|t: String| t@)),
{
    let mut result = String::new();
    let ghost mut texts: Seq<String> = Seq::empty();
    let mut i: usize = 0;
    while i < v.len()
        invariant
            0 <= i <= v@.len(),
            formats_to(f, v@.take(i as int), texts),
            result@ == joined(texts.map_values(|t: String| t@)),
            forall|k: int| 0 <= k < v@.len() ==> call_requires(f, (&#[trigger] v@[k],)),
        decreases v@.len() - i,
    {
        let formatted = f(&v[i]);
        if i > 0 {
            result.push(DELIMITER);
        }
        result.append(formatted.as_str());
        proof {
            let before = texts.map_values(|t: String| t@);
            lemma_joined_push(before, formatted@);
            texts = texts.push(formatted);
            assert(texts.map_values(|t: String| t@) =~= before.push(formatted@));
        }
        i += 1;
    }
    proof {
        assert(v@.take(i as int) == v@);
    }
    result
}

/// The delimited text of a list of `T`: the canonical texts of its items, joined.
pub open spec fn list_text<T: TextConvertible>(items: Seq<T::V>) -> Seq<char> {
    joined(items.map_values(|v: T::V| T::formatted(v)))
}

/// Writes a list as a delimited text: the canonical text of each item.
pub fn format_list<T: TextConvertible>(v: &[T]) -> (r: String)
    ensures
        r@ == list_text::<T>(views(v@)),
{
    let r = format_list_with(v, crate::scalar::format::<T>);
    proof {
        let texts = choose|texts: Seq<String>| #[trigger]
            formats_to(crate::scalar::format::<T>, v@, texts) && r@ == joined(
                texts.map_values(|t: String| t@),
            );
        assert(texts.map_values(|t: String| t@) =~= views(v@).map_values(
            |v: T::V| T::formatted(v),
        ));
    }
    r
}

/// The delimited text of a list of booleans in words.
pub open spec fn bool_list_words(items: Seq<bool>) -> Seq<char> {
    joined(items.map_values(|b: bool| bool_word(b)))
}

/// The delimited text of a list of booleans in digits.
pub open spec fn bool_list_digits(items: Seq<bool>) -> Seq<char> {
    joined(items.map_values(|b: bool| bool_digit(b)))
}

/// Writes a list of booleans as a delimited text of `true` and `false`.
pub fn format_bool_list(v: &[bool]) -> (r: String)
    ensures
        r@ == bool_list_words(v@),
{
    let r = format_list_with(v, format_bool);
    proof {
        let texts = choose|texts: Seq<String>| #[trigger]
            formats_to(format_bool, v@, texts) && r@ == joined(texts.map_values(|t: String| t@));
        assert(texts.map_values(|t: String| t@) =~= v@.map_values(|b: bool| bool_word(b)));
    }
    r
}

/// Writes a list of booleans as a delimited text of `1` and `0`.
pub fn format_bool_list_as_int(v: &[bool]) -> (r: String)
    ensures
        r@ == bool_list_digits(v@),
{
    let r = format_list_with(v, format_bool_as_int);
    proof {
        let texts = choose|texts: Seq<String>| #[trigger]
            formats_to(format_bool_as_int, v@, texts) && r@ == joined(
                texts.map_values(|t: String| t@),
            );
        assert(texts.map_values(|t: String| t@) =~= v@.map_values(|b: bool| bool_digit(b)));
    }
    r
}

} // verus!
