//! The scalar codec: one text on one side, one typed value on the other.

use crate::strings::same_text;
use vstd::prelude::*;

verus! {

/// The one kind of failure: a text that is no value of the type asked for.
/// It is a message that names both the text and the type.
pub type ConversionError = String;

/// The message of a failed conversion of `input` to the type called `target`.
pub open spec fn conversion_message(input: Seq<char>, target: Seq<char>) -> Seq<char> {
    "Can't convert '"@ + input + "' to '"@ + target + "'."@
}

/// Builds the error for a text that is no value of the type called `target`.
pub fn conversion_error(input: &str, target: &str) -> (e: ConversionError)
    ensures
        e@ == conversion_message(input@, target@),
{
    let mut message = "Can't convert '".to_owned();
    message.append(input);
    message.append("' to '");
    message.append(target);
    message.append("'.");
    message
}

/// A type whose values have a text: a grammar that says which texts denote
/// which value, and a canonical text for each value.
pub trait TextConvertible: Sized + View {
    /// The value that `s` denotes, or `None` where the grammar does not admit `s`.
    spec fn parsed(s: Seq<char>) -> Option<Self::V>;

    /// The canonical text of `v`.
    spec fn formatted(v: Self::V) -> Seq<char>;

    /// The name by which errors call this type.
    spec fn type_label() -> Seq<char>;

    /// Reads a value from its text.
    fn from_text(s: &str) -> (r: Option<Self>)
        ensures
            match r {
                Some(v) => Self::parsed(s@) == Some(v@),
                None => Self::parsed(s@) is None,
            },
    ;

    /// Writes a value as its canonical text.
    fn to_text(&self) -> (r: String)
        ensures
            r@ == Self::formatted(self@),
    ;

    /// The name by which errors call this type.
    fn label() -> (r: &'static str)
        ensures
            r@ == Self::type_label(),
    ;
}

/// Whether the canonical text of `v` denotes `v` again.
pub open spec fn reads_back<T: TextConvertible>(v: T::V) -> bool {
    T::parsed(T::formatted(v)) == Some(v)
}

/// A string is its own text: every text denotes itself.
impl TextConvertible for String {
    open spec fn parsed(s: Seq<char>) -> Option<Seq<char>> {
        Some(s)
    }

    open spec fn formatted(v: Seq<char>) -> Seq<char> {
        v
    }

    open spec fn type_label() -> Seq<char> {
        "String"@
    }

    fn from_text(s: &str) -> (r: Option<String>) {
        Some(s.to_owned())
    }

    fn to_text(&self) -> (r: String) {
        self.clone()
    }

    fn label() -> (r: &'static str) {
        "String"
    }
}

/// A boolean by its two words: `true` and `false`, and no other text.
impl TextConvertible for bool {
    open spec fn parsed(s: Seq<char>) -> Option<bool> {
        if s == "true"@ {
            Some(true)
        } else if s == "false"@ {
            Some(false)
        } else {
            None
        }
    }

    open spec fn formatted(v: bool) -> Seq<char> {
        bool_word(v)
    }

    open spec fn type_label() -> Seq<char> {
        "bool"@
    }

    fn from_text(s: &str) -> (r: Option<bool>) {
        if same_text(s, "true") {
            Some(true)
        } else if same_text(s, "false") {
            Some(false)
        } else {
            None
        }
    }

    fn to_text(&self) -> (r: String) {
        format_bool(self)
    }

    fn label() -> (r: &'static str) {
        "bool"
    }
}

/// Reads a value of type `T` from `s`, by the grammar of `T`.
pub fn parse<T: TextConvertible>(s: &str) -> (r: Result<T, ConversionError>)
    ensures
        match r {
            Ok(v) => T::parsed(s@) == Some(v@),
            Err(e) => T::parsed(s@) is None && e@ == conversion_message(s@, T::type_label()),
        },
{
    match T::from_text(s) {
        Some(v) => Ok(v),
        None => Err(conversion_error(s, T::label())),
    }
}

/// The boolean that a text denotes in the strict grammar of flags: `1` and
/// `true` are true, `0` and `false` are false, and no other text is a boolean.
pub open spec fn bool_value(s: Seq<char>) -> Option<bool> {
    if s == "1"@ || s == "true"@ {
        Some(true)
    } else if s == "0"@ || s == "false"@ {
        Some(false)
    } else {
        None
    }
}

/// Reads a boolean from one of its four literals.
pub fn parse_bool(s: &str) -> (r: Result<bool, ConversionError>)
    ensures
        match r {
            Ok(b) => bool_value(s@) == Some(b),
            Err(e) => bool_value(s@) is None && e@ == conversion_message(s@, "bool"@),
        },
{
    if same_text(s, "1") || same_text(s, "true") {
        Ok(true)
    } else if same_text(s, "0") || same_text(s, "false") {
        Ok(false)
    } else {
        Err(conversion_error(s, "bool"))
    }
}

/// Writes a value as its canonical text.
pub fn format<T: TextConvertible>(v: &T) -> (r: String)
    ensures
        r@ == T::formatted(v@),
{
    v.to_text()
}

/// The word for a boolean.
pub open spec fn bool_word(b: bool) -> Seq<char> {
    if b {
        "true"@
    } else {
        "false"@
    }
}

/// The digit for a boolean.
pub open spec fn bool_digit(b: bool) -> Seq<char> {
    if b {
        "1"@
    } else {
        "0"@
    }
}

/// Writes a boolean as `true` or `false`.
pub fn format_bool(v: &bool) -> (r: String)
    ensures
        r@ == bool_word(*v),
{
    if *v {
        return "true".to_owned();
    }
    "false".to_owned()
}

/// Writes a boolean as `1` or `0`.
pub fn format_bool_as_int(v: &bool) -> (r: String)
    ensures
        r@ == bool_digit(*v),
{
    if *v {
        return "1".to_owned();
    }
    "0".to_owned()
}

/// Every string is read back from its text.
pub proof fn lemma_string_reads_back(v: Seq<char>)
    ensures
        reads_back::<String>(v),
{
}

/// The four boolean literals are four texts.
pub proof fn lemma_bool_literals_differ()
    ensures
        "1"@ != "0"@,
        "1"@ != "true"@,
        "1"@ != "false"@,
        "0"@ != "true"@,
        "0"@ != "false"@,
        "true"@ != "false"@,
{
    reveal_strlit("true");
    reveal_strlit("false");
    reveal_strlit("1");
    reveal_strlit("0");
    assert("1"@.len() == 1 && "0"@.len() == 1);
    assert("true"@.len() == 4 && "false"@.len() == 5);
    assert("1"@[0] == '1' && "0"@[0] == '0');
}

/// Every boolean is read back from its word, by the grammar of words and by
/// the grammar of flags.
pub proof fn lemma_bool_word_reads_back(b: bool)
    ensures
        reads_back::<bool>(b),
        bool_value(bool_word(b)) == Some(b),
{
    lemma_bool_literals_differ();
}

/// Every boolean is read back from its digit, by the grammar of flags.
pub proof fn lemma_bool_digit_reads_back(b: bool)
    ensures
        bool_value(bool_digit(b)) == Some(b),
{
    lemma_bool_literals_differ();
}

} // verus!
