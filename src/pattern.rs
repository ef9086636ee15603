//! Regular expressions that select which file paths a primary record lists.

use vstd::prelude::*;

verus! {

/// Declares regex::Regex, which a `FilePattern` holds; Verus sees nothing inside it.
#[verifier::external_type_specification]
#[verifier::external_body]
pub struct ExRegex(regex::Regex);

/// Declares regex::Error, the failure of compiling an expression.
#[verifier::external_type_specification]
#[verifier::external_body]
pub struct ExRegexError(regex::Error);

/// Whether the regular expression `pattern` matches somewhere in `text`.
pub uninterp spec fn pattern_matches(pattern: Seq<char>, text: Seq<char>) -> bool;

/// Whether `c` is a decimal digit (Unicode general category Nd).
pub uninterp spec fn unicode_decimal_digit(c: char) -> bool;

/// Relies on regex's `\d` class, Unicode-aware under the crate's default features: whether
/// `c` is a decimal digit. The constant expression always compiles.
#[verifier::external_body]
pub(crate) fn decimal_digit(c: char) -> (r: bool)
    ensures
        r == unicode_decimal_digit(c),
{
    let mut buf = [0u8; 4];
    match regex::Regex::new(r"^\d$") {
        Ok(re) => re.is_match(c.encode_utf8(&mut buf)),
        Err(_) => false,
    }
}

/// A compiled regular expression together with its source text.
pub struct FilePattern {
    source: String,
    regex: regex::Regex,
}

/// A pattern that is not a valid regular expression.
#[derive(Clone, Debug, PartialEq, Eq)]
pub struct InvalidPattern {
    pub pattern: String,
}

/// Relies on regex::Regex::new: on success, the compiled expression is that of `source`.
#[verifier::external_body]
fn compile(source: &str) -> (r: Result<FilePattern, regex::Error>)
    ensures
        r matches Ok(p) ==> p.source()@ == source@,
{
    match regex::Regex::new(source) {
        Ok(regex) => Ok(FilePattern { source: source.to_owned(), regex }),
        Err(e) => Err(e),
    }
}

impl FilePattern {
    /// The source text of the expression.
    pub closed spec fn source(&self) -> String {
        self.source
    }

    /// Compiles `source`; fails when it is not a valid regular expression.
    pub fn new(source: &str) -> (r: Result<FilePattern, InvalidPattern>)
        ensures
            match r {
                Ok(p) => p.source()@ == source@,
                Err(e) => e.pattern@ == source@,
            },
    {
        match compile(source) {
            Ok(p) => Ok(p),
            Err(_) => Err(InvalidPattern { pattern: source.to_owned() }),
        }
    }

    /// The source text of the expression.
    pub fn as_str(&self) -> (r: &str)
        ensures
            r@ == self.source()@,
    {
        self.source.as_str()
    }

    /// Relies on regex::Regex::is_match: whether the expression matches somewhere in `text`.
    #[verifier::external_body]
    pub(crate) fn is_match(&self, text: &str) -> (r: bool)
        ensures
            r == pattern_matches(self.source()@, text@),
    {
        self.regex.is_match(text)
    }
}

} // verus!
