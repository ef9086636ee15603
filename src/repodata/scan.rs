//! Which files are package files.

use vstd::prelude::*;

verus! {

/// The lower-case form of a string.
pub uninterp spec fn lower_of(s: Seq<char>) -> Seq<char>;

/// Relies on str::to_lowercase: the result depends on the characters alone.
#[verifier::external_body]
fn lowercase(s: &str) -> (r: String)
    ensures
        r@ == lower_of(s@),
{
    s.to_lowercase()
}

pub open spec fn ends_with(s: Seq<char>, suffix: Seq<char>) -> bool {
    s.len() >= suffix.len() && s.subrange(s.len() - suffix.len(), s.len() as int) == suffix
}

pub open spec fn package_extension() -> Seq<char> {
    seq!['.', 'r', 'p', 'm']
}

/// The name ends with the package extension `.rpm`, in this case.
pub fn has_package_extension(name: &str) -> (r: bool)
    ensures
        r == ends_with(name@, package_extension()),
{
    let n = name.unicode_len();
    if n < 4 {
        return false;
    }
    let r = name.get_char(n - 4) == '.' && name.get_char(n - 3) == 'r' && name.get_char(n - 2)
        == 'p' && name.get_char(n - 1) == 'm';
    assert(r == (name@.subrange(n - 4, n as int) =~= package_extension()));
    r
}

/// The name ends with the package extension in any case; a repository walk collects
/// such files.
pub fn is_package_file_name(name: &str) -> (r: bool)
    ensures
        r == ends_with(lower_of(name@), package_extension()),
{
    let lower = lowercase(name);
    has_package_extension(lower.as_str())
}

} // verus!
