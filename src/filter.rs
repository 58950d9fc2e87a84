//! Exclusion patterns: glob text turned into regular expressions that are
//! searched for anywhere in a path.
use vstd::prelude::*;
use vstd::string::*;
use regex::Regex;

verus! {

/// The regex crate's compiled expression, carried opaquely.
#[verifier::external_type_specification]
#[verifier::external_body]
pub struct ExRegex(Regex);

/// Whether `pattern` is accepted as a regular expression.
pub uninterp spec fn compiles(pattern: Seq<char>) -> bool;

/// Whether the regular expression `pattern` matches somewhere in `text`.
pub uninterp spec fn regex_search(pattern: Seq<char>, text: Seq<char>) -> bool;

/// Whether the expression of the glob `g` compiles.
pub open spec fn accepted_glob(g: Seq<char>) -> bool {
    compiles(glob_regex(g))
}

/// The expression text for one glob character: a literal dot, any run of
/// characters for `*`, the character itself otherwise.
pub open spec fn glob_char(c: char) -> Seq<char> {
    if c == '.' {
        seq!['\\', '.']
    } else if c == '*' {
        seq!['.', '*']
    } else {
        seq![c]
    }
}

/// The expression text for a glob pattern.
pub open spec fn glob_regex(g: Seq<char>) -> Seq<char>
    decreases g.len(),
{
    if g.len() == 0 {
        Seq::empty()
    } else {
        glob_regex(g.drop_last()) + glob_char(g.last())
    }
}

/// A compiled exclusion expression together with its text.
pub struct Matcher {
    source: String,
    re: Regex,
}

impl View for Matcher {
    type V = Seq<char>;

    /// The expression text that the matcher was compiled from.
    closed spec fn view(&self) -> Seq<char> {
        self.source@
    }
}

/// Relies on regex::Regex::new: it accepts exactly the valid expressions
/// (within the crate's default size limits), and the matcher keeps the text.
#[verifier::external_body]
fn compile_regex(pattern: String) -> (r: Option<Matcher>)
    ensures
        r.is_some() == compiles(pattern@),
        r matches Some(m) ==> m@ == pattern@,
{
    match Regex::new(&pattern) {
        Ok(re) => Some(Matcher { source: pattern, re }),
        Err(_) => None,
    }
}

/// Relies on regex::Regex::is_match: whether the expression matches anywhere in `text`.
#[verifier::external_body]
fn regex_is_match(m: &Matcher, text: &str) -> (r: bool)
    ensures
        r == regex_search(m@, text@),
{
    m.re.is_match(text)
}

impl Matcher {
    /// Compiles the glob `glob`; `None` where its expression is not accepted.
    pub fn from_glob(glob: &str) -> (r: Option<Matcher>)
        ensures
            r.is_some() == compiles(glob_regex(glob@)),
            r matches Some(m) ==> m@ == glob_regex(glob@),
    {
        compile_regex(glob_to_regex(glob))
    }

    /// Whether the expression matches anywhere in `text`.
    pub fn is_match(&self, text: &str) -> (r: bool)
        ensures
            r == regex_search(self@, text@),
    {
        regex_is_match(self, text)
    }

    /// The expression text.
    pub fn as_str(&self) -> (r: &str)
        ensures
            r@ == self@,
    {
        self.source.as_str()
    }
}

/// The expression text for a glob: dots escaped, each `*` any run of characters.
pub fn glob_to_regex(g: &str) -> (r: String)
    ensures
        r@ == glob_regex(g@),
{
    let n = g.unicode_len();
    let mut out = String::new();
    let mut i: usize = 0;
    while i < n
        invariant
            n == g@.len(),
            i <= n,
            out@ == glob_regex(g@.subrange(0, i as int)),
        decreases n - i,
    {
        let c = g.get_char(i);
        assert(g@.subrange(0, i + 1).drop_last() =~= g@.subrange(0, i as int));
        if c == '.' {
            proof {
                reveal_strlit("\\.");
            }
            out.append("\\.");
        } else if c == '*' {
            proof {
                reveal_strlit(".*");
            }
            out.append(".*");
        } else {
            let s = g.substring_char(i, i + 1);
            assert(s@ =~= seq![c]);
            out.append(s);
        }
        i = i + 1;
    }
    assert(g@.subrange(0, n as int) =~= g@);
    out
}

} // verus!
