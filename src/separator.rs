use vstd::prelude::*;

verus! {

#[verifier::external_type_specification]
#[verifier::external_body]
pub struct ExRegex(regex::Regex);

#[verifier::external_type_specification]
#[verifier::external_body]
pub struct ExRegexError(regex::Error);

/// The pieces into which the regular expression `pattern` cuts `line`: the
/// text before, between and after its matches, in order, empty pieces included.
pub uninterp spec fn split_of(pattern: Seq<char>, line: Seq<char>) -> Seq<Seq<char>>;

/// Whether `pattern` is a regular expression that compiles within the
/// default size limit.
pub uninterp spec fn compiles(pattern: Seq<char>) -> bool;

/// The text of each string, in order.
pub open spec fn views(s: Seq<&str>) -> Seq<Seq<char>> {
    s.map_values(|x: &str| x@)
}

/// The fields among some pieces: the non-empty ones, in order.
pub open spec fn fields_of(pieces: Seq<Seq<char>>) -> Seq<Seq<char>> {
    pieces.filter(|p: Seq<char>| p.len() > 0)
}

/// Why a separator could not be built.
#[derive(Debug, Clone, Copy, PartialEq, Eq)]
pub enum SeparatorError {
    /// The pattern is not a regular expression that can be compiled.
    InvalidPattern,
}

/// Relies on regex::Regex::new: compiles `pattern`, or returns its error for
/// a pattern that is invalid or too large; which of the two depends on the
/// pattern alone.
#[verifier::external_body]
fn compile(pattern: &str) -> (r: Result<regex::Regex, regex::Error>)
    ensures
        r is Ok <==> compiles(pattern@),
{
    regex::Regex::new(pattern)
}

/// A field separator: a regular expression whose matches cut a line apart.
pub struct Separator {
    pattern: String,
    regex: regex::Regex,
}

impl View for Separator {
    type V = Seq<char>;

    /// The pattern that the separator was built from.
    closed spec fn view(&self) -> Seq<char> {
        self.pattern@
    }
}

/// The non-empty strings among `pieces`, in order.
pub fn drop_empty<'a>(pieces: &[&'a str]) -> (r: Vec<&'a str>)
    ensures
        views(r@) == fields_of(views(pieces@)),
{
    let mut r: Vec<&'a str> = Vec::new();
    let mut i: usize = 0;
    while i < pieces.len()
        invariant
            i <= pieces@.len(),
            views(r@) == fields_of(views(pieces@.subrange(0, i as int))),
        decreases pieces@.len() - i,
    {
        let piece = pieces[i];
        proof {
            let pred = |p: Seq<char>| p.len() > 0;
            assert(views(pieces@.subrange(0, i + 1)) =~= views(pieces@.subrange(0, i as int)).push(
                piece@,
            ));
            views(pieces@.subrange(0, i as int)).lemma_filter_push(piece@, pred);
        }
        if !piece.is_empty() {
            let ghost before = r@;
            r.push(piece);
            assert(views(r@) =~= views(before).push(piece@));
        }
        i = i + 1;
    }
    assert(pieces@.subrange(0, pieces@.len() as int) =~= pieces@);
    r
}

impl Separator {
    /// Builds the separator for a regular expression, or reports that the
    /// pattern cannot be compiled.
    pub fn new(pattern: &str) -> (r: Result<Separator, SeparatorError>)
        ensures
            r is Ok <==> compiles(pattern@),
            r matches Ok(sep) ==> sep@ == pattern@,
    {
        match compile(pattern) {
            Ok(regex) => Ok(Separator { pattern: pattern.to_owned(), regex }),
            Err(_) => Err(SeparatorError::InvalidPattern),
        }
    }

    /// The pattern that the separator was built from.
    pub fn pattern(&self) -> (r: &str)
        ensures
            r@ == self@,
    {
        self.pattern.as_str()
    }

    /// Relies on regex::Regex::split: the pieces of `line` around the matches
    /// of the compiled regex, which `new` built from the pattern kept beside it.
    #[verifier::external_body]
    fn pieces<'h>(&self, line: &'h str) -> (r: Vec<&'h str>)
        ensures
            views(r@) == split_of(self@, line@),
    {
        self.regex.split(line).collect()
    }

    /// The fields of `line`: the non-empty pieces around the separator's
    /// matches, so that repeated separators yield no empty field.
    pub fn split<'h>(&self, line: &'h str) -> (r: Vec<&'h str>)
        ensures
            views(r@) == fields_of(split_of(self@, line@)),
    {
        let pieces = self.pieces(line);
        drop_empty(pieces.as_slice())
    }
}

} // verus!
