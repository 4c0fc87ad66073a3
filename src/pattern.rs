//! Compiled glob patterns and ordered sets of them.

use vstd::prelude::*;

verus! {

#[verifier::external_type_specification]
#[verifier::external_body]
pub struct ExPattern(glob::Pattern);

#[verifier::external_type_specification]
#[verifier::external_body]
pub struct ExPatternError(glob::PatternError);

/// Whether `glob::Pattern::new` accepts the pattern text.
pub uninterp spec fn glob_compiles(pattern: Seq<char>) -> bool;

/// What `glob::Pattern::matches` answers for a pattern compiled from the
/// first argument, on the string in the second.
pub uninterp spec fn glob_matches_str(pattern: Seq<char>, text: Seq<char>) -> bool;

/// What `glob::Pattern::matches_path` answers for a pattern compiled from the
/// first argument, on the path built from the string in the second.
pub uninterp spec fn glob_matches_path(pattern: Seq<char>, path: Seq<char>) -> bool;

/// Relies on `glob::Pattern::new`: it fails exactly on pattern texts that are
/// not valid globs.
#[verifier::external_body]
fn compile_pattern(text: &str) -> (r: Result<glob::Pattern, glob::PatternError>)
    ensures
        r is Ok <==> glob_compiles(text@),
{
    glob::Pattern::new(text)
}

/// A glob pattern together with the text it was compiled from.
///
/// The fields are private: a `Glob` is only made by `Glob::new`, so `compiled`
/// is always the pattern that `glob` compiled from `text`.
pub struct Glob {
    text: String,
    compiled: glob::Pattern,
}

impl View for Glob {
    type V = Seq<char>;

    closed spec fn view(&self) -> Seq<char> {
        self.text@
    }
}

/// Relies on `glob::Pattern::matches` with the default match options.
#[verifier::external_body]
fn pattern_matches_str(g: &Glob, text: &str) -> (r: bool)
    ensures
        r == glob_matches_str(g@, text@),
{
    g.compiled.matches(text)
}

/// Relies on `glob::Pattern::matches_path`, on the path made of `path`.
#[verifier::external_body]
fn pattern_matches_path(g: &Glob, path: &str) -> (r: bool)
    ensures
        r == glob_matches_path(g@, path@),
{
    g.compiled.matches_path(std::path::Path::new(path))
}

/// A path is hit by a pattern when the pattern matches it as a structured path
/// or as a plain string.
pub open spec fn pattern_hits(pattern: Seq<char>, path: Seq<char>) -> bool {
    glob_matches_path(pattern, path) || glob_matches_str(pattern, path)
}

/// Whether some pattern of the sequence hits the path.
pub open spec fn any_hits(patterns: Seq<Seq<char>>, path: Seq<char>) -> bool {
    exists|k: int| 0 <= k < patterns.len() && pattern_hits(#[trigger] patterns[k], path)
}

impl Glob {
    /// Compiles `text`; `None` when it is not a valid glob.
    pub fn new(text: &str) -> (r: Option<Glob>)
        ensures
            r is Some <==> glob_compiles(text@),
            r matches Some(g) ==> g@ == text@,
    {
        match compile_pattern(text) {
            Ok(compiled) => Some(Glob { text: text.to_owned(), compiled }),
            Err(_) => None,
        }
    }

    /// The text the pattern was compiled from.
    pub fn as_str(&self) -> (r: &str)
        ensures
            r@ == self@,
    {
        self.text.as_str()
    }

    /// Whether the pattern hits `path`, read as a path or as a string.
    pub fn hits(&self, path: &str) -> (r: bool)
        ensures
            r == pattern_hits(self@, path@),
    {
        pattern_matches_path(self, path) || pattern_matches_str(self, path)
    }
}

/// The views of a sequence of strings.
pub open spec fn texts(v: Seq<String>) -> Seq<Seq<char>> {
    v.map_values(|s: String| s@)
}

/// Whether each of the first `n` pattern texts compiles.
pub open spec fn all_compile_upto(raw: Seq<Seq<char>>, n: int) -> bool {
    forall|k: int| 0 <= k < n ==> glob_compiles(#[trigger] raw[k])
}

/// An ordered set of compiled glob patterns.
pub struct PatternSet {
    globs: Vec<Glob>,
}

impl View for PatternSet {
    type V = Seq<Seq<char>>;

    closed spec fn view(&self) -> Seq<Seq<char>> {
        self.globs@.map_values(|g: Glob| g@)
    }
}

impl PatternSet {
    /// Compiles every text of `raw`, in order. On the first text that is not a
    /// valid glob, returns its index; nothing after it is compiled.
    pub fn compile(raw: &Vec<String>) -> (r: Result<PatternSet, usize>)
        ensures
            r matches Ok(ps) ==> ps@ == texts(raw@) && all_compile_upto(texts(raw@), raw@.len() as int),
            r is Ok <==> all_compile_upto(texts(raw@), raw@.len() as int),
            r matches Err(i) ==> i < raw@.len() && all_compile_upto(texts(raw@), i as int)
                && !glob_compiles(raw@[i as int]@),
    {
        let mut globs: Vec<Glob> = Vec::new();
        let mut i: usize = 0;
        while i < raw.len()
            invariant
                i <= raw@.len(),
                globs@.len() == i,
                forall|k: int| 0 <= k < i ==> (#[trigger] globs@[k])@ == raw@[k]@,
                all_compile_upto(texts(raw@), i as int),
            decreases raw@.len() - i,
        {
            assert(texts(raw@)[i as int] == raw@[i as int]@);
            match Glob::new(raw[i].as_str()) {
                Some(g) => {
                    globs.push(g);
                },
                None => {
                    assert(texts(raw@)[i as int] == raw@[i as int]@);
                    return Err(i);
                },
            }
            i = i + 1;
        }
        let ps = PatternSet { globs };
        assert(ps@ =~= texts(raw@));
        Ok(ps)
    }

    /// The number of patterns.
    pub fn len(&self) -> (r: usize)
        ensures
            r == self@.len(),
    {
        self.globs.len()
    }

    /// The text of the pattern at `i`.
    pub fn pattern(&self, i: usize) -> (r: &str)
        requires
            i < self@.len(),
        ensures
            r@ == self@[i as int],
    {
        self.globs[i].as_str()
    }

    /// Whether some pattern of the set hits `path`.
    pub fn any_hits(&self, path: &str) -> (r: bool)
        ensures
            r == any_hits(self@, path@),
    {
        let mut i: usize = 0;
        while i < self.globs.len()
            invariant
                i <= self@.len(),
                forall|k: int| 0 <= k < i ==> !pattern_hits(#[trigger] self@[k], path@),
            decreases self@.len() - i,
        {
            if self.globs[i].hits(path) {
                assert(pattern_hits(self@[i as int], path@));
                return true;
            }
            i = i + 1;
        }
        false
    }
}

} // verus!
