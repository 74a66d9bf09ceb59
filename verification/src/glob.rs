//! Glob patterns, compiled and matched by the `glob_sl` crate.

use vstd::prelude::*;

verus! {

/// `glob_sl::Pattern`, a compiled pattern, carried opaquely.
#[verifier::external_type_specification]
#[verifier::external_body]
pub struct ExPattern(glob_sl::Pattern);

/// What compiling `pattern` with `glob_sl::Pattern::new` reports: `None` when the
/// pattern compiles, else the text of the error (its `Display` form).
pub uninterp spec fn glob_compile_error(pattern: Seq<char>) -> Option<Seq<char>>;

/// Whether the pattern compiled from `pattern` matches `text` under the given
/// match options (`glob_sl::Pattern::matches_with`).
pub uninterp spec fn glob_match(
    pattern: Seq<char>,
    text: Seq<char>,
    case_sensitive: bool,
    require_literal_separator: bool,
    require_literal_leading_dot: bool,
) -> bool;

/// Options that change how a pattern matches.
#[derive(Clone, Copy, Debug, PartialEq, Eq)]
pub struct MatchOptions {
    pub case_sensitive: bool,
    pub require_literal_separator: bool,
    pub require_literal_leading_dot: bool,
    pub follow_links: bool,
}

impl MatchOptions {
    /// The default options: case sensitive, nothing else required.
    pub fn new() -> (r: MatchOptions)
        ensures
            r == MatchOptions::default_spec(),
    {
        MatchOptions {
            case_sensitive: true,
            require_literal_separator: false,
            require_literal_leading_dot: false,
            follow_links: false,
        }
    }

    pub open spec fn default_spec() -> MatchOptions {
        MatchOptions {
            case_sensitive: true,
            require_literal_separator: false,
            require_literal_leading_dot: false,
            follow_links: false,
        }
    }
}

/// Whether pattern `p` matches `text` under `options`.
pub open spec fn matches_under(p: Seq<char>, text: Seq<char>, options: MatchOptions) -> bool {
    glob_match(
        p,
        text,
        options.case_sensitive,
        options.require_literal_separator,
        options.require_literal_leading_dot,
    )
}

/// A compiled glob pattern together with the text it was compiled from.
pub struct GlobPattern {
    compiled: glob_sl::Pattern,
    source: Ghost<Seq<char>>,
}

impl View for GlobPattern {
    type V = Seq<char>;

    closed spec fn view(&self) -> Seq<char> {
        self.source@
    }
}

impl GlobPattern {
    /// Compiles `pattern` with `glob_sl::Pattern::new`. Claimed of that call: it
    /// succeeds exactly when `glob_compile_error` says so, the error becomes its
    /// `Display` text, and the pattern compiled is the one from `pattern`.
    #[verifier::external_body]
    pub(crate) fn new(pattern: &str) -> (r: Result<GlobPattern, String>)
        ensures
            match r {
                Ok(p) => glob_compile_error(pattern@) is None && p@ == pattern@,
                Err(msg) => glob_compile_error(pattern@) == Some(msg@),
            },
    {
        match glob_sl::Pattern::new(pattern) {
            Ok(p) => Ok(GlobPattern { compiled: p, source: Ghost(pattern@) }),
            Err(e) => Err(e.to_string()),
        }
    }

    /// `glob_sl::Pattern::as_str`: the text the pattern was compiled from.
    #[verifier::external_body]
    pub(crate) fn as_str(&self) -> (r: &str)
        ensures
            r@ == self@,
    {
        self.compiled.as_str()
    }

    /// `glob_sl::Pattern::matches`: matching with `glob_sl::MatchOptions::new()`,
    /// which the crate's source shows to be the defaults of `MatchOptions::default_spec`.
    #[verifier::external_body]
    pub(crate) fn matches(&self, text: &str) -> (r: bool)
        ensures
            r == glob_match(self@, text@, true, false, false),
    {
        self.compiled.matches(text)
    }

    /// `glob_sl::Pattern::matches_with`, the options converted field by field.
    #[verifier::external_body]
    pub(crate) fn matches_with(&self, text: &str, options: MatchOptions) -> (r: bool)
        ensures
            r == glob_match(
                self@,
                text@,
                options.case_sensitive,
                options.require_literal_separator,
                options.require_literal_leading_dot,
            ),
    {
        self.compiled.matches_with(
            text,
            glob_sl::MatchOptions {
                case_sensitive: options.case_sensitive,
                require_literal_separator: options.require_literal_separator,
                require_literal_leading_dot: options.require_literal_leading_dot,
                follow_links: options.follow_links,
            },
        )
    }
}

} // verus!
