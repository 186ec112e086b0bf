//! Reading a directive's text: the `$(...)` forms, and the choice of source.
use vstd::prelude::*;
use vstd::string::*;
use crate::error::YincError;
use crate::resolver::{is_glob_text, is_url_text, Resolver};
use crate::text::{concat, ends_with, starts_with};

verus! {

/// The text has the `$(` ... `)` form.
pub open spec fn is_wrapped(s: Seq<char>) -> bool {
    "$("@.is_prefix_of(s) && ")"@.is_suffix_of(s)
}

/// The text between `$(` and `)`.
pub open spec fn wrapped_inner(s: Seq<char>) -> Seq<char> {
    s.subrange("$("@.len() as int, s.len() - ")"@.len())
}

/// A directive as a value of mathematics.
pub enum DirectiveView {
    Include(Seq<char>),
    Shell(Seq<char>),
    Json(Seq<char>),
}

/// A directive's text read into its three forms.
#[derive(Debug, Clone)]
pub enum Directive {
    Include(String),
    Shell(String),
    Json(String),
}

impl View for Directive {
    type V = DirectiveView;

    open spec fn view(&self) -> DirectiveView {
        match self {
            Directive::Include(s) => DirectiveView::Include(s@),
            Directive::Shell(s) => DirectiveView::Shell(s@),
            Directive::Json(s) => DirectiveView::Json(s@),
        }
    }
}

/// How a text reads as a directive; `None` for a `$(...)` form with an
/// unknown word.
pub open spec fn directive_of(s: Seq<char>) -> Option<DirectiveView> {
    if is_wrapped(s) {
        let inner = wrapped_inner(s);
        if "shell "@.is_prefix_of(inner) {
            Some(DirectiveView::Shell(inner.skip("shell "@.len() as int)))
        } else if "json "@.is_prefix_of(inner) {
            Some(DirectiveView::Json(inner.skip("json "@.len() as int)))
        } else {
            None
        }
    } else {
        Some(DirectiveView::Include(s))
    }
}

/// The source that a directive's text is resolved from, as mathematics.
pub enum Route {
    File(Seq<char>),
    Http(Seq<char>),
    Glob(Seq<char>),
    Json(Seq<char>),
    Shell(Seq<char>),
}

/// The source that a directive's text is resolved from.
#[derive(Debug, Clone)]
pub enum Source {
    File(String),
    Http(String),
    Glob(String),
    Json(String),
    Shell(String),
}

impl View for Source {
    type V = Route;

    open spec fn view(&self) -> Route {
        match self {
            Source::File(s) => Route::File(s@),
            Source::Http(s) => Route::Http(s@),
            Source::Glob(s) => Route::Glob(s@),
            Source::Json(s) => Route::Json(s@),
            Source::Shell(s) => Route::Shell(s@),
        }
    }
}

/// The routing of a directive's text, in order: the `$(...)` forms, a URL, a
/// glob pattern, else a plain file. `None` for an unknown `$(...)` form.
pub open spec fn route_of(s: Seq<char>) -> Option<Route> {
    if is_wrapped(s) {
        let inner = wrapped_inner(s);
        if "shell "@.is_prefix_of(inner) {
            Some(Route::Shell(inner.skip("shell "@.len() as int)))
        } else if "json "@.is_prefix_of(inner) {
            Some(Route::Json(inner.skip("json "@.len() as int)))
        } else {
            None
        }
    } else if is_url_text(s) {
        Some(Route::Http(s))
    } else if is_glob_text(s) {
        Some(Route::Glob(s))
    } else {
        Some(Route::File(s))
    }
}

/// The message of the error for an unknown `$(...)` form.
pub open spec fn unknown_message(s: Seq<char>) -> Seq<char> {
    "Unknown directive: "@ + s
}

/// For a `$(...)` text, the part after `$(shell ` or `$(json ` and before the
/// closing `)`; `None` for another word.
fn split_wrapped(input: &str) -> (r: Option<(bool, String)>)
    requires
        is_wrapped(input@),
    ensures
        match r {
            Some((true, c)) => "shell "@.is_prefix_of(wrapped_inner(input@))
                && c@ == wrapped_inner(input@).skip("shell "@.len() as int),
            Some((false, p)) => !"shell "@.is_prefix_of(wrapped_inner(input@))
                && "json "@.is_prefix_of(wrapped_inner(input@))
                && p@ == wrapped_inner(input@).skip("json "@.len() as int),
            None => !"shell "@.is_prefix_of(wrapped_inner(input@))
                && !"json "@.is_prefix_of(wrapped_inner(input@)),
        },
{
    proof {
        reveal_strlit("$(");
        reveal_strlit(")");
    }
    let n = input.unicode_len();
    assert(input@[1] == input@.subrange(0, 2)[1]);
    assert(input@[n - 1] == input@.subrange(n - 1, n as int)[0]);
    let inner = input.substring_char(2, n - 1);
    assert(inner@ == wrapped_inner(input@));
    let k = inner.unicode_len();
    if starts_with(inner, "shell ") {
        let c = inner.substring_char("shell ".unicode_len(), k);
        return Some((true, String::from_str(c)));
    }
    if starts_with(inner, "json ") {
        let p = inner.substring_char("json ".unicode_len(), k);
        return Some((false, String::from_str(p)));
    }
    None
}

fn wrapped(input: &str) -> (r: bool)
    ensures
        r == is_wrapped(input@),
{
    starts_with(input, "$(") && ends_with(input, ")")
}

impl Directive {
    /// Reads a directive's text: `$(shell c)` and `$(json p)` give their
    /// argument, another `$(...)` form gives `None`, and any other text is a
    /// plain path.
    pub fn parse(input: &str) -> (r: Option<Directive>)
        ensures
            match r {
                Some(d) => directive_of(input@) == Some(d@),
                None => directive_of(input@) is None,
            },
    {
        if wrapped(input) {
            match split_wrapped(input) {
                Some((true, c)) => Some(Directive::Shell(c)),
                Some((false, p)) => Some(Directive::Json(p)),
                None => None,
            }
        } else {
            Some(Directive::Include(String::from_str(input)))
        }
    }
}

/// Chooses the source of a directive's text. Fails with a parse error that
/// quotes the text for a `$(...)` form with an unknown word.
pub fn classify(raw: &str) -> (r: Result<Source, YincError>)
    ensures
        match r {
            Ok(s) => route_of(raw@) == Some(s@),
            Err(e) => route_of(raw@) is None
                && (e matches YincError::Parse(m) && m@ == unknown_message(raw@)),
        },
{
    if wrapped(raw) {
        match split_wrapped(raw) {
            Some((true, c)) => Ok(Source::Shell(c)),
            Some((false, p)) => Ok(Source::Json(p)),
            None => Err(YincError::Parse(concat("Unknown directive: ", raw))),
        }
    } else if Resolver::is_url(raw) {
        Ok(Source::Http(String::from_str(raw)))
    } else if Resolver::is_glob_pattern(raw) {
        Ok(Source::Glob(String::from_str(raw)))
    } else {
        Ok(Source::File(String::from_str(raw)))
    }
}

/// Classification is a function of the text alone: equal texts are routed
/// alike, and every text is either routed to exactly one source or refused.
pub proof fn lemma_classify_deterministic(a: Seq<char>, b: Seq<char>)
    requires
        a == b,
    ensures
        route_of(a) == route_of(b),
        route_of(a) is None <==> (is_wrapped(a) && directive_of(a) is None),
{
}

} // verus!
