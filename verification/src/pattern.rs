//! Regular expressions of the `regex` crate, compiled once and matched many
//! times. What a pattern matches is left to the crate: the contracts speak of
//! it through the names `regex_compiles`, `regex_finds` and `regex_group`.
use crate::text::views;
use vstd::prelude::*;

verus! {

/// `regex::Regex`, a compiled regular expression, held opaque.
#[verifier::external_type_specification]
#[verifier::external_body]
pub struct ExRegex(regex::Regex);

/// The characters that have a meaning in a regular expression.
pub open spec fn is_meta(c: char) -> bool {
    ||| c == '\\'
    ||| c == '.'
    ||| c == '+'
    ||| c == '*'
    ||| c == '?'
    ||| c == '('
    ||| c == ')'
    ||| c == '|'
    ||| c == '['
    ||| c == ']'
    ||| c == '{'
    ||| c == '}'
    ||| c == '^'
    ||| c == '$'
    ||| c == '#'
    ||| c == '&'
    ||| c == '-'
    ||| c == '~'
}

/// `text` with a backslash before each metacharacter: a pattern that
/// matches `text` literally.
pub open spec fn regex_escape_of(text: Seq<char>) -> Seq<char>
    decreases text.len(),
{
    if text.len() == 0 {
        seq![]
    } else {
        regex_escape_of(text.drop_last()) + (if is_meta(text.last()) {
            seq!['\\', text.last()]
        } else {
            seq![text.last()]
        })
    }
}

/// Whether `regex::Regex::new` accepts `pattern`.
pub uninterp spec fn regex_compiles(pattern: Seq<char>) -> bool;

/// Whether the regex compiled from `pattern` matches somewhere in `haystack`
/// (`regex::Regex::is_match`).
pub uninterp spec fn regex_finds(pattern: Seq<char>, haystack: Seq<char>) -> bool;

/// The text of the first capture group of the leftmost match of the regex
/// compiled from `pattern` in `haystack` (`regex::Regex::captures`, then
/// group 1), where there is a match and the group took part in it.
pub uninterp spec fn regex_group(pattern: Seq<char>, haystack: Seq<char>) -> Option<Seq<char>>;

/// `regex::escape`. Claims what its source does: a backslash goes before
/// each metacharacter, every other character is kept.
#[verifier::external_body]
pub(crate) fn regex_escape(text: &str) -> (r: String)
    ensures
        r@ == regex_escape_of(text@),
{
    regex::escape(text)
}

/// A compiled regular expression together with the text it was compiled
/// from. Only `Pattern::compile` makes one, so `compiled` always holds the
/// regex of `source`.
#[derive(Debug)]
pub struct Pattern {
    source: String,
    compiled: regex::Regex,
}

impl Pattern {
    /// The text the pattern was compiled from.
    pub closed spec fn source(&self) -> Seq<char> {
        self.source@
    }

    /// `regex::Regex::new`. Claims that it succeeds exactly when
    /// `regex_compiles` holds of `source`, and keeps `source` beside the
    /// compiled regex.
    #[verifier::external_body]
    pub(crate) fn compile(source: String) -> (r: Option<Pattern>)
        ensures
            r is Some <==> regex_compiles(source@),
            r matches Some(p) ==> p.source() == source@,
    {
        match regex::Regex::new(&source) {
            Ok(compiled) => Some(Pattern { source, compiled }),
            Err(_) => None,
        }
    }

    /// `regex::Regex::is_match`. Claims that the answer is `regex_finds` of
    /// the pattern's source and the haystack; what the pattern matches is
    /// left to the crate.
    #[verifier::external_body]
    pub(crate) fn is_match(&self, haystack: &str) -> (r: bool)
        ensures
            r == regex_finds(self.source(), haystack@),
    {
        self.compiled.is_match(haystack)
    }

    /// `regex::Regex::captures`, then the text of its group 1. Claims that
    /// the answer is `regex_group` of the pattern's source and the haystack;
    /// which text the group captures is left to the crate.
    #[verifier::external_body]
    pub(crate) fn first_group(&self, haystack: &str) -> (r: Option<String>)
        ensures
            match r {
                Some(g) => regex_group(self.source(), haystack@) == Some(g@),
                None => regex_group(self.source(), haystack@) is None,
            },
    {
        match self.compiled.captures(haystack) {
            Some(caps) => match caps.get(1) {
                Some(m) => Some(m.as_str().to_string()),
                None => None,
            },
            None => None,
        }
    }

    /// The text the pattern was compiled from (`regex::Regex::as_str`).
    pub fn as_str(&self) -> (r: &str)
        ensures
            r@ == self.source(),
    {
        self.source.as_str()
    }
}

/// The sources of a sequence of patterns.
pub open spec fn sources(v: Seq<Pattern>) -> Seq<Seq<char>> {
    v.map_values(|p: Pattern| p.source())
}

/// The patterns of `texts` that compile, in order: what a `filter_map` over
/// `Regex::new(..).ok()` keeps.
pub open spec fn compiled_texts(texts: Seq<Seq<char>>) -> Seq<Seq<char>>
    decreases texts.len(),
{
    if texts.len() == 0 {
        seq![]
    } else if regex_compiles(texts.last()) {
        compiled_texts(texts.drop_last()).push(texts.last())
    } else {
        compiled_texts(texts.drop_last())
    }
}

/// The first pattern in `srcs` that finds a match in `text`.
pub open spec fn first_match(srcs: Seq<Seq<char>>, text: Seq<char>) -> Option<Seq<char>>
    decreases srcs.len(),
{
    if srcs.len() == 0 {
        None
    } else if regex_finds(srcs[0], text) {
        Some(srcs[0])
    } else {
        first_match(srcs.drop_first(), text)
    }
}

/// Some pattern in `srcs` finds a match in `text`.
pub open spec fn any_match(srcs: Seq<Seq<char>>, text: Seq<char>) -> bool {
    first_match(srcs, text) is Some
}

/// Compiles `texts`, dropping those the regex crate refuses.
pub fn compile_all(texts: Vec<String>) -> (r: Vec<Pattern>)
    ensures
        sources(r@) == compiled_texts(views(texts@)),
{
    let ghost tv = views(texts@);
    let mut r: Vec<Pattern> = Vec::new();
    let mut i: usize = 0;
    let n = texts.len();
    while i < n
        invariant
            n == texts@.len(),
            tv == views(texts@),
            i <= n,
            sources(r@) == compiled_texts(tv.take(i as int)),
        decreases n - i,
    {
        let t = texts[i].clone();
        proof {
            assert(tv.take(i + 1).drop_last() =~= tv.take(i as int));
            assert(tv.take(i + 1).last() == tv[i as int]);
        }
        match Pattern::compile(t) {
            Some(p) => {
                let ghost old_r = r@;
                r.push(p);
                assert(sources(r@) =~= sources(old_r).push(p.source()));
            },
            None => {},
        }
        i = i + 1;
    }
    assert(tv.take(n as int) =~= tv);
    r
}

/// The index of the first pattern of `pats` that matches in `text`.
pub fn first_match_index(pats: &Vec<Pattern>, text: &str) -> (r: Option<usize>)
    ensures
        match r {
            Some(i) => i < pats@.len() && first_match(sources(pats@), text@) == Some(
                pats@[i as int].source(),
            ),
            None => first_match(sources(pats@), text@) is None,
        },
{
    let ghost srcs = sources(pats@);
    let mut i: usize = 0;
    let n = pats.len();
    assert(srcs.skip(0) =~= srcs);
    while i < n
        invariant
            n == pats@.len(),
            srcs == sources(pats@),
            i <= n,
            first_match(srcs.skip(i as int), text@) == first_match(srcs, text@),
        decreases n - i,
    {
        assert(srcs.skip(i as int)[0] == pats@[i as int].source());
        if pats[i].is_match(text) {
            return Some(i);
        }
        assert(srcs.skip(i as int).drop_first() =~= srcs.skip(i + 1));
        i = i + 1;
    }
    assert(srcs.skip(n as int).len() == 0);
    None
}

} // verus!
