use vstd::prelude::*;
use crate::err;

verus! {

/// pcre2's compiled pattern, carried through opaquely.
#[verifier::external_type_specification]
#[verifier::external_body]
pub struct ExRegex(pcre2::bytes::Regex);

/// Whether pcre2 reports a match of `pattern` somewhere in `subject`
/// (an error while matching counts as no match).
pub uninterp spec fn pcre_match(pattern: Seq<char>, subject: Seq<char>) -> bool;

/// Whether pcre2 accepts `pattern` as a regular expression.
pub uninterp spec fn pcre_accepts(pattern: Seq<char>) -> bool;

/// Characters that stand for themselves in a glob but are operators in a regex.
pub open spec fn is_regex_operator(c: char) -> bool {
    c == '.' || c == '(' || c == ')' || c == '|' || c == '+' || c == '^' || c == '$'
}

/// The regex text for the glob `g` read from position `i` on, where `esc` says whether
/// the previous character was an escaping backslash and `depth` counts the open curlies.
pub open spec fn regex_text_from(g: Seq<char>, i: int, esc: bool, depth: nat) -> Seq<char>
    decreases g.len() - i,
{
    if i < 0 || i >= g.len() {
        seq![]
    } else {
        let c = g[i];
        if c == ':' && i + 2 < g.len() && g[i + 1] == '*' && g[i + 2] == '*' {
            seq!['.', '*'] + regex_text_from(g, i + 3, esc, depth)
        } else if is_regex_operator(c) {
            seq!['\\', c] + regex_text_from(g, i + 1, false, depth)
        } else if c == '*' {
            (if esc { seq!['\\', '*'] } else { seq!['[', '^', ':', ']', '*'] })
                + regex_text_from(g, i + 1, false, depth)
        } else if c == '?' {
            (if esc { seq!['\\', '?'] } else { seq!['[', '^', ':', ']'] })
                + regex_text_from(g, i + 1, false, depth)
        } else if c == '{' {
            if esc {
                seq!['\\', '{'] + regex_text_from(g, i + 1, false, depth)
            } else {
                seq!['('] + regex_text_from(g, i + 1, false, depth + 1)
            }
        } else if c == '}' && depth > 0 {
            if esc {
                seq!['}'] + regex_text_from(g, i + 1, false, depth)
            } else {
                seq![')'] + regex_text_from(g, i + 1, false, (depth - 1) as nat)
            }
        } else if c == ',' && depth > 0 {
            (if esc { seq![','] } else { seq!['|'] }) + regex_text_from(g, i + 1, false, depth)
        } else if c == '\\' {
            (if esc { seq!['\\', '\\'] } else { seq![] }) + regex_text_from(g, i + 1, !esc, depth)
        } else {
            seq![c] + regex_text_from(g, i + 1, false, depth)
        }
    }
}

/// The regex text that a glob compiles to. A lone `*` matches any non-empty string.
pub open spec fn glob_regex(g: Seq<char>) -> Seq<char> {
    if g == seq!['*'] {
        seq!['.', '+']
    } else {
        regex_text_from(g, 0, false, 0)
    }
}

/// The pattern actually handed to the engine: the regex anchored at both ends,
/// so that it must match the whole subject.
pub open spec fn anchored(p: Seq<char>) -> Seq<char> {
    seq!['\\', 'A', '(', '?', ':'] + p + seq![')', '\\', 'z']
}

/// Whether the subject `s` matches the glob `g` as a whole.
pub open spec fn glob_matches(g: Seq<char>, s: Seq<char>) -> bool {
    pcre_match(anchored(glob_regex(g)), s)
}

/// Relies on `String::push`: appends one character.
#[verifier::external_body]
pub(crate) fn push_char(s: &mut String, c: char)
    ensures
        final(s)@ == old(s)@.push(c),
{
    s.push(c)
}

/// Relies on `str::chars`: the characters of the string, in order.
#[verifier::external_body]
pub(crate) fn chars_of(s: &str) -> (r: Vec<char>)
    ensures
        r@ == s@,
{
    s.chars().collect()
}

fn push_all(out: &mut String, text: &str)
    ensures
        final(out)@ == old(out)@ + text@,
{
    out.append(text);
}

/// Translates a glob into the text of an (unanchored) regular expression.
///
/// `*` matches within a segment (`[^:]*`), `?` one character of a segment,
/// `:**` crosses segments, `{a,b}` is an alternation, regex operators are
/// escaped, and a backslash makes the next glob operator literal.
pub fn glob_to_pattern(glob: &str) -> (r: String)
    ensures
        r@ == glob_regex(glob@),
{
    let g = chars_of(glob);
    let n = g.len();
    if n == 1 && g[0] == '*' {
        let mut out = String::new();
        push_char(&mut out, '.');
        push_char(&mut out, '+');
        proof {
            assert(glob@ =~= seq!['*']);
            assert(out@ =~= seq!['.', '+']);
        }
        return out;
    }
    let mut out = String::new();
    let mut i: usize = 0;
    let mut esc = false;
    let mut depth: usize = 0;
    while i < n
        invariant
            g@ == glob@,
            n == g@.len(),
            i <= n,
            depth <= i,
            out@ + regex_text_from(g@, i as int, esc, depth as nat) == regex_text_from(g@, 0, false, 0),
        decreases n - i,
    {
        let c = g[i];
        let ghost before = out@;
        let ghost rest = regex_text_from(g@, i as int, esc, depth as nat);
        if c == ':' && n >= 2 && i < n - 2 && g[i + 1] == '*' && g[i + 2] == '*' {
            push_char(&mut out, '.');
            push_char(&mut out, '*');
            proof {
                assert(rest == seq!['.', '*'] + regex_text_from(g@, i + 3, esc, depth as nat));
                assert(out@ =~= before + seq!['.', '*']);
                assert(out@ + regex_text_from(g@, i + 3, esc, depth as nat) =~= before + rest);
            }
            i = i + 3;
        } else if c == '.' || c == '(' || c == ')' || c == '|' || c == '+' || c == '^' || c == '$' {
            push_char(&mut out, '\\');
            push_char(&mut out, c);
            proof {
                assert(out@ + regex_text_from(g@, i + 1, false, depth as nat) =~= before + rest);
            }
            esc = false;
            i = i + 1;
        } else if c == '*' {
            if esc {
                push_all(&mut out, "\\*");
                proof { reveal_strlit("\\*"); }
            } else {
                push_all(&mut out, "[^:]*");
                proof { reveal_strlit("[^:]*"); }
            }
            proof {
                assert(out@ + regex_text_from(g@, i + 1, false, depth as nat) =~= before + rest);
            }
            esc = false;
            i = i + 1;
        } else if c == '?' {
            if esc {
                push_all(&mut out, "\\?");
                proof { reveal_strlit("\\?"); }
            } else {
                push_all(&mut out, "[^:]");
                proof { reveal_strlit("[^:]"); }
            }
            proof {
                assert(out@ + regex_text_from(g@, i + 1, false, depth as nat) =~= before + rest);
            }
            esc = false;
            i = i + 1;
        } else if c == '{' {
            if esc {
                push_char(&mut out, '\\');
                push_char(&mut out, '{');
                proof {
                    assert(out@ + regex_text_from(g@, i + 1, false, depth as nat) =~= before + rest);
                }
            } else {
                push_char(&mut out, '(');
                proof {
                    assert(out@ + regex_text_from(g@, i + 1, false, (depth + 1) as nat) =~= before + rest);
                }
                depth = depth + 1;
            }
            esc = false;
            i = i + 1;
        } else if c == '}' && depth > 0 {
            if esc {
                push_char(&mut out, '}');
                proof {
                    assert(out@ + regex_text_from(g@, i + 1, false, depth as nat) =~= before + rest);
                }
            } else {
                push_char(&mut out, ')');
                proof {
                    assert(out@ + regex_text_from(g@, i + 1, false, (depth - 1) as nat) =~= before + rest);
                }
                depth = depth - 1;
            }
            esc = false;
            i = i + 1;
        } else if c == ',' && depth > 0 {
            if esc {
                push_char(&mut out, ',');
            } else {
                push_char(&mut out, '|');
            }
            proof {
                assert(out@ + regex_text_from(g@, i + 1, false, depth as nat) =~= before + rest);
            }
            esc = false;
            i = i + 1;
        } else if c == '\\' {
            if esc {
                push_char(&mut out, '\\');
                push_char(&mut out, '\\');
            }
            proof {
                assert(out@ + regex_text_from(g@, i + 1, !esc, depth as nat) =~= before + rest);
            }
            esc = !esc;
            i = i + 1;
        } else {
            push_char(&mut out, c);
            proof {
                assert(out@ + regex_text_from(g@, i + 1, false, depth as nat) =~= before + rest);
            }
            esc = false;
            i = i + 1;
        }
    }
    proof {
        assert(out@ =~= out@ + regex_text_from(g@, i as int, esc, depth as nat));
        if glob@ == seq!['*'] {
            assert(g@.len() == 1 && g@[0] == '*');
        }
    }
    out
}

/// A glob together with its compiled form. The regex is always the one built
/// from the anchored translation of `glob`.
#[derive(Debug)]
pub struct GlobRegex {
    glob: String,
    pattern: String,
    regex: pcre2::bytes::Regex,
}

impl GlobRegex {
    /// The glob this regex was compiled from.
    pub closed spec fn spec_glob(&self) -> Seq<char> {
        self.glob@
    }

    /// The regex text (unanchored) of this compiled glob.
    pub closed spec fn spec_pattern(&self) -> Seq<char> {
        self.pattern@
    }

    pub closed spec fn wf(&self) -> bool {
        &&& self.pattern@ == glob_regex(self.glob@)
        &&& pcre_accepts(anchored(self.pattern@))
    }

    /// A well-formed compiled glob comes from a glob that pcre2 accepts.
    pub proof fn lemma_wf_accepted(&self)
        requires
            self.wf(),
        ensures
            pcre_accepts(anchored(glob_regex(self.spec_glob()))),
    {
    }

    /// The regex text, without the anchors that matching adds.
    pub fn as_str(&self) -> (r: &str)
        ensures
            r@ == self.spec_pattern(),
    {
        self.pattern.as_str()
    }

    /// The glob this regex was compiled from.
    pub fn glob(&self) -> (r: &str)
        ensures
            r@ == self.spec_glob(),
    {
        self.glob.as_str()
    }

    /// Whether `subject` matches the glob as a whole.
    pub fn is_match(&self, subject: &str) -> (r: bool)
        requires
            self.wf(),
        ensures
            r == glob_matches(self.spec_glob(), subject@),
    {
        regex_is_match(&self.regex, &self.pattern, subject)
    }

    pub fn clone(&self) -> (r: Self)
        ensures
            r.spec_glob() == self.spec_glob(),
            r.spec_pattern() == self.spec_pattern(),
            r.wf() == self.wf(),
    {
        GlobRegex { glob: self.glob.clone(), pattern: self.pattern.clone(), regex: clone_regex(&self.regex) }
    }
}

/// Relies on `RegexBuilder::build` of pcre2 (with JIT where available): the regex
/// is built exactly when pcre2 accepts the pattern.
#[verifier::external_body]
fn build_regex(pattern: &str) -> (r: Option<pcre2::bytes::Regex>)
    ensures
        r is Some <==> pcre_accepts(pattern@),
{
    pcre2::bytes::RegexBuilder::new().jit_if_available(true).build(pattern).ok()
}

/// Relies on `Regex::is_match` of pcre2; a matching error is read as no match.
/// `regex` is the one that `build_regex` built from the anchored form of `pattern`:
/// `GlobRegex` keeps the two together, and only `from_string` creates one.
#[verifier::external_body]
fn regex_is_match(regex: &pcre2::bytes::Regex, pattern: &String, subject: &str) -> (r: bool)
    ensures
        r == pcre_match(anchored(pattern@), subject@),
{
    regex.is_match(subject.as_bytes()).unwrap_or(false)
}

/// Relies on `Clone` of pcre2's `Regex`: a regex of the same pattern.
#[verifier::external_body]
fn clone_regex(regex: &pcre2::bytes::Regex) -> pcre2::bytes::Regex {
    regex.clone()
}

/// Compiles a glob into a regex that matches whole strings.
///
/// Fails where the translated glob is not a regex that pcre2 accepts
/// (an unbalanced curly brace, for example).
pub fn from_string(glob: String) -> (r: Result<GlobRegex, err::Error>)
    ensures
        r is Ok <==> pcre_accepts(anchored(glob_regex(glob@))),
        r is Ok ==> r->Ok_0.wf() && r->Ok_0.spec_glob() == glob@,
        r is Ok ==> r->Ok_0.spec_pattern() == glob_regex(glob@),
        r is Err ==> r->Err_0.spec_kind() == err::ErrorKind::UnknownError,
{
    let pattern = glob_to_pattern(glob.as_str());
    let mut full = String::from_str("\\A(?:");
    full.append(pattern.as_str());
    full.append(")\\z");
    proof {
        reveal_strlit("\\A(?:");
        reveal_strlit(")\\z");
        assert(full@ =~= anchored(pattern@));
    }
    match build_regex(full.as_str()) {
        Some(regex) => {
            proof {
                assert(full@ == anchored(pattern@));
            }
            Ok(GlobRegex { glob, pattern, regex })
        },
        None => Err(err::Error::other("Invalid regex built from glob")),
    }
}

/// Compiles a glob given as a string slice; see `from_string`.
pub fn from_str(glob: &str) -> (r: Result<GlobRegex, err::Error>)
    ensures
        r is Ok <==> pcre_accepts(anchored(glob_regex(glob@))),
        r is Ok ==> r->Ok_0.wf() && r->Ok_0.spec_glob() == glob@,
        r is Ok ==> r->Ok_0.spec_pattern() == glob_regex(glob@),
        r is Err ==> r->Err_0.spec_kind() == err::ErrorKind::UnknownError,
{
    from_string(String::from_str(glob))
}

/// Compiling a glob twice gives the same regex text, so the two compiled forms match
/// exactly the same strings.
pub proof fn lemma_compile_deterministic(a: GlobRegex, b: GlobRegex, s: Seq<char>)
    requires
        a.wf(),
        b.wf(),
        a.spec_glob() == b.spec_glob(),
    ensures
        a.spec_pattern() == b.spec_pattern(),
        glob_matches(a.spec_glob(), s) == glob_matches(b.spec_glob(), s),
{
}

} // verus!
