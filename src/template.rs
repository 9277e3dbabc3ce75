//! A text-substitution helper: templates with `{{ name }}` placeholders.
use vstd::prelude::*;
use crate::text::{chars_of, is_whitespace, is_ws, push_all, string_of};
use crate::types::{parse_error_message, HttpParseError};

verus! {

/// A piece of a template: literal text, or the name of a variable.
#[derive(Debug, Clone, PartialEq)]
pub enum TemplateComponent {
    TemplatePart(String),
    InputPart(String),
}

/// What a template piece holds, as a mathematical value.
pub enum Piece {
    Text(Seq<char>),
    Var(Seq<char>),
}

impl View for TemplateComponent {
    type V = Piece;

    open spec fn view(&self) -> Piece {
        match self {
            TemplateComponent::TemplatePart(s) => Piece::Text(s@),
            TemplateComponent::InputPart(s) => Piece::Var(s@),
        }
    }
}

/// A parsed template.
#[derive(Debug, Clone, PartialEq)]
pub struct Template {
    pub template: Vec<TemplateComponent>,
}

impl View for Template {
    type V = Seq<Piece>;

    open spec fn view(&self) -> Seq<Piece> {
        self.template@.map_values(|c: TemplateComponent| c@)
    }
}

/// Why a template could not be read, parsed or filled in.
#[derive(Debug, Clone, PartialEq)]
pub enum TemplateError {
    NonexistentPath(String),
    ReadErr(String),
    InvalidChar(char),
    EmptyVariableName,
    UnexpectedEof,
    UnterminatedBraces,
    MissingVariable(String),
}

/// An error of this library.
#[derive(Debug, Clone, PartialEq)]
pub enum RebarError {
    ParseError(HttpParseError),
    TemplateError(TemplateError),
}

/// The quoted and escaped form in which `Debug` shows a text.
pub uninterp spec fn debug_text(s: Seq<char>) -> Seq<char>;

/// Relies on `<str as Debug>::fmt`: the quoted, escaped form of a text,
/// which depends on the text alone.
#[verifier::external_body]
fn quoted(s: &str) -> (r: String)
    ensures
        r@ == debug_text(s@),
{
    format!("{:?}", s)
}

/// The message that describes a template error.
pub open spec fn template_error_message(e: TemplateError) -> Seq<char> {
    match e {
        TemplateError::NonexistentPath(p) => "Path "@ + debug_text(p@)
            + " either doesnt exist or is a directory"@,
        TemplateError::ReadErr(m) => m@,
        TemplateError::InvalidChar(c) => "Unexpected char '"@ + seq![c] + "'"@,
        TemplateError::EmptyVariableName => "Cannot have empty variable name"@,
        TemplateError::UnexpectedEof => "Unexpected end of input"@,
        TemplateError::UnterminatedBraces => "Unterminated '{{'"@,
        TemplateError::MissingVariable(v) => "Missing variable `"@ + v@ + "`"@,
    }
}

/// Appends the characters of a text.
fn push_text(s: &mut String, t: &str)
    ensures
        final(s)@ == old(s)@ + t@,
{
    let v = chars_of(t);
    push_all(s, &v);
}

impl TemplateError {
    /// A message that describes this error.
    pub fn message(&self) -> (r: String)
        ensures
            r@ == template_error_message(*self),
    {
        match self {
            TemplateError::NonexistentPath(p) => {
                let mut s = "Path ".to_owned();
                push_text(&mut s, quoted(p.as_str()).as_str());
                push_text(&mut s, " either doesnt exist or is a directory");
                s
            },
            TemplateError::ReadErr(m) => m.clone(),
            TemplateError::InvalidChar(c) => {
                let mut s = "Unexpected char '".to_owned();
                push_all(&mut s, &vec![*c]);
                push_text(&mut s, "'");
                s
            },
            TemplateError::EmptyVariableName => "Cannot have empty variable name".to_owned(),
            TemplateError::UnexpectedEof => "Unexpected end of input".to_owned(),
            TemplateError::UnterminatedBraces => "Unterminated '{{'".to_owned(),
            TemplateError::MissingVariable(v) => {
                let mut s = "Missing variable `".to_owned();
                push_text(&mut s, v.as_str());
                push_text(&mut s, "`");
                s
            },
        }
    }
}

impl RebarError {
    /// A message that describes this error.
    pub fn message(&self) -> (r: String)
        ensures
            r@ == match *self {
                RebarError::ParseError(e) => parse_error_message(e),
                RebarError::TemplateError(e) => template_error_message(e),
            },
    {
        match self {
            RebarError::ParseError(e) => e.message(),
            RebarError::TemplateError(e) => e.message(),
        }
    }
}

/// Whether a character has the Unicode `Alphabetic` property.
pub uninterp spec fn alphabetic(c: char) -> bool;

/// Relies on `char::is_alphabetic`: whether `c` has the Unicode `Alphabetic`
/// property, which depends on the character alone.
#[verifier::external_body]
fn is_alphabetic(c: char) -> (r: bool)
    ensures
        r == alphabetic(c),
{
    c.is_alphabetic()
}

/// Adds the pending text to the pieces, unless it is empty.
pub open spec fn flush_text(out: Seq<Piece>, cur: Seq<char>) -> Seq<Piece> {
    if cur.len() > 0 {
        out.push(Piece::Text(cur))
    } else {
        out
    }
}

/// The pieces of template text `s`, whose characters are flagged alphabetic
/// or not by `alpha`, read from position `i` on, in text mode
/// (`text`) or inside a placeholder, with `cur` the pending text or name and
/// `out` the pieces read so far.
///
/// In text mode, `{{` opens a placeholder unless the pending text ends with
/// `\`, which is then replaced by the `{`; `{` followed by any other
/// character keeps both. Inside a placeholder, letters and `_` make up the
/// name, whitespace is skipped, `}}` closes it, and anything else is an error.
pub open spec fn scan(
    s: Seq<char>,
    alpha: Seq<bool>,
    i: int,
    text: bool,
    cur: Seq<char>,
    out: Seq<Piece>,
) -> Result<
    Seq<Piece>,
    TemplateError,
>
    decreases s.len() - i,
{
    if i < 0 || i >= s.len() {
        if text {
            Ok(flush_text(out, cur))
        } else {
            Err(TemplateError::UnterminatedBraces)
        }
    } else {
        let c = s[i];
        let has_next = i + 1 < s.len();
        if c == '{' {
            if !text {
                Err(TemplateError::InvalidChar('{'))
            } else if !has_next {
                scan(s, alpha, i + 1, true, cur.push('{'), out)
            } else if s[i + 1] == '{' {
                if cur.len() > 0 && cur.last() == '\\' {
                    scan(s, alpha, i + 1, true, cur.drop_last().push('{'), out)
                } else {
                    scan(s, alpha, i + 2, false, Seq::empty(), flush_text(out, cur))
                }
            } else {
                scan(s, alpha, i + 2, true, cur.push('{').push(s[i + 1]), out)
            }
        } else if c == '}' {
            if text {
                scan(s, alpha, i + 1, true, cur.push('}'), out)
            } else if !has_next {
                Err(TemplateError::UnexpectedEof)
            } else if s[i + 1] == '}' {
                if cur.len() == 0 {
                    Err(TemplateError::EmptyVariableName)
                } else {
                    scan(s, alpha, i + 2, true, Seq::empty(), out.push(Piece::Var(cur)))
                }
            } else {
                Err(TemplateError::InvalidChar('{'))
            }
        } else if (i < alpha.len() && alpha[i]) || c == '_' || text {
            scan(s, alpha, i + 1, text, cur.push(c), out)
        } else if is_ws(c) {
            scan(s, alpha, i + 1, false, cur, out)
        } else {
            Err(TemplateError::InvalidChar(c))
        }
    }
}

/// Which characters of a text are alphabetic.
pub open spec fn alphabetic_flags(s: Seq<char>) -> Seq<bool> {
    s.map_values(|c: char| alphabetic(c))
}

/// The pieces of a template text whose characters `alpha` flags alphabetic
/// or not.
pub open spec fn template_with(s: Seq<char>, alpha: Seq<bool>) -> Result<Seq<Piece>, TemplateError> {
    scan(s, alpha, 0, true, Seq::empty(), Seq::empty())
}

/// The pieces of a template text.
pub open spec fn template_of(s: Seq<char>) -> Result<Seq<Piece>, TemplateError> {
    template_with(s, alphabetic_flags(s))
}

/// The value bound last to `name` in a list of name/value pairs.
pub open spec fn lookup(vars: Seq<(Seq<char>, Seq<char>)>, name: Seq<char>) -> Option<Seq<char>>
    decreases vars.len(),
{
    if vars.len() == 0 {
        None
    } else if vars.last().0 == name {
        Some(vars.last().1)
    } else {
        lookup(vars.drop_last(), name)
    }
}

/// The HTML escape of one character.
pub open spec fn escape(c: char) -> Seq<char> {
    if c == '&' {
        seq!['&', 'a', 'm', 'p', ';']
    } else if c == '>' {
        seq!['&', 'g', 't', ';']
    } else if c == '<' {
        seq!['&', 'l', 't', ';']
    } else if c == '"' {
        seq!['&', 'q', 'u', 'o', 't', ';']
    } else if c == '\'' {
        seq!['&', '#', '3', '9', ';']
    } else if c == '(' {
        seq!['&', '#', '4', '0', ';']
    } else if c == ')' {
        seq!['&', '#', '4', '1', ';']
    } else {
        seq![c]
    }
}

/// A text with each of `& > < " ' ( )` replaced by its HTML escape.
pub open spec fn sanitized(s: Seq<char>) -> Seq<char>
    decreases s.len(),
{
    if s.len() == 0 {
        Seq::empty()
    } else {
        sanitized(s.drop_last()) + escape(s.last())
    }
}

/// The text of pieces `i..` of a template appended to `acc`, with each
/// variable replaced by its value (escaped where `esc`), or else the name of
/// the first variable that has no value.
pub open spec fn fill(
    ps: Seq<Piece>,
    i: int,
    vars: Seq<(Seq<char>, Seq<char>)>,
    esc: bool,
    acc: Seq<char>,
) -> Result<Seq<char>, Seq<char>>
    decreases ps.len() - i,
{
    if i < 0 || i >= ps.len() {
        Ok(acc)
    } else {
        match ps[i] {
            Piece::Text(t) => fill(ps, i + 1, vars, esc, acc + t),
            Piece::Var(n) => match lookup(vars, n) {
                None => Err(n),
                Some(v) => fill(ps, i + 1, vars, esc, acc + if esc { sanitized(v) } else { v }),
            },
        }
    }
}

/// The name/value pairs as mathematical values.
pub open spec fn vars_view(vars: Seq<(String, String)>) -> Seq<(Seq<char>, Seq<char>)> {
    vars.map_values(|p: (String, String)| (p.0@, p.1@))
}

/// The value bound last to `name`.
fn lookup_in<'a>(vars: &'a Vec<(String, String)>, name: &String) -> (r: Option<&'a String>)
    ensures
        match r {
            Some(v) => lookup(vars_view(vars@), name@) == Some(v@),
            None => lookup(vars_view(vars@), name@) is None,
        },
{
    let ghost vv = vars_view(vars@);
    let mut i: usize = vars.len();
    assert(vv.subrange(0, i as int) =~= vv);
    while i > 0
        invariant
            i <= vars@.len(),
            vv == vars_view(vars@),
            lookup(vv, name@) == lookup(vv.subrange(0, i as int), name@),
        decreases i,
    {
        assert(vv[i - 1] == (vars@[i - 1].0@, vars@[i - 1].1@));
        assert(vv.subrange(0, i as int).drop_last() =~= vv.subrange(0, i - 1));
        if vars[i - 1].0 == *name {
            return Some(&vars[i - 1].1);
        }
        i = i - 1;
    }
    None
}

/// The HTML escape of one character, as characters.
fn escape_chars(c: char) -> (r: Vec<char>)
    ensures
        r@ == escape(c),
{
    let r = if c == '&' {
        vec!['&', 'a', 'm', 'p', ';']
    } else if c == '>' {
        vec!['&', 'g', 't', ';']
    } else if c == '<' {
        vec!['&', 'l', 't', ';']
    } else if c == '"' {
        vec!['&', 'q', 'u', 'o', 't', ';']
    } else if c == '\'' {
        vec!['&', '#', '3', '9', ';']
    } else if c == '(' {
        vec!['&', '#', '4', '0', ';']
    } else if c == ')' {
        vec!['&', '#', '4', '1', ';']
    } else {
        vec![c]
    };
    assert(r@ =~= escape(c));
    r
}

impl Template {
    /// The text with each of `& > < " ' ( )` replaced by its HTML escape.
    pub fn sanitize(input: &str) -> (r: String)
        ensures
            r@ == sanitized(input@),
    {
        let v = chars_of(input);
        let mut out = String::new();
        let mut i: usize = 0;
        while i < v.len()
            invariant
                i <= v@.len(),
                v@ == input@,
                out@ == sanitized(v@.subrange(0, i as int)),
            decreases v@.len() - i,
        {
            assert(v@.subrange(0, i + 1).drop_last() =~= v@.subrange(0, i as int));
            push_all(&mut out, &escape_chars(v[i]));
            i = i + 1;
        }
        assert(v@.subrange(0, v@.len() as int) =~= v@);
        out
    }

    /// The template's text with each variable replaced by its value, escaped
    /// where `esc`.
    fn fill_in(&self, vars: &Vec<(String, String)>, esc: bool) -> (r: Result<String, RebarError>)
        ensures
            match fill(self@, 0, vars_view(vars@), esc, Seq::empty()) {
                Ok(t) => r matches Ok(s) && s@ == t,
                Err(n) => r matches Err(RebarError::TemplateError(TemplateError::MissingVariable(m))) && m@ == n,
            },
    {
        let mut out = String::new();
        let mut i: usize = 0;
        while i < self.template.len()
            invariant
                i <= self@.len(),
                self@.len() == self.template@.len(),
                fill(self@, 0, vars_view(vars@), esc, Seq::empty()) == fill(self@, i as int, vars_view(vars@), esc, out@),
            decreases self@.len() - i,
        {
            assert(self@[i as int] == self.template@[i as int]@);
            match &self.template[i] {
                TemplateComponent::TemplatePart(t) => {
                    let tv = chars_of(t.as_str());
                    push_all(&mut out, &tv);
                },
                TemplateComponent::InputPart(name) => {
                    match lookup_in(vars, name) {
                        Some(value) => {
                            if esc {
                                let sv = chars_of(Template::sanitize(value.as_str()).as_str());
                                push_all(&mut out, &sv);
                            } else {
                                let vv = chars_of(value.as_str());
                                push_all(&mut out, &vv);
                            }
                        },
                        None => {
                            return Err(RebarError::TemplateError(TemplateError::MissingVariable(name.clone())));
                        },
                    }
                },
            }
            i = i + 1;
        }
        Ok(out)
    }

    /// The template's text with each variable replaced by its HTML-escaped
    /// value; the pair given last for a name is the one used.
    pub fn soak(&self, vars: &Vec<(String, String)>) -> (r: Result<String, RebarError>)
        ensures
            match fill(self@, 0, vars_view(vars@), true, Seq::empty()) {
                Ok(t) => r matches Ok(s) && s@ == t,
                Err(n) => r matches Err(RebarError::TemplateError(TemplateError::MissingVariable(m))) && m@ == n,
            },
    {
        self.fill_in(vars, true)
    }

    /// The template's text with each variable replaced by its value as it
    /// is; the pair given last for a name is the one used.
    pub fn soak_raw(&self, vars: &Vec<(String, String)>) -> (r: Result<String, RebarError>)
        ensures
            match fill(self@, 0, vars_view(vars@), false, Seq::empty()) {
                Ok(t) => r matches Ok(s) && s@ == t,
                Err(n) => r matches Err(RebarError::TemplateError(TemplateError::MissingVariable(m))) && m@ == n,
            },
    {
        self.fill_in(vars, false)
    }

    /// Parses a template text.
    pub fn create_from_string(content: &str) -> (r: Result<Template, RebarError>)
        ensures
            match r {
                Ok(t) => template_of(content@) == Ok::<Seq<Piece>, TemplateError>(t@),
                Err(e) => exists|te: TemplateError|
                    e == RebarError::TemplateError(te) && template_of(content@) == Err::<
                        Seq<Piece>,
                        TemplateError,
                    >(te),
            },
    {
        let s = chars_of(content);
        let mut alpha: Vec<bool> = Vec::new();
        let mut i: usize = 0;
        while i < s.len()
            invariant
                i <= s@.len(),
                alpha@ == alphabetic_flags(s@).subrange(0, i as int),
            decreases s@.len() - i,
        {
            alpha.push(is_alphabetic(s[i]));
            assert(alpha@ =~= alphabetic_flags(s@).subrange(0, i + 1));
            i = i + 1;
        }
        assert(alpha@ =~= alphabetic_flags(s@));
        Self::parse_template_with(content, &alpha)
    }

    /// Parses a template text whose characters `alpha` flags, one by one, as
    /// alphabetic or not.
    pub fn parse_template_with(content: &str, alpha: &Vec<bool>) -> (r: Result<Template, RebarError>)
        requires
            alpha@.len() == content@.len(),
        ensures
            match r {
                Ok(t) => template_with(content@, alpha@) == Ok::<Seq<Piece>, TemplateError>(t@),
                Err(e) => exists|te: TemplateError|
                    e == RebarError::TemplateError(te) && template_with(content@, alpha@) == Err::<
                        Seq<Piece>,
                        TemplateError,
                    >(te),
            },
    {
        match Self::parse_pieces(content, alpha) {
            Ok(template) => Ok(Template { template }),
            Err(e) => Err(RebarError::TemplateError(e)),
        }
    }

    /// The pieces of a template text.
    fn parse_pieces(content: &str, alpha: &Vec<bool>) -> (r: Result<Vec<TemplateComponent>, TemplateError>)
        requires
            alpha@.len() == content@.len(),
        ensures
            match r {
                Ok(v) => template_with(content@, alpha@) == Ok::<Seq<Piece>, TemplateError>(
                    v@.map_values(|c: TemplateComponent| c@),
                ),
                Err(e) => template_with(content@, alpha@) == Err::<Seq<Piece>, TemplateError>(e),
            },
    {
        let s = chars_of(content);
        let n = s.len();
        let mut out: Vec<TemplateComponent> = Vec::new();
        let mut cur: Vec<char> = Vec::new();
        let mut text = true;
        let mut i: usize = 0;
        assert(out@.map_values(|c: TemplateComponent| c@) =~= Seq::<Piece>::empty());
        assert(cur@ =~= Seq::<char>::empty());
        while i < n
            invariant
                n == s@.len(),
                s@ == content@,
                i <= n,
                alpha@.len() == n,
                template_with(s@, alpha@) == scan(
                    s@,
                    alpha@,
                    i as int,
                    text,
                    cur@,
                    out@.map_values(|c: TemplateComponent| c@),
                ),
            decreases n - i,
        {
            let ghost outv = out@.map_values(|c: TemplateComponent| c@);
            let c = s[i];
            let has_next = i + 1 < n;
            if c == '{' {
                if !text {
                    return Err(TemplateError::InvalidChar('{'));
                } else if !has_next {
                    cur.push('{');
                    i = i + 1;
                } else if s[i + 1] == '{' {
                    if cur.len() > 0 && cur[cur.len() - 1] == '\\' {
                        cur.pop();
                        cur.push('{');
                        i = i + 1;
                    } else {
                        if cur.len() > 0 {
                            out.push(TemplateComponent::TemplatePart(string_of(&cur, 0, cur.len())));
                            assert(cur@.subrange(0, cur@.len() as int) =~= cur@);
                        }
                        assert(out@.map_values(|c: TemplateComponent| c@) =~= flush_text(outv, cur@));
                        cur = Vec::new();
                        text = false;
                        i = i + 2;
                    }
                } else {
                    cur.push('{');
                    cur.push(s[i + 1]);
                    i = i + 2;
                }
            } else if c == '}' {
                if text {
                    cur.push('}');
                    i = i + 1;
                } else if !has_next {
                    return Err(TemplateError::UnexpectedEof);
                } else if s[i + 1] == '}' {
                    if cur.len() == 0 {
                        return Err(TemplateError::EmptyVariableName);
                    }
                    out.push(TemplateComponent::InputPart(string_of(&cur, 0, cur.len())));
                    assert(cur@.subrange(0, cur@.len() as int) =~= cur@);
                    assert(out@.map_values(|c: TemplateComponent| c@) =~= outv.push(Piece::Var(cur@)));
                    cur = Vec::new();
                    text = true;
                    i = i + 2;
                } else {
                    return Err(TemplateError::InvalidChar('{'));
                }
            } else if alpha[i] || c == '_' || text {
                cur.push(c);
                i = i + 1;
            } else if is_whitespace(c) {
                i = i + 1;
            } else {
                return Err(TemplateError::InvalidChar(c));
            }
        }
        if !text {
            return Err(TemplateError::UnterminatedBraces);
        }
        let ghost outv = out@.map_values(|c: TemplateComponent| c@);
        if cur.len() > 0 {
            out.push(TemplateComponent::TemplatePart(string_of(&cur, 0, cur.len())));
            assert(cur@.subrange(0, cur@.len() as int) =~= cur@);
        }
        assert(out@.map_values(|c: TemplateComponent| c@) =~= flush_text(outv, cur@));
        Ok(out)
    }
}

} // verus!
