//! Substitution of `{{ name }}` placeholders.

use vstd::prelude::*;
use crate::context::Context;
use crate::text::{chars_of, owned, push_str, string_of, trim, trim_bounds};

verus! {

/// Error of template rendering.
#[derive(Debug, PartialEq, Eq)]
pub enum TemplateError {
    /// A placeholder names a variable that the context lacks.
    VariableNotFound(String),
    /// A placeholder is opened and never closed.
    SyntaxError(String),
    /// The template cannot be handled.
    InvalidTemplate(String),
}

impl TemplateError {
    /// Human-readable text of the error.
    pub fn message(&self) -> (r: String)
        ensures
            r@ == match self {
                TemplateError::VariableNotFound(v) => "Variable not found: "@ + v@,
                TemplateError::SyntaxError(m) => "Template syntax error: "@ + m@,
                TemplateError::InvalidTemplate(m) => "Invalid template: "@ + m@,
            },
    {
        let (head, tail) = match self {
            TemplateError::VariableNotFound(v) => (owned("Variable not found: "), v),
            TemplateError::SyntaxError(m) => (owned("Template syntax error: "), m),
            TemplateError::InvalidTemplate(m) => (owned("Invalid template: "), m),
        };
        let mut s = head;
        push_str(&mut s, tail.as_str());
        s
    }
}

/// What rendering a template yields.
pub enum Rendered {
    Text(Seq<char>),
    Unclosed,
    Missing(Seq<char>),
}

/// `p` put in front of the text of `r`; failures pass through.
pub open spec fn prepend(p: Seq<char>, r: Rendered) -> Rendered {
    match r {
        Rendered::Text(x) => Rendered::Text(p + x),
        other => other,
    }
}

/// Position of the first `}}` at or after `j`.
pub open spec fn close_at(t: Seq<char>, j: int) -> Option<int>
    decreases t.len() - j,
{
    if j < 0 || j + 1 >= t.len() {
        None
    } else if t[j] == '}' && t[j + 1] == '}' {
        Some(j)
    } else {
        close_at(t, j + 1)
    }
}

/// Rendering of `t[i..]`: `{{ name }}` becomes the value of the trimmed name.
pub open spec fn render_from(t: Seq<char>, i: int, ctx: Map<Seq<char>, Seq<char>>) -> Rendered
    decreases t.len() - i,
{
    if i < 0 || i >= t.len() {
        Rendered::Text(Seq::empty())
    } else if t[i] == '{' && i + 1 < t.len() && t[i + 1] == '{' {
        match close_at(t, i + 2) {
            None => Rendered::Unclosed,
            Some(k) => {
                if k < i + 2 || k + 2 > t.len() {
                    Rendered::Unclosed
                } else {
                    let name = trim(t.subrange(i + 2, k));
                    if ctx.contains_key(name) {
                        prepend(ctx[name], render_from(t, k + 2, ctx))
                    } else {
                        Rendered::Missing(name)
                    }
                }
            },
        }
    } else {
        prepend(seq![t[i]], render_from(t, i + 1, ctx))
    }
}

/// Rendering of a whole template against a variable mapping.
pub open spec fn render_spec(t: Seq<char>, ctx: Map<Seq<char>, Seq<char>>) -> Rendered {
    render_from(t, 0, ctx)
}

/// Whether `r` is the exec result that the rendering `out` describes.
pub open spec fn render_matches(r: Result<String, TemplateError>, out: Rendered) -> bool {
    match r {
        Ok(s) => out == Rendered::Text(s@),
        Err(TemplateError::VariableNotFound(n)) => out == Rendered::Missing(n@),
        Err(TemplateError::SyntaxError(m)) => out == Rendered::Unclosed && m@
            == "Unclosed variable"@,
        Err(TemplateError::InvalidTemplate(_)) => false,
    }
}

proof fn lemma_close_at_bounds(t: Seq<char>, j: int)
    ensures
        close_at(t, j) matches Some(k) ==> j <= k && k + 1 < t.len() && t[k] == '}' && t[k + 1]
            == '}',
    decreases t.len() - j,
{
    if j < 0 || j + 1 >= t.len() {
    } else if t[j] == '}' && t[j + 1] == '}' {
    } else {
        lemma_close_at_bounds(t, j + 1);
    }
}

proof fn lemma_prepend_twice(a: Seq<char>, b: Seq<char>, r: Rendered)
    ensures
        prepend(a, prepend(b, r)) == prepend(a + b, r),
{
    match r {
        Rendered::Text(x) => {
            assert(a + (b + x) =~= (a + b) + x);
        },
        _ => {},
    }
}

/// Renders `{{ name }}` placeholders.
#[derive(Debug, Default)]
pub struct TemplateEngine {}

impl TemplateEngine {
    pub fn new() -> (r: TemplateEngine) {
        TemplateEngine {  }
    }

    /// Replaces each `{{ name }}` with the value of the trimmed name in `context`.
    /// A `{` not followed by `{` stays as it is.
    pub fn render(&self, template: &str, context: &Context) -> (r: Result<String, TemplateError>)
        ensures
            render_matches(r, render_spec(template@, context@)),
    {
        let t = chars_of(template);
        let n = t.len();
        let ghost ctx = context@;
        let mut out = String::new();
        let mut i: usize = 0;
        assert(out@ + Seq::<char>::empty() =~= Seq::<char>::empty());
        while i < n
            invariant
                n == t@.len(),
                t@ == template@,
                ctx == context@,
                i <= n,
                render_spec(t@, ctx) == prepend(out@, render_from(t@, i as int, ctx)),
            decreases n - i,
        {
            if t[i] == '{' && i + 1 < n && t[i + 1] == '{' {
                let (k, found) = self.extract_variable_name(&t, i + 2);
                if !found {
                    return Err(TemplateError::SyntaxError(owned("Unclosed variable")));
                }
                let (a, b) = trim_bounds(&t, i + 2, k);
                let name = string_of(&t, a, b);
                match context.get_variable(name.as_str()) {
                    Some(value) => {
                        proof {
                            lemma_prepend_twice(out@, value@, render_from(t@, k + 2, ctx));
                        }
                        assert(render_from(t@, i as int, ctx) == prepend(
                            value@,
                            render_from(t@, k + 2, ctx),
                        ));
                        push_str(&mut out, value.as_str());
                        i = k + 2;
                    },
                    None => {
                        return Err(TemplateError::VariableNotFound(name));
                    },
                }
            } else {
                proof {
                    lemma_prepend_twice(out@, seq![t@[i as int]], render_from(t@, i + 1, ctx));
                }
                let ghost before = out@;
                crate::text::push_char(&mut out, t[i]);
                assert(out@ =~= before + seq![t@[i as int]]);
                i = i + 1;
            }
        }
        assert(out@ + Seq::<char>::empty() =~= out@);
        Ok(out)
    }

    /// Finds the `}}` that closes a placeholder whose name starts at `start`;
    /// returns its position and whether it was found.
    fn extract_variable_name(&self, t: &Vec<char>, start: usize) -> (r: (usize, bool))
        requires
            start <= t@.len(),
        ensures
            r.1 ==> close_at(t@, start as int) == Some(r.0 as int) && start <= r.0 && r.0 + 2
                <= t@.len(),
            !r.1 ==> close_at(t@, start as int) is None,
    {
        let n = t.len();
        let mut j: usize = start;
        proof {
            lemma_close_at_bounds(t@, start as int);
        }
        while n - j >= 2
            invariant
                n == t@.len(),
                start <= j <= n,
                close_at(t@, start as int) == close_at(t@, j as int),
            decreases n - j,
        {
            if t[j] == '}' && t[j + 1] == '}' {
                return (j, true);
            }
            j = j + 1;
        }
        (j, false)
    }

    /// Rendering with conditionals and loops, which this engine does not offer.
    pub fn render_advanced(&self, template: &str, context: &Context) -> (r: Result<
        String,
        TemplateError,
    >)
        ensures
            r matches Err(TemplateError::InvalidTemplate(m)) && m@
                == "Advanced rendering not implemented yet"@,
    {
        Err(TemplateError::InvalidTemplate(owned("Advanced rendering not implemented yet")))
    }
}

} // verus!
