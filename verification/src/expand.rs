//! Template expansion for worktree paths and shell commands: branch-name
//! sanitizing, shell escaping, and Jinja-style template rendering.
//!
//! The rendering itself and the escaping are outside calls; each is named
//! by a spec function of its inputs, and `expand_template`'s contract is
//! exact over those names.

use vstd::prelude::*;
use vstd::string::*;

use crate::text;

verus! {

/// `s` with every path separator replaced by a dash.
pub open spec fn sanitized_spec(s: Seq<char>) -> Seq<char> {
    s.map_values(
        |c: char|
            if c == '/' || c == '\\' {
                '-'
            } else {
                c
            },
    )
}

/// Sanitize a branch name for use in filesystem paths.
///
/// Replaces path separators (`/` and `\`) with dashes, so the branch name
/// cannot traverse directories and stays a single path component.
pub fn sanitize_branch_name(branch: &str) -> (r: String)
    ensures
        r@ == sanitized_spec(branch@),
{
    let len = branch.unicode_len();
    let mut out = String::new();
    proof {
        assert(out@ =~= sanitized_spec(branch@.subrange(0, 0)));
    }
    let mut i: usize = 0;
    while i < len
        invariant
            0 <= i <= len,
            len == branch@.len(),
            out@ == sanitized_spec(branch@.subrange(0, i as int)),
        decreases len - i,
    {
        let c = branch.get_char(i);
        let mapped: char = if c == '/' || c == '\\' {
            '-'
        } else {
            c
        };
        text::push_char(&mut out, mapped);
        i = i + 1;
        proof {
            assert(branch@.subrange(0, i as int) =~= branch@.subrange(0, i - 1).push(
                branch@[i - 1],
            ));
            assert(out@ =~= sanitized_spec(branch@.subrange(0, i as int)));
        }
    }
    proof {
        assert(branch@.subrange(0, len as int) =~= branch@);
    }
    out
}

/// What shell escaping returns for a string: quoting and escaping for a
/// POSIX shell, a function of the characters alone.
pub uninterp spec fn shell_escaped(s: Seq<char>) -> Seq<char>;

/// Relies on `shell_escape::unix::escape`: the escaping is a pure function
/// of the string's characters.
#[verifier::external_body]
fn escape_value(s: &str) -> (r: String)
    ensures
        r@ == shell_escaped(s@),
{
    shell_escape::unix::escape(std::borrow::Cow::Borrowed(s)).into_owned()
}

/// What rendering produces for a template, a variable list, and the
/// trailing-newline flag: the output text, or the formatted error message.
/// With the default environment this is a function of these inputs alone.
pub uninterp spec fn rendered(
    template: Seq<char>,
    vars: Seq<(Seq<char>, Seq<char>)>,
    keep_trailing_newline: bool,
) -> Result<Seq<char>, Seq<char>>;

/// Relies on minijinja's `Environment::new`, `set_keep_trailing_newline`,
/// `template_from_str` and `Template::render`: with the default
/// environment (no custom filters or globals, and none of the
/// time/randomness add-ons), rendering is deterministic in the template
/// text, the variables, and the trailing-newline setting; the error arms
/// carry the formatted parse or render diagnostic.
#[verifier::external_body]
fn render_template(template: &str, vars: &Vec<(String, String)>, keep_trailing_newline: bool) -> (r:
    Result<String, String>)
    ensures
        match rendered(template@, vars.deep_view(), keep_trailing_newline) {
            Ok(v) => r matches Ok(s) && s@ == v,
            Err(v) => r matches Err(e) && e@ == v,
        },
{
    let mut env = minijinja::Environment::new();
    env.set_keep_trailing_newline(keep_trailing_newline);
    let ctx: std::collections::BTreeMap<String, String> = vars.iter().cloned().collect();
    match env.template_from_str(template) {
        Err(e) => Err(format!("Template syntax error: {}", e)),
        Ok(tmpl) => match tmpl.render(minijinja::Value::from_serialize(&ctx)) {
            Ok(s) => Ok(s),
            Err(e) => Err(format!("Template render error: {}", e)),
        },
    }
}

/// The context handed to rendering: each value shell-escaped when escaping
/// is on, else taken literally.
pub open spec fn context_of(vars: Seq<(Seq<char>, Seq<char>)>, shell_escape: bool) -> Seq<
    (Seq<char>, Seq<char>),
> {
    vars.map_values(
        |p: (Seq<char>, Seq<char>)|
            if shell_escape {
                (p.0, shell_escaped(p.1))
            } else {
                p
            },
    )
}

/// Expand a template with variable substitution.
///
/// With `shell_escape` on, every value is shell-escaped for safe command
/// execution and trailing newlines are preserved (important for multiline
/// shell commands); with it off, values are substituted literally, for
/// filesystem paths. Callers sanitize branch names with
/// `sanitize_branch_name` before inserting them.
pub fn expand_template(template: &str, vars: &Vec<(String, String)>, shell_escape: bool) -> (r:
    Result<String, String>)
    ensures
        match rendered(template@, context_of(vars.deep_view(), shell_escape), shell_escape) {
            Ok(v) => r matches Ok(s) && s@ == v,
            Err(v) => r matches Err(e) && e@ == v,
        },
{
    let n = vars.len();
    let mut context: Vec<(String, String)> = Vec::new();
    proof {
        assert(context.deep_view() =~= context_of(vars.deep_view().subrange(0, 0), shell_escape));
    }
    let mut i: usize = 0;
    while i < n
        invariant
            0 <= i <= n,
            n == vars@.len(),
            vars.deep_view().len() == n,
            forall|j: int| 0 <= j < n ==> (#[trigger] vars.deep_view()[j]) == vars@[j].deep_view(),
            context.deep_view() == context_of(
                vars.deep_view().subrange(0, i as int),
                shell_escape,
            ),
        decreases n - i,
    {
        let key = vars[i].0.clone();
        let value = if shell_escape {
            escape_value(vars[i].1.as_str())
        } else {
            vars[i].1.clone()
        };
        let ghost entry = (key@, value@);
        let ghost old_cdv = context.deep_view();
        context.push((key, value));
        i = i + 1;
        proof {
            let dv = vars.deep_view();
            let prev = dv.subrange(0, i - 1);
            assert(dv.subrange(0, i as int) =~= prev.push(dv[i - 1]));
            let mapped = if shell_escape {
                (dv[i - 1].0, shell_escaped(dv[i - 1].1))
            } else {
                dv[i - 1]
            };
            assert(context_of(dv.subrange(0, i as int), shell_escape) =~~= context_of(
                prev,
                shell_escape,
            ).push(mapped));
            assert(dv[i - 1] == vars@[i - 1].deep_view());
            assert(entry.0 =~= mapped.0);
            assert(entry.1 =~= mapped.1);
            assert(context.deep_view() =~~= old_cdv.push(entry));
            assert(context.deep_view() =~~= context_of(dv.subrange(0, i as int), shell_escape));
        }
    }
    proof {
        assert(vars.deep_view().subrange(0, n as int) =~= vars.deep_view());
    }
    render_template(template, &context, shell_escape)
}

}
