//! The command template engine: a DNS provider's command template, with its
//! `{{NAME}}` placeholders, turned into the concrete command for one domain.

use vstd::prelude::*;
use crate::text::{
    chars_of, eq_ignore_ascii_case, eq_ignore_case, trim, trimmed, char_eq_ignore_case,
};

verus! {

/// Which command of a provider is wanted: the first issuance, or a renewal.
#[derive(Clone, Copy, Debug, PartialEq, Eq, Structural)]
pub enum CommandType {
    Run,
    Renew,
}

/// A DNS provider's configuration: the issuance command template, an optional
/// renewal template, and the named variables that placeholders refer to, in
/// the order of the provider file. A variable whose value is not text holds
/// `None`.
#[derive(Clone, Debug)]
pub struct DnsProviderConfig {
    pub cmd: String,
    pub renew: Option<String>,
    pub vars: Vec<(String, Option<String>)>,
}

/// Characters allowed in a placeholder name: ASCII letters, digits and `_`.
pub open spec fn is_name_char(c: char) -> bool {
    let u = c as u32;
    ||| 48 <= u <= 57
    ||| 65 <= u <= 90
    ||| 97 <= u <= 122
    ||| u == 95
}

/// Length of the run of name characters at the start of `t`.
pub open spec fn name_len(t: Seq<char>) -> nat
    decreases t.len(),
{
    if t.len() > 0 && is_name_char(t[0]) {
        1 + name_len(t.drop_first())
    } else {
        0
    }
}

/// A valid placeholder name: one or more name characters.
pub open spec fn is_name(name: Seq<char>) -> bool {
    name.len() > 0 && forall|i: int| 0 <= i < name.len() ==> #[trigger] is_name_char(name[i])
}

/// The placeholder `{{name}}`.
pub open spec fn placeholder(name: Seq<char>) -> Seq<char> {
    seq!['{', '{'] + name + seq!['}', '}']
}

/// Where `t` starts with a placeholder `{{NAME}}`, the length of `NAME`.
pub open spec fn leading_placeholder(t: Seq<char>) -> Option<nat> {
    let k = name_len(t.skip(2));
    if t.len() >= 2 && t[0] == '{' && t[1] == '{' && k >= 1 && t.len() >= k + 4 && t[k as int + 2] == '}'
        && t[k as int + 3] == '}' {
        Some(k)
    } else {
        None
    }
}

/// The token that names the domain itself.
pub open spec fn domain_token() -> Seq<char> {
    seq!['D', 'O', 'M', 'A', 'I', 'N']
}

/// The value of the first variable whose key equals `name` up to ASCII case;
/// empty where there is none or where its value is not text.
pub open spec fn var_value(vars: Seq<(String, Option<String>)>, name: Seq<char>) -> Seq<char>
    decreases vars.len(),
{
    if vars.len() == 0 {
        Seq::empty()
    } else if eq_ignore_case(vars[0].0@, name) {
        match vars[0].1 {
            Some(v) => v@,
            None => Seq::empty(),
        }
    } else {
        var_value(vars.drop_first(), name)
    }
}

/// What the placeholder `{{name}}` stands for: the domain for `DOMAIN` in any
/// case, else the variable of that name.
pub open spec fn placeholder_value(
    name: Seq<char>,
    domain: Seq<char>,
    vars: Seq<(String, Option<String>)>,
) -> Seq<char> {
    if eq_ignore_case(name, domain_token()) {
        domain
    } else {
        var_value(vars, name)
    }
}

/// One left-to-right pass over `t` that replaces each placeholder by its value
/// and keeps every other character; values are never scanned again.
pub open spec fn render(t: Seq<char>, domain: Seq<char>, vars: Seq<(String, Option<String>)>) -> Seq<
    char,
>
    decreases t.len(),
{
    if t.len() == 0 {
        Seq::empty()
    } else {
        match leading_placeholder(t) {
            Some(k) => placeholder_value(t.subrange(2, 2 + k as int), domain, vars) + render(
                t.skip(k as int + 4),
                domain,
                vars,
            ),
            None => seq![t[0]] + render(t.skip(1), domain, vars),
        }
    }
}

/// The template that a command type selects: the renewal template for a
/// renewal where there is one, else the issuance template.
pub open spec fn selected_template(cfg: DnsProviderConfig, mode: CommandType) -> Seq<char> {
    match (mode, cfg.renew) {
        (CommandType::Renew, Some(r)) => r@,
        _ => cfg.cmd@,
    }
}

/// The command that `cfg` gives for `domain`.
pub open spec fn command_for(cfg: DnsProviderConfig, domain: Seq<char>, mode: CommandType) -> Seq<
    char,
> {
    render(selected_template(cfg, mode), trimmed(domain), cfg.vars@)
}

proof fn lemma_name_len_step(t: Seq<char>, j: int)
    requires
        0 <= j < t.len(),
        is_name_char(t[j]),
    ensures
        name_len(t.skip(j)) == 1 + name_len(t.skip(j + 1)),
{
    assert(t.skip(j).drop_first() =~= t.skip(j + 1));
}

proof fn lemma_render_plain(t: Seq<char>, domain: Seq<char>, vars: Seq<(String, Option<String>)>, i: int)
    requires
        0 <= i < t.len(),
        leading_placeholder(t.skip(i)) is None,
    ensures
        render(t.skip(i), domain, vars) == seq![t[i]] + render(t.skip(i + 1), domain, vars),
{
    assert(t.skip(i).skip(1) =~= t.skip(i + 1));
}

proof fn lemma_render_placeholder(
    t: Seq<char>,
    domain: Seq<char>,
    vars: Seq<(String, Option<String>)>,
    i: int,
    k: nat,
)
    requires
        0 <= i < t.len(),
        leading_placeholder(t.skip(i)) == Some(k),
    ensures
        render(t.skip(i), domain, vars) == placeholder_value(
            t.subrange(i + 2, i + 2 + k),
            domain,
            vars,
        ) + render(t.skip(i + k + 4), domain, vars),
{
    assert(t.skip(i).skip(k as int + 4) =~= t.skip(i + k + 4));
    assert(t.skip(i).subrange(2, 2 + k as int) =~= t.subrange(i + 2, i + 2 + k));
}

/// Text without `{` holds no placeholder: it is copied as it stands and
/// substitution carries on after it.
pub proof fn lemma_render_plain_prefix(
    p: Seq<char>,
    x: Seq<char>,
    domain: Seq<char>,
    vars: Seq<(String, Option<String>)>,
)
    requires
        forall|i: int| 0 <= i < p.len() ==> p[i] != '{',
    ensures
        render(p + x, domain, vars) == p + render(x, domain, vars),
    decreases p.len(),
{
    if p.len() == 0 {
        assert(p + x =~= x);
    } else {
        let t = p + x;
        assert(t[0] == p[0]);
        assert(t.skip(1) =~= p.drop_first() + x);
        lemma_render_plain_prefix(p.drop_first(), x, domain, vars);
        assert(p =~= seq![p[0]] + p.drop_first());
    }
}

proof fn lemma_name_len_concat(a: Seq<char>, b: Seq<char>)
    requires
        forall|i: int| 0 <= i < a.len() ==> #[trigger] is_name_char(a[i]),
    ensures
        name_len(a + b) == a.len() + name_len(b),
    decreases a.len(),
{
    if a.len() == 0 {
        assert(a + b =~= b);
    } else {
        assert((a + b).drop_first() =~= a.drop_first() + b);
        assert(is_name_char(a[0]));
        assert forall|i: int| 0 <= i < a.drop_first().len() implies #[trigger] is_name_char(
            a.drop_first()[i],
        ) by {
            assert(is_name_char(a[i + 1]));
        }
        lemma_name_len_concat(a.drop_first(), b);
    }
}

/// A placeholder at the start of a template is recognised whole.
proof fn lemma_leading_placeholder(
    name: Seq<char>,
    rest: Seq<char>,
    domain: Seq<char>,
    vars: Seq<(String, Option<String>)>,
)
    requires
        is_name(name),
    ensures
        render(placeholder(name) + rest, domain, vars) == placeholder_value(name, domain, vars)
            + render(rest, domain, vars),
{
    let t = placeholder(name) + rest;
    let close = seq!['}', '}'] + rest;
    assert(t.skip(2) =~= name + close);
    lemma_name_len_concat(name, close);
    assert(name_len(close) == 0);
    let k = name.len();
    assert(t[k as int + 2] == '}');
    assert(t[k as int + 3] == '}');
    assert(leading_placeholder(t) == Some(k));
    assert(t.subrange(2, 2 + k as int) =~= name);
    assert(t.skip(k as int + 4) =~= rest);
}

proof fn lemma_var_value_absent(vars: Seq<(String, Option<String>)>, name: Seq<char>)
    requires
        forall|i: int| 0 <= i < vars.len() ==> !eq_ignore_case(#[trigger] vars[i].0@, name),
    ensures
        var_value(vars, name) == Seq::<char>::empty(),
    decreases vars.len(),
{
    if vars.len() > 0 {
        assert(!eq_ignore_case(vars[0].0@, name));
        assert forall|i: int| 0 <= i < vars.drop_first().len() implies !eq_ignore_case(
            #[trigger] vars.drop_first()[i].0@,
            name,
        ) by {
            assert(!eq_ignore_case(vars[i + 1].0@, name));
        }
        lemma_var_value_absent(vars.drop_first(), name);
    }
}

/// `{{DOMAIN}}`, in any letter case, becomes the trimmed domain name whatever
/// the variables hold: no variable can shadow it.
pub proof fn lemma_domain_placeholder(
    prefix: Seq<char>,
    name: Seq<char>,
    rest: Seq<char>,
    domain: Seq<char>,
    vars: Seq<(String, Option<String>)>,
)
    requires
        forall|i: int| 0 <= i < prefix.len() ==> prefix[i] != '{',
        is_name(name),
        eq_ignore_case(name, domain_token()),
    ensures
        render(prefix + placeholder(name) + rest, trimmed(domain), vars) == prefix + trimmed(domain)
            + render(rest, trimmed(domain), vars),
{
    let d = trimmed(domain);
    assert(prefix + placeholder(name) + rest =~= prefix + (placeholder(name) + rest));
    lemma_render_plain_prefix(prefix, placeholder(name) + rest, d, vars);
    lemma_leading_placeholder(name, rest, d, vars);
    assert(prefix + (d + render(rest, d, vars)) =~= prefix + d + render(rest, d, vars));
}

/// A placeholder whose name is neither `DOMAIN` nor the key of any variable
/// becomes empty text; it is never left in the command.
pub proof fn lemma_unknown_placeholder(
    prefix: Seq<char>,
    name: Seq<char>,
    rest: Seq<char>,
    domain: Seq<char>,
    vars: Seq<(String, Option<String>)>,
)
    requires
        forall|i: int| 0 <= i < prefix.len() ==> prefix[i] != '{',
        is_name(name),
        !eq_ignore_case(name, domain_token()),
        forall|i: int| 0 <= i < vars.len() ==> !eq_ignore_case(#[trigger] vars[i].0@, name),
    ensures
        render(prefix + placeholder(name) + rest, domain, vars) == prefix + render(
            rest,
            domain,
            vars,
        ),
{
    assert(prefix + placeholder(name) + rest =~= prefix + (placeholder(name) + rest));
    lemma_render_plain_prefix(prefix, placeholder(name) + rest, domain, vars);
    lemma_leading_placeholder(name, rest, domain, vars);
    lemma_var_value_absent(vars, name);
    assert(Seq::<char>::empty() + render(rest, domain, vars) =~= render(rest, domain, vars));
}

/// Where `t` holds a placeholder at `i`, the length of its name.
fn placeholder_at(t: &Vec<char>, i: usize) -> (r: Option<usize>)
    requires
        i < t@.len(),
    ensures
        r matches Some(k) ==> leading_placeholder(t@.skip(i as int)) == Some(k as nat),
        r is None ==> leading_placeholder(t@.skip(i as int)) is None,
{
    let n = t.len();
    let ghost s = t@.skip(i as int);
    if n - i < 2 || t[i] != '{' || t[i + 1] != '{' {
        return None;
    }
    let mut j: usize = i + 2;
    assert(s.skip(2) =~= t@.skip(i + 2));
    while j < n && is_name_char_exec(t[j])
        invariant
            n == t@.len(),
            i + 2 <= j <= n,
            s == t@.skip(i as int),
            name_len(s.skip(2)) == (j - (i + 2)) + name_len(t@.skip(j as int)),
            forall|m: int| i + 2 <= m < j ==> is_name_char(#[trigger] t@[m]),
        decreases n - j,
    {
        proof {
            lemma_name_len_step(t@, j as int);
        }
        j = j + 1;
    }
    assert(s.skip(2) =~= t@.skip(i + 2));
    assert(name_len(t@.skip(j as int)) == 0);
    let k = j - (i + 2);
    if k >= 1 && n - j >= 2 && t[j] == '}' && t[j + 1] == '}' {
        Some(k)
    } else {
        None
    }
}

fn is_name_char_exec(c: char) -> (r: bool)
    ensures
        r == is_name_char(c),
{
    let u = c as u32;
    (48 <= u && u <= 57) || (65 <= u && u <= 90) || (97 <= u && u <= 122) || u == 95
}

/// The value of the first variable whose key equals `name` up to ASCII case.
fn lookup_variable(vars: &Vec<(String, Option<String>)>, name: &str) -> (r: String)
    ensures
        r@ == var_value(vars@, name@),
{
    let mut k: usize = 0;
    assert(vars@.skip(0) =~= vars@);
    while k < vars.len()
        invariant
            k <= vars@.len(),
            var_value(vars@, name@) == var_value(vars@.skip(k as int), name@),
        decreases vars@.len() - k,
    {
        assert(vars@.skip(k as int).drop_first() =~= vars@.skip(k + 1));
        if eq_ignore_ascii_case(vars[k].0.as_str(), name) {
            return match &vars[k].1 {
                Some(v) => v.clone(),
                None => String::new(),
            };
        }
        k = k + 1;
    }
    String::new()
}

/// Substitutes every placeholder of `template` in one left-to-right pass:
/// `{{DOMAIN}}` in any letter case becomes `domain`, any other name the first
/// variable whose key matches it up to ASCII case (empty where there is none,
/// or where its value is not text).
pub fn render_template(template: &str, domain: &str, vars: &Vec<(String, Option<String>)>) -> (r:
    String)
    ensures
        r@ == render(template@, domain@, vars@),
{
    let t = chars_of(template);
    let n = t.len();
    let mut out = String::new();
    let mut from: usize = 0;
    let mut i: usize = 0;
    proof {
        reveal_strlit("DOMAIN");
        assert("DOMAIN"@ =~= domain_token());
        assert(t@.skip(0) =~= t@);
    }
    while i < n
        invariant
            t@ == template@,
            n == t@.len(),
            from <= i <= n,
            "DOMAIN"@ == domain_token(),
            out@ + t@.subrange(from as int, i as int) + render(t@.skip(i as int), domain@, vars@)
                == render(template@, domain@, vars@),
        decreases n - i,
    {
        match placeholder_at(&t, i) {
            Some(k) => {
                let name = template.substring_char(i + 2, i + 2 + k);
                let value = if eq_ignore_ascii_case(name, "DOMAIN") {
                    domain.to_owned()
                } else {
                    lookup_variable(vars, name)
                };
                proof {
                    lemma_render_placeholder(t@, domain@, vars@, i as int, k as nat);
                }
                let seg = template.substring_char(from, i);
                out.append(seg);
                out.append(value.as_str());
                i = i + k + 4;
                from = i;
                assert(t@.subrange(from as int, i as int) =~= Seq::<char>::empty());
            },
            None => {
                proof {
                    lemma_render_plain(t@, domain@, vars@, i as int);
                    assert(t@.subrange(from as int, i + 1) =~= t@.subrange(from as int, i as int)
                        + seq![t@[i as int]]);
                }
                i = i + 1;
            },
        }
    }
    let seg = template.substring_char(from, n);
    out.append(seg);
    assert(t@.skip(n as int) =~= Seq::<char>::empty());
    out
}

/// The template that `mode` selects from `cfg`.
pub fn select_template(cfg: &DnsProviderConfig, mode: CommandType) -> (r: &String)
    ensures
        r@ == selected_template(*cfg, mode),
{
    match mode {
        CommandType::Renew => match &cfg.renew {
            Some(r) => r,
            None => &cfg.cmd,
        },
        CommandType::Run => &cfg.cmd,
    }
}

/// The concrete command for `domain`: the selected template with its
/// placeholders substituted, `{{DOMAIN}}` by the trimmed domain name.
pub fn build_command(cfg: &DnsProviderConfig, domain: &str, mode: CommandType) -> (r: String)
    ensures
        r@ == command_for(*cfg, domain@, mode),
{
    let name = trim(domain);
    render_template(select_template(cfg, mode).as_str(), name.as_str(), &cfg.vars)
}

} // verus!
