//! Redaction of a command line before it is logged: the value of each
//! `NAME=VALUE` assignment that stands right before the issuance tool's name is
//! replaced by a fixed marker. Only the logged copy is redacted; the command
//! that runs is left as it is.

use vstd::prelude::*;
use crate::text::{
    chars_of, char_eq_ignore_ascii_case, char_eq_ignore_case, eq_ignore_case, is_space,
    is_space_char,
};

verus! {

/// A character that may stand in the name of an assignment.
pub open spec fn is_key_char(c: char) -> bool {
    c != '=' && !is_space(c)
}

pub open spec fn is_quote(c: char) -> bool {
    c == '\'' || c == '"'
}

/// A character that may stand in the value of an assignment.
pub open spec fn is_value_char(c: char) -> bool {
    !is_quote(c) && !is_space(c)
}

/// The classes of characters that the scanner reads runs of.
pub enum CharClass {
    Key,
    Value,
    Space,
}

pub open spec fn in_class(k: CharClass, c: char) -> bool {
    match k {
        CharClass::Key => is_key_char(c),
        CharClass::Value => is_value_char(c),
        CharClass::Space => is_space(c),
    }
}

/// Length of the run of characters of class `k` at the start of `s`.
pub open spec fn run_len(s: Seq<char>, k: CharClass) -> nat
    decreases s.len(),
{
    if s.len() > 0 && in_class(k, s[0]) {
        1 + run_len(s.drop_first(), k)
    } else {
        0
    }
}

/// The name of the issuance tool, matched without regard to ASCII case.
pub open spec fn tool_token() -> Seq<char> {
    seq!['l', 'e', 'g', 'o']
}

/// What replaces `=VALUE`.
pub open spec fn mask() -> Seq<char> {
    seq!['=', '*', '*', '*']
}

/// `s` starts with whitespace followed by the tool's name.
pub open spec fn tool_follows(s: Seq<char>) -> bool {
    let w = run_len(s, CharClass::Space) as int;
    w >= 1 && s.len() >= w + 4 && eq_ignore_case(s.subrange(w, w + 4), tool_token())
}

/// Where `s` starts with an assignment `NAME=VALUE` or `NAME='VALUE'` or
/// `NAME="VALUE"` that the tool's name follows: the length of `NAME` and of the
/// whole assignment.
pub open spec fn leading_assignment(s: Seq<char>) -> Option<(nat, nat)> {
    let g = run_len(s, CharClass::Key) as int;
    if g >= 1 && s.len() > g && s[g] == '=' {
        let v = s.skip(g + 1);
        if v.len() > 0 && is_quote(v[0]) {
            let m = run_len(v.skip(1), CharClass::Value) as int;
            let end = g + m + 3;
            if m >= 1 && v.len() > m + 1 && v[m + 1] == v[0] && tool_follows(s.skip(end)) {
                Some((g as nat, end as nat))
            } else {
                None
            }
        } else {
            let m = run_len(v, CharClass::Value) as int;
            let end = g + 1 + m;
            if m >= 1 && end <= s.len() && tool_follows(s.skip(end)) {
                Some((g as nat, end as nat))
            } else {
                None
            }
        }
    } else {
        None
    }
}

/// `s` with each assignment that the tool's name follows reduced to
/// `NAME=***`, scanning left to right.
pub open spec fn redacted(s: Seq<char>) -> Seq<char>
    decreases s.len(),
{
    if s.len() == 0 {
        Seq::empty()
    } else {
        match leading_assignment(s) {
            Some((g, end)) => s.subrange(0, g as int) + mask() + redacted(s.skip(end as int)),
            None => seq![s[0]] + redacted(s.skip(1)),
        }
    }
}

fn in_class_exec(k: &CharClass, c: char) -> (r: bool)
    ensures
        r == in_class(*k, c),
{
    match k {
        CharClass::Key => c != '=' && !is_space_char(c),
        CharClass::Value => c != '\'' && c != '"' && !is_space_char(c),
        CharClass::Space => is_space_char(c),
    }
}

/// The end of the run of class `k` that starts at `i`.
fn run_end(t: &Vec<char>, i: usize, k: CharClass) -> (j: usize)
    requires
        i <= t@.len(),
    ensures
        i <= j <= t@.len(),
        run_len(t@.skip(i as int), k) == j - i,
{
    let n = t.len();
    let mut j: usize = i;
    while j < n && in_class_exec(&k, t[j])
        invariant
            n == t@.len(),
            i <= j <= n,
            run_len(t@.skip(i as int), k) == (j - i) + run_len(t@.skip(j as int), k),
        decreases n - j,
    {
        assert(t@.skip(j as int).drop_first() =~= t@.skip(j + 1));
        j = j + 1;
    }
    j
}

/// Whether whitespace and then the tool's name start at `j`.
fn tool_follows_at(t: &Vec<char>, j: usize) -> (r: bool)
    requires
        j <= t@.len(),
    ensures
        r == tool_follows(t@.skip(j as int)),
{
    let n = t.len();
    let w = run_end(t, j, CharClass::Space);
    if w == j || n - w < 4 {
        return false;
    }
    let ghost s = t@.skip(j as int);
    assert(s.subrange(w - j, w - j + 4) =~= t@.subrange(w as int, w + 4));
    let r = char_eq_ignore_ascii_case(t[w], 'l') && char_eq_ignore_ascii_case(t[w + 1], 'e')
        && char_eq_ignore_ascii_case(t[w + 2], 'g') && char_eq_ignore_ascii_case(t[w + 3], 'o');
    proof {
        let sub = t@.subrange(w as int, w + 4);
        if r {
            assert forall|m: int| 0 <= m < sub.len() implies #[trigger] char_eq_ignore_case(
                sub[m],
                tool_token()[m],
            ) by {
                assert(m == 0 || m == 1 || m == 2 || m == 3);
            }
        } else {
            assert(!char_eq_ignore_case(sub[0], tool_token()[0]) || !char_eq_ignore_case(
                sub[1],
                tool_token()[1],
            ) || !char_eq_ignore_case(sub[2], tool_token()[2]) || !char_eq_ignore_case(
                sub[3],
                tool_token()[3],
            ));
        }
    }
    r
}

/// Where an assignment that the tool's name follows starts at `i`: the length
/// of its name and of the whole assignment.
fn assignment_at(t: &Vec<char>, i: usize) -> (r: Option<(usize, usize)>)
    requires
        i < t@.len(),
    ensures
        r matches Some((g, e)) ==> leading_assignment(t@.skip(i as int)) == Some(
            (g as nat, e as nat),
        ),
        r is None ==> leading_assignment(t@.skip(i as int)) is None,
        r matches Some((g, e)) ==> g < e && i + e <= t@.len(),
{
    let n = t.len();
    let ghost s = t@.skip(i as int);
    let ke = run_end(t, i, CharClass::Key);
    if ke == i || ke >= n || t[ke] != '=' {
        return None;
    }
    let v0 = ke + 1;
    let ghost v = s.skip(ke - i + 1);
    assert(v =~= t@.skip(v0 as int));
    if v0 < n && (t[v0] == '\'' || t[v0] == '"') {
        let ve = run_end(t, v0 + 1, CharClass::Value);
        assert(v.skip(1) =~= t@.skip(v0 + 1));
        if ve == v0 + 1 || ve >= n || t[ve] != t[v0] {
            return None;
        }
        let end = ve + 1;
        assert(s.skip(end - i) =~= t@.skip(end as int));
        if tool_follows_at(t, end) {
            Some((ke - i, end - i))
        } else {
            None
        }
    } else {
        let ve = run_end(t, v0, CharClass::Value);
        if ve == v0 {
            return None;
        }
        assert(s.skip(ve - i) =~= t@.skip(ve as int));
        if tool_follows_at(t, ve) {
            Some((ke - i, ve - i))
        } else {
            None
        }
    }
}

/// The form of `command` that may be logged: every `NAME=VALUE` assignment
/// (the value bare or in single or double quotes) that whitespace and the
/// issuance tool's name follow becomes `NAME=***`; all else is kept.
pub fn sanitize_command_for_log(command: &str) -> (r: String)
    ensures
        r@ == redacted(command@),
{
    let t = chars_of(command);
    let n = t.len();
    let mut out = String::new();
    let mut from: usize = 0;
    let mut i: usize = 0;
    proof {
        reveal_strlit("=***");
        assert("=***"@ =~= mask());
        assert(t@.skip(0) =~= t@);
    }
    while i < n
        invariant
            t@ == command@,
            n == t@.len(),
            from <= i <= n,
            "=***"@ == mask(),
            out@ + t@.subrange(from as int, i as int) + redacted(t@.skip(i as int)) == redacted(
                command@,
            ),
        decreases n - i,
    {
        match assignment_at(&t, i) {
            Some((g, e)) => {
                proof {
                    let s = t@.skip(i as int);
                    assert(s.subrange(0, g as int) =~= t@.subrange(i as int, i + g));
                    assert(s.skip(e as int) =~= t@.skip(i + e));
                    assert(t@.subrange(from as int, i + g) =~= t@.subrange(from as int, i as int)
                        + t@.subrange(i as int, i + g));
                }
                let seg = command.substring_char(from, i + g);
                out.append(seg);
                out.append("=***");
                i = i + e;
                from = i;
                assert(t@.subrange(from as int, i as int) =~= Seq::<char>::empty());
            },
            None => {
                proof {
                    assert(t@.skip(i as int).skip(1) =~= t@.skip(i + 1));
                    assert(t@.subrange(from as int, i + 1) =~= t@.subrange(from as int, i as int)
                        + seq![t@[i as int]]);
                }
                i = i + 1;
            },
        }
    }
    let seg = command.substring_char(from, n);
    out.append(seg);
    assert(t@.skip(n as int) =~= Seq::<char>::empty());
    out
}

/// A command in which the tool's name never follows whitespace is logged as
/// it stands: no value is redacted unless the tool's name comes right after
/// it.
pub proof fn lemma_redaction_needs_tool(s: Seq<char>)
    requires
        forall|i: int| 0 <= i <= s.len() ==> !tool_follows(#[trigger] s.skip(i)),
    ensures
        redacted(s) == s,
    decreases s.len(),
{
    if s.len() > 0 {
        let g = run_len(s, CharClass::Key) as int;
        let v = s.skip(g + 1);
        if g >= 1 && s.len() > g && s[g] == '=' {
            let m1 = run_len(v.skip(1), CharClass::Value) as int;
            let m2 = run_len(v, CharClass::Value) as int;
            if g + m1 + 3 <= s.len() {
                assert(!tool_follows(s.skip(g + m1 + 3)));
            }
            if g + 1 + m2 <= s.len() {
                assert(!tool_follows(s.skip(g + 1 + m2)));
            }
        }
        assert(leading_assignment(s) is None);
        let rest = s.skip(1);
        assert forall|i: int| 0 <= i <= rest.len() implies !tool_follows(#[trigger] rest.skip(i)) by {
            assert(rest.skip(i) =~= s.skip(i + 1));
        }
        lemma_redaction_needs_tool(rest);
        assert(s =~= seq![s[0]] + rest);
    }
}

proof fn lemma_run_len_props(s: Seq<char>, k: CharClass)
    ensures
        run_len(s, k) <= s.len(),
        forall|i: int| 0 <= i < run_len(s, k) ==> in_class(k, #[trigger] s[i]),
        run_len(s, k) < s.len() ==> !in_class(k, s[run_len(s, k) as int]),
    decreases s.len(),
{
    if s.len() > 0 && in_class(k, s[0]) {
        let t = s.drop_first();
        lemma_run_len_props(t, k);
        assert forall|i: int| 0 <= i < run_len(s, k) implies in_class(k, #[trigger] s[i]) by {
            if i > 0 {
                assert(s[i] == t[i - 1]);
            }
        }
    }
}

proof fn lemma_run_len_concat(x: Seq<char>, y: Seq<char>, k: CharClass)
    requires
        forall|i: int| 0 <= i < x.len() ==> in_class(k, #[trigger] x[i]),
    ensures
        run_len(x + y, k) == x.len() + run_len(y, k),
    decreases x.len(),
{
    if x.len() == 0 {
        assert(x + y =~= y);
    } else {
        assert((x + y).drop_first() =~= x.drop_first() + y);
        assert(in_class(k, x[0]));
        assert forall|i: int| 0 <= i < x.drop_first().len() implies in_class(
            k,
            #[trigger] x.drop_first()[i],
        ) by {
            assert(in_class(k, x[i + 1]));
        }
        lemma_run_len_concat(x.drop_first(), y, k);
    }
}

/// Text in which no assignment that the tool's name follows starts is kept,
/// and redaction carries on after it.
proof fn lemma_kept_prefix(u: Seq<char>, rest: Seq<char>)
    requires
        forall|i: int| 0 <= i < u.len() ==> #[trigger] leading_assignment((u + rest).skip(i)) is None,
    ensures
        redacted(u + rest) == u + redacted(rest),
    decreases u.len(),
{
    if u.len() == 0 {
        assert(u + rest =~= rest);
    } else {
        let t = u + rest;
        assert(t.skip(0) =~= t);
        assert(leading_assignment(t.skip(0)) is None);
        let u1 = u.drop_first();
        assert(t.skip(1) =~= u1 + rest);
        assert forall|i: int| 0 <= i < u1.len() implies #[trigger] leading_assignment(
            (u1 + rest).skip(i),
        ) is None by {
            assert((u1 + rest).skip(i) =~= (u + rest).skip(i + 1));
            assert(leading_assignment((u + rest).skip(i + 1)) is None);
        }
        lemma_kept_prefix(u1, rest);
        assert(u =~= seq![u[0]] + u1);
    }
}

/// No assignment that the tool's name follows starts in a run of value
/// characters that whitespace or the end of the text follows.
proof fn lemma_no_assignment_in_value(u: Seq<char>, rest: Seq<char>)
    requires
        forall|i: int| 0 <= i < u.len() ==> is_value_char(#[trigger] u[i]),
        rest.len() == 0 || is_space(rest[0]),
        !tool_follows(rest),
    ensures
        leading_assignment(u + rest) is None,
{
    let t = u + rest;
    let q = run_len(u, CharClass::Key) as int;
    lemma_run_len_props(u, CharClass::Key);
    let x = u.take(q);
    assert forall|i: int| 0 <= i < x.len() implies in_class(CharClass::Key, #[trigger] x[i]) by {
        assert(in_class(CharClass::Key, u[i]));
    }
    assert(t =~= x + (u.skip(q) + rest));
    lemma_run_len_concat(x, u.skip(q) + rest, CharClass::Key);
    if q < u.len() {
        assert(is_value_char(u[q]));
        assert(u[q] == '=');
        assert((u.skip(q) + rest)[0] == '=');
        assert(run_len(t, CharClass::Key) == q);
        let w = u.skip(q + 1);
        let v = t.skip(q + 1);
        assert(v =~= w + rest);
        assert forall|i: int| 0 <= i < w.len() implies in_class(CharClass::Value, #[trigger] w[i]) by {
            assert(is_value_char(u[q + 1 + i]));
        }
        lemma_run_len_concat(w, rest, CharClass::Value);
        if w.len() > 0 {
            assert(v[0] == w[0]);
            assert(is_value_char(u[q + 1]));
        } else {
            assert(v =~= rest);
        }
        assert(run_len(rest, CharClass::Value) == 0);
        assert(t.skip(q + 1 + w.len()) =~= rest);
    } else {
        assert(u.skip(q) + rest =~= rest);
        assert(run_len(rest, CharClass::Key) == 0);
        if t.len() > q {
            assert(t[q] == rest[0]);
        }
    }
}

/// An assignment `NAME=VALUE` that the tool's name does not follow is logged
/// as it stands, and redaction carries on after it.
pub proof fn lemma_assignment_kept(name: Seq<char>, value: Seq<char>, rest: Seq<char>)
    requires
        name.len() > 0,
        forall|i: int| 0 <= i < name.len() ==> is_key_char(#[trigger] name[i]),
        value.len() > 0,
        forall|i: int| 0 <= i < value.len() ==> is_value_char(#[trigger] value[i]),
        rest.len() == 0 || is_space(rest[0]),
        !tool_follows(rest),
    ensures
        redacted(name + seq!['='] + value + rest) == name + seq!['='] + value + redacted(rest),
{
    let a = name + seq!['='] + value;
    assert(name + seq!['='] + value + rest =~= a + rest);
    assert forall|i: int| 0 <= i < a.len() implies #[trigger] leading_assignment((a + rest).skip(i))
        is None by {
        let t = (a + rest).skip(i);
        if i < name.len() {
            let x = name.skip(i);
            assert forall|j: int| 0 <= j < x.len() implies in_class(CharClass::Key, #[trigger] x[j]) by {
                assert(is_key_char(name[i + j]));
            }
            assert(t =~= x + (seq!['='] + value + rest));
            lemma_run_len_concat(x, seq!['='] + value + rest, CharClass::Key);
            assert((seq!['='] + value + rest)[0] == '=');
            let g = x.len() as int;
            assert(t[g] == '=');
            let v = t.skip(g + 1);
            assert(v =~= value + rest);
            assert(v[0] == value[0]);
            assert forall|j: int| 0 <= j < value.len() implies in_class(
                CharClass::Value,
                #[trigger] value[j],
            ) by {
                assert(is_value_char(value[j]));
            }
            lemma_run_len_concat(value, rest, CharClass::Value);
            assert(run_len(rest, CharClass::Value) == 0);
            assert(t.skip(g + 1 + value.len()) =~= rest);
        } else if i == name.len() {
            assert(t[0] == '=');
        } else {
            let u = value.skip(i - name.len() - 1);
            assert(t =~= u + rest);
            assert forall|j: int| 0 <= j < u.len() implies is_value_char(#[trigger] u[j]) by {
                assert(is_value_char(value[i - name.len() - 1 + j]));
            }
            lemma_no_assignment_in_value(u, rest);
        }
    }
    lemma_kept_prefix(a, rest);
}

/// An assignment `NAME=VALUE` that whitespace and the tool's name follow is
/// logged as `NAME=***`: its value does not appear, and redaction carries on
/// after it.
pub proof fn lemma_assignment_redacted(name: Seq<char>, value: Seq<char>, rest: Seq<char>)
    requires
        name.len() > 0,
        forall|i: int| 0 <= i < name.len() ==> is_key_char(#[trigger] name[i]),
        value.len() > 0,
        forall|i: int| 0 <= i < value.len() ==> is_value_char(#[trigger] value[i]),
        tool_follows(rest),
    ensures
        redacted(name + seq!['='] + value + rest) == name + mask() + redacted(rest),
{
    let t = name + seq!['='] + value + rest;
    assert forall|j: int| 0 <= j < name.len() implies in_class(CharClass::Key, #[trigger] name[j]) by {
        assert(is_key_char(name[j]));
    }
    assert(t =~= name + (seq!['='] + value + rest));
    lemma_run_len_concat(name, seq!['='] + value + rest, CharClass::Key);
    assert((seq!['='] + value + rest)[0] == '=');
    let g = name.len() as int;
    assert(t[g] == '=');
    let v = t.skip(g + 1);
    assert(v =~= value + rest);
    assert(v[0] == value[0]);
    assert forall|j: int| 0 <= j < value.len() implies in_class(CharClass::Value, #[trigger] value[j]) by {
        assert(is_value_char(value[j]));
    }
    lemma_run_len_concat(value, rest, CharClass::Value);
    assert(rest.len() > 0 && is_space(rest[0]));
    assert(run_len(rest, CharClass::Value) == 0);
    assert(t.skip(g + 1 + value.len()) =~= rest);
    assert(t.subrange(0, g) =~= name);
}

} // verus!
