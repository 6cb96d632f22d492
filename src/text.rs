//! Character-level helpers: embedded NUL detection and shell-style
//! `$NAME` / `${NAME}` expansion against an environment snapshot.
use vstd::prelude::*;
use vstd::string::*;
use crate::request::KeyValuePair;

verus! {

/// Characters that may appear in a variable name.
pub open spec fn is_name_char(c: char) -> bool {
    ('a' <= c && c <= 'z') || ('A' <= c && c <= 'Z') || ('0' <= c && c <= '9') || c == '_'
}

/// Number of name characters at the start of `s`.
pub open spec fn name_len(s: Seq<char>) -> nat
    decreases s.len(),
{
    if s.len() > 0 && is_name_char(s[0]) {
        1 + name_len(s.drop_first())
    } else {
        0
    }
}

/// Whether `s` holds the NUL character anywhere.
pub open spec fn has_nul(s: Seq<char>) -> bool {
    exists|i: int| 0 <= i < s.len() && s[i] == '\0'
}

/// Value bound to `name` by the first matching entry of `env`; empty when unset.
pub open spec fn env_lookup(env: Seq<KeyValuePair>, name: Seq<char>) -> Seq<char>
    decreases env.len(),
{
    if env.len() == 0 {
        Seq::empty()
    } else if env[0].key@ == name {
        env[0].val@
    } else {
        env_lookup(env.drop_first(), name)
    }
}

/// Whether `s` starts with a well-formed `${NAME}` token.
pub open spec fn braced_token(s: Seq<char>) -> bool {
    &&& s.len() >= 2
    &&& s[0] == '$'
    &&& s[1] == '{'
    &&& name_len(s.skip(2)) + 2 < s.len()
    &&& s[name_len(s.skip(2)) + 2int] == '}'
}

/// Whether `s` starts with a `$NAME` token with a non-empty name.
pub open spec fn bare_token(s: Seq<char>) -> bool {
    s.len() >= 1 && s[0] == '$' && name_len(s.skip(1)) > 0
}

/// Single left-to-right pass that replaces each `${NAME}` or `$NAME` token by
/// the variable's value (empty when unset). A `$` that starts no token is
/// kept, and the expanded values are not scanned again.
pub open spec fn expand(s: Seq<char>, env: Seq<KeyValuePair>) -> Seq<char>
    decreases s.len(),
    via expand_decreases
{
    if s.len() == 0 {
        Seq::empty()
    } else if braced_token(s) {
        let n = name_len(s.skip(2)) as int;
        env_lookup(env, s.subrange(2, n + 2)) + expand(s.skip(n + 3), env)
    } else if bare_token(s) {
        let n = name_len(s.skip(1)) as int;
        env_lookup(env, s.subrange(1, n + 1)) + expand(s.skip(n + 1), env)
    } else {
        seq![s[0]] + expand(s.skip(1), env)
    }
}

pub proof fn lemma_name_len_bound(s: Seq<char>)
    ensures
        name_len(s) <= s.len(),
    decreases s.len(),
{
    if s.len() > 0 && is_name_char(s[0]) {
        lemma_name_len_bound(s.drop_first());
    }
}

#[via_fn]
proof fn expand_decreases(s: Seq<char>, env: Seq<KeyValuePair>) {
    if s.len() > 0 {
        lemma_name_len_bound(s.skip(1));
        if s.len() >= 2 {
            lemma_name_len_bound(s.skip(2));
        }
    }
}

/// No value bound in `env` holds an embedded NUL.
pub open spec fn env_nul_free(env: Seq<KeyValuePair>) -> bool {
    forall|i: int| 0 <= i < env.len() ==> !has_nul((#[trigger] env[i]).val@)
}

proof fn lemma_concat_nul_free(a: Seq<char>, b: Seq<char>)
    requires
        !has_nul(a),
        !has_nul(b),
    ensures
        !has_nul(a + b),
{
    assert forall|i: int| 0 <= i < (a + b).len() implies (a + b)[i] != '\0' by {
        if i < a.len() {
            assert((a + b)[i] == a[i]);
        } else {
            assert((a + b)[i] == b[i - a.len()]);
        }
    }
}

proof fn lemma_skip_nul_free(s: Seq<char>, k: int)
    requires
        !has_nul(s),
        0 <= k <= s.len(),
    ensures
        !has_nul(s.skip(k)),
{
    assert forall|i: int| 0 <= i < s.skip(k).len() implies s.skip(k)[i] != '\0' by {
        assert(s.skip(k)[i] == s[i + k]);
    }
}

proof fn lemma_lookup_nul_free(env: Seq<KeyValuePair>, name: Seq<char>)
    requires
        env_nul_free(env),
    ensures
        !has_nul(env_lookup(env, name)),
    decreases env.len(),
{
    if env.len() > 0 {
        assert(!has_nul(env[0].val@));
        if env[0].key@ != name {
            assert forall|i: int| 0 <= i < env.drop_first().len() implies !has_nul(
                (#[trigger] env.drop_first()[i]).val@,
            ) by {
                assert(env.drop_first()[i] == env[i + 1]);
            }
            lemma_lookup_nul_free(env.drop_first(), name);
        }
    }
}

/// Expansion introduces no NUL: a NUL-free text expanded against NUL-free
/// values stays NUL-free.
pub proof fn lemma_expand_nul_free(s: Seq<char>, env: Seq<KeyValuePair>)
    requires
        !has_nul(s),
        env_nul_free(env),
    ensures
        !has_nul(expand(s, env)),
    decreases s.len(),
{
    if s.len() > 0 {
        lemma_name_len_bound(s.skip(1));
        if s.len() >= 2 {
            lemma_name_len_bound(s.skip(2));
        }
        if braced_token(s) {
            let n = name_len(s.skip(2)) as int;
            lemma_skip_nul_free(s, n + 3);
            lemma_expand_nul_free(s.skip(n + 3), env);
            lemma_lookup_nul_free(env, s.subrange(2, n + 2));
            lemma_concat_nul_free(env_lookup(env, s.subrange(2, n + 2)), expand(s.skip(n + 3), env));
        } else if bare_token(s) {
            let n = name_len(s.skip(1)) as int;
            lemma_skip_nul_free(s, n + 1);
            lemma_expand_nul_free(s.skip(n + 1), env);
            lemma_lookup_nul_free(env, s.subrange(1, n + 1));
            lemma_concat_nul_free(env_lookup(env, s.subrange(1, n + 1)), expand(s.skip(n + 1), env));
        } else {
            lemma_skip_nul_free(s, 1);
            lemma_expand_nul_free(s.skip(1), env);
            assert(s[0] != '\0');
            assert(!has_nul(seq![s[0]]));
            lemma_concat_nul_free(seq![s[0]], expand(s.skip(1), env));
        }
    }
}

/// Relies on String::push: appends one character.
#[verifier::external_body]
fn push_char(s: &mut String, c: char)
    ensures
        final(s)@ == old(s)@.push(c),
{
    s.push(c)
}

/// The characters of `s`, in order.
pub fn chars_of(s: &String) -> (r: Vec<char>)
    ensures
        r@ == s@,
{
    let n: usize = s.as_str().unicode_len();
    let mut r: Vec<char> = Vec::new();
    let mut i: usize = 0;
    while i < n
        invariant
            n == s@.len(),
            i <= n,
            r@ == s@.subrange(0, i as int),
        decreases n - i,
    {
        let c = s.as_str().get_char(i);
        r.push(c);
        i = i + 1;
        assert(r@ =~= s@.subrange(0, i as int));
    }
    assert(r@ =~= s@);
    r
}

/// Whether `s` holds an embedded NUL character.
pub fn contains_nul(s: &String) -> (r: bool)
    ensures
        r == has_nul(s@),
{
    let cs = chars_of(s);
    let mut i: usize = 0;
    while i < cs.len()
        invariant
            cs@ == s@,
            i <= cs.len(),
            forall|k: int| 0 <= k < i ==> cs@[k] != '\0',
        decreases cs.len() - i,
    {
        if cs[i] == '\0' {
            return true;
        }
        i = i + 1;
    }
    false
}

fn is_name_char_exec(c: char) -> (r: bool)
    ensures
        r == is_name_char(c),
{
    ('a' <= c && c <= 'z') || ('A' <= c && c <= 'Z') || ('0' <= c && c <= '9') || c == '_'
}

/// End of the run of name characters that starts at `start`.
fn scan_name(cs: &Vec<char>, start: usize) -> (end: usize)
    requires
        start <= cs.len(),
    ensures
        start <= end <= cs.len(),
        end - start == name_len(cs@.skip(start as int)),
{
    let mut j: usize = start;
    while j < cs.len() && is_name_char_exec(cs[j])
        invariant
            start <= j <= cs.len(),
            name_len(cs@.skip(start as int)) == (j - start) + name_len(cs@.skip(j as int)),
        decreases cs.len() - j,
    {
        assert(cs@.skip(j as int).drop_first() =~= cs@.skip(j + 1));
        j = j + 1;
    }
    j
}

/// The string made of `cs[from..to]`.
fn string_of(cs: &Vec<char>, from: usize, to: usize) -> (r: String)
    requires
        from <= to <= cs.len(),
    ensures
        r@ == cs@.subrange(from as int, to as int),
{
    let mut r = String::new();
    let mut i: usize = from;
    while i < to
        invariant
            from <= i <= to <= cs.len(),
            r@ == cs@.subrange(from as int, i as int),
        decreases to - i,
    {
        push_char(&mut r, cs[i]);
        i = i + 1;
        assert(r@ =~= cs@.subrange(from as int, i as int));
    }
    r
}

/// Value of `name` in `env`, empty when unset.
pub fn lookup_env(env: &Vec<KeyValuePair>, name: &String) -> (r: String)
    ensures
        r@ == env_lookup(env@, name@),
{
    let mut k: usize = 0;
    assert(env@.skip(0) =~= env@);
    while k < env.len()
        invariant
            k <= env.len(),
            env_lookup(env@, name@) == env_lookup(env@.skip(k as int), name@),
        decreases env.len() - k,
    {
        assert(env@.skip(k as int).drop_first() =~= env@.skip(k + 1));
        if env[k].key == *name {
            return env[k].val.clone();
        }
        k = k + 1;
    }
    assert(env@.skip(k as int).len() == 0);
    String::new()
}

/// Expands every `${NAME}` and `$NAME` token of `s` against `env`.
pub fn expand_vars(s: &String, env: &Vec<KeyValuePair>) -> (r: String)
    ensures
        r@ == expand(s@, env@),
{
    let cs = chars_of(s);
    let n: usize = cs.len();
    let mut out = String::new();
    let mut i: usize = 0;
    assert(cs@.skip(0) =~= cs@);
    while i < n
        invariant
            n == cs.len(),
            i <= n,
            out@ + expand(cs@.skip(i as int), env@) == expand(s@, env@),
            cs@ == s@,
        decreases n - i,
    {
        let ghost rest = cs@.skip(i as int);
        if cs[i] == '$' && i + 1 < n && cs[i + 1] == '{' {
            let e = scan_name(&cs, i + 2);
            assert(rest.skip(2) =~= cs@.skip(i + 2));
            if e < n && cs[e] == '}' {
                let name = string_of(&cs, i + 2, e);
                assert(braced_token(rest));
                assert(rest.subrange(2, (e - i) as int) =~= name@);
                assert(rest.skip(e - i + 1) =~= cs@.skip(e + 1));
                let v = lookup_env(env, &name);
                out.append(v.as_str());
                i = e + 1;
                continue;
            }
            assert(!braced_token(rest));
        }
        if cs[i] == '$' {
            let e = scan_name(&cs, i + 1);
            assert(rest.skip(1) =~= cs@.skip(i + 1));
            if e > i + 1 {
                let name = string_of(&cs, i + 1, e);
                assert(bare_token(rest));
                assert(rest.subrange(1, (e - i) as int) =~= name@);
                assert(rest.skip(e - i) =~= cs@.skip(e as int));
                let v = lookup_env(env, &name);
                out.append(v.as_str());
                i = e;
                continue;
            }
        }
        assert(rest.skip(1) =~= cs@.skip(i + 1));
        push_char(&mut out, cs[i]);
        i = i + 1;
    }
    assert(out@ =~= expand(s@, env@));
    out
}

} // verus!
