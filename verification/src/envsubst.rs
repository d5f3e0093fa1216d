//! Substitution of `${NAME}` in a text by the value of the variable `NAME`.
//!
//! A token starts at `${` and ends at the first `}` that follows on the
//! same line. The tokens of a text are found from left to right, each
//! after the end of the one before. The name of a token is the token
//! without its `$`, `{` and `}`. For each token in turn whose name is a
//! variable, every occurrence of the token in the text is replaced by the
//! value.

use crate::string_map::StringMap;
use crate::text::chars_of;
use crate::text::string_of;
use vstd::prelude::*;

verus! {

/// Where the first `}` at or after `from` stands, if no line break comes
/// before it.
pub open spec fn spec_find_close(s: Seq<char>, from: int) -> Option<int>
    decreases s.len() - from,
{
    if from < 0 || from >= s.len() {
        None
    } else if s[from] == '}' {
        Some(from)
    } else if s[from] == '\n' {
        None
    } else {
        spec_find_close(s, from + 1)
    }
}

/// The leftmost token that starts at or after `from`: where its `$` and
/// where its `}` stand.
pub open spec fn spec_next_token(s: Seq<char>, from: int) -> Option<(int, int)>
    decreases s.len() - from,
{
    if from < 0 || from + 1 >= s.len() {
        None
    } else if s[from] == '$' && s[from + 1] == '{' && spec_find_close(s, from + 2) is Some {
        Some((from, spec_find_close(s, from + 2)->Some_0))
    } else {
        spec_next_token(s, from + 1)
    }
}

/// The tokens that start at or after `from`, from left to right.
pub open spec fn spec_tokens(s: Seq<char>, from: int) -> Seq<Seq<char>>
    decreases s.len() - from,
{
    match spec_next_token(s, from) {
        Some((start, end)) if from <= start < end < s.len() => seq![s.subrange(start, end + 1)]
            + spec_tokens(s, end + 1),
        _ => Seq::empty(),
    }
}

/// The characters that a name keeps: all but `$`, `{` and `}`.
pub open spec fn is_name_char() -> spec_fn(char) -> bool {
    |c: char| c != '$' && c != '{' && c != '}'
}

/// The name of a token: the token without its `$`, `{` and `}`.
pub open spec fn spec_env_key(token: Seq<char>) -> Seq<char> {
    token.filter(is_name_char())
}

/// Whether `needle` stands in `hay` at `at`.
pub open spec fn occurs_at(hay: Seq<char>, needle: Seq<char>, at: int) -> bool {
    0 <= at && at + needle.len() <= hay.len() && hay.subrange(at, at + needle.len()) == needle
}

/// The text of `hay` from `from` on, with `with` in place of every
/// occurrence of `needle`, taken from left to right, none overlapping
/// another.
pub open spec fn spec_replace_from(hay: Seq<char>, needle: Seq<char>, with: Seq<char>, from: int)
    -> Seq<char>
    decreases hay.len() - from,
{
    if from < 0 || from >= hay.len() || needle.len() == 0 {
        Seq::empty()
    } else if occurs_at(hay, needle, from) {
        with + spec_replace_from(hay, needle, with, from + needle.len())
    } else {
        seq![hay[from]] + spec_replace_from(hay, needle, with, from + 1)
    }
}

/// The text with `with` in place of every occurrence of `needle`; the
/// text as it is where `needle` is empty.
pub open spec fn spec_replace(hay: Seq<char>, needle: Seq<char>, with: Seq<char>) -> Seq<char> {
    if needle.len() == 0 {
        hay
    } else {
        spec_replace_from(hay, needle, with, 0)
    }
}

/// The text after the tokens are dealt with in turn: for a token whose
/// name is a variable, the value stands in place of every occurrence of
/// the token; a token of another name stays.
pub open spec fn spec_substitute(
    text: Seq<char>,
    tokens: Seq<Seq<char>>,
    env: Map<Seq<char>, String>,
) -> Seq<char>
    decreases tokens.len(),
{
    if tokens.len() == 0 {
        text
    } else {
        let token = tokens.first();
        let key = spec_env_key(token);
        let next = if env.contains_key(key) {
            spec_replace(text, token, env[key]@)
        } else {
            text
        };
        spec_substitute(next, tokens.drop_first(), env)
    }
}

/// The text with the value of each variable in place of its token.
pub open spec fn spec_dollar_curly(src: Seq<char>, env: Map<Seq<char>, String>) -> Seq<char> {
    spec_substitute(src, spec_tokens(src, 0), env)
}

fn find_close(s: &Vec<char>, from: usize) -> (r: Option<usize>)
    ensures
        match r {
            Some(e) => spec_find_close(s@, from as int) == Some(e as int) && from <= e < s@.len(),
            None => spec_find_close(s@, from as int) is None,
        },
{
    let mut i: usize = from;
    while i < s.len()
        invariant
            from <= i,
            spec_find_close(s@, from as int) == spec_find_close(s@, i as int),
        decreases s@.len() - i,
    {
        if s[i] == '}' {
            return Some(i);
        }
        if s[i] == '\n' {
            return None;
        }
        i = i + 1;
    }
    None
}

fn next_token(s: &Vec<char>, from: usize) -> (r: Option<(usize, usize)>)
    ensures
        match r {
            Some((start, end)) => spec_next_token(s@, from as int) == Some(
                (start as int, end as int),
            ) && from <= start < end < s@.len(),
            None => spec_next_token(s@, from as int) is None,
        },
{
    let mut i: usize = from;
    while i < s.len() && i + 1 < s.len()
        invariant
            from <= i,
            spec_next_token(s@, from as int) == spec_next_token(s@, i as int),
        decreases s@.len() - i,
    {
        if s[i] == '$' && s[i + 1] == '{' {
            match find_close(s, i + 2) {
                Some(end) => {
                    return Some((i, end));
                },
                None => {},
            }
        }
        i = i + 1;
    }
    None
}

fn copy_range(s: &Vec<char>, start: usize, end: usize) -> (r: Vec<char>)
    requires
        start <= end <= s@.len(),
    ensures
        r@ == s@.subrange(start as int, end as int),
{
    let mut out: Vec<char> = Vec::new();
    let mut i: usize = start;
    while i < end
        invariant
            start <= i <= end <= s@.len(),
            out@ == s@.subrange(start as int, i as int),
        decreases end - i,
    {
        out.push(s[i]);
        assert(s@.subrange(start as int, i + 1) =~= s@.subrange(start as int, i as int).push(
            s@[i as int],
        ));
        i = i + 1;
    }
    out
}

fn find_tokens(s: &Vec<char>) -> (r: Vec<Vec<char>>)
    ensures
        r@.map_values(|t: Vec<char>| t@) == spec_tokens(s@, 0),
{
    let mut tokens: Vec<Vec<char>> = Vec::new();
    let mut from: usize = 0;
    let ghost view = |t: Vec<char>| t@;
    assert(tokens@.map_values(view) + spec_tokens(s@, 0) =~= spec_tokens(s@, 0));
    assert(s@.len() == s.len());
    loop
        invariant
            from <= s@.len() <= usize::MAX,
            view == |t: Vec<char>| t@,
            spec_tokens(s@, 0) == tokens@.map_values(view) + spec_tokens(s@, from as int),
        decreases s@.len() - from,
    {
        match next_token(s, from) {
            None => {
                assert(tokens@.map_values(view) + Seq::<Seq<char>>::empty() =~= tokens@.map_values(
                    view,
                ));
                return tokens;
            },
            Some((start, end)) => {
                let token = copy_range(s, start, end + 1);
                let ghost before = tokens@.map_values(view);
                tokens.push(token);
                proof {
                    assert(tokens@.map_values(view) =~= before.push(token@));
                    assert(before + (seq![token@] + spec_tokens(s@, end + 1)) =~= before.push(
                        token@,
                    ) + spec_tokens(s@, end + 1));
                }
                from = end + 1;
            },
        }
    }
}

fn env_key(token: &Vec<char>) -> (r: Vec<char>)
    ensures
        r@ == spec_env_key(token@),
{
    let mut key: Vec<char> = Vec::new();
    let mut i: usize = 0;
    proof {
        reveal(Seq::filter);
        assert(token@.subrange(0, 0) =~= Seq::<char>::empty());
    }
    while i < token.len()
        invariant
            i <= token@.len(),
            key@ == token@.subrange(0, i as int).filter(is_name_char()),
        decreases token@.len() - i,
    {
        let c = token[i];
        proof {
            reveal(Seq::filter);
            assert(token@.subrange(0, i + 1).drop_last() =~= token@.subrange(0, i as int));
        }
        if c != '$' && c != '{' && c != '}' {
            key.push(c);
        }
        i = i + 1;
    }
    assert(token@.subrange(0, i as int) =~= token@);
    key
}

fn occurs(hay: &Vec<char>, needle: &Vec<char>, at: usize) -> (r: bool)
    requires
        at <= hay@.len(),
    ensures
        r == occurs_at(hay@, needle@, at as int),
{
    if needle.len() > hay.len() - at {
        return false;
    }
    let mut j: usize = 0;
    while j < needle.len()
        invariant
            j <= needle@.len(),
            at + needle@.len() <= hay@.len() <= usize::MAX,
            forall|k: int| 0 <= k < j ==> hay@[at + k] == needle@[k],
        decreases needle@.len() - j,
    {
        if hay[at + j] != needle[j] {
            assert(hay@.subrange(at as int, at + needle@.len())[j as int] != needle@[j as int]);
            return false;
        }
        j = j + 1;
    }
    assert(hay@.subrange(at as int, at + needle@.len()) =~= needle@);
    true
}

fn replace(hay: &Vec<char>, needle: &Vec<char>, with: &Vec<char>) -> (r: Vec<char>)
    ensures
        r@ == spec_replace(hay@, needle@, with@),
{
    if needle.len() == 0 {
        return hay.clone();
    }
    let mut out: Vec<char> = Vec::new();
    let mut from: usize = 0;
    assert(out@ + spec_replace_from(hay@, needle@, with@, 0) =~= spec_replace_from(
        hay@,
        needle@,
        with@,
        0,
    ));
    while from < hay.len()
        invariant
            from <= hay@.len(),
            needle@.len() > 0,
            spec_replace(hay@, needle@, with@) == out@ + spec_replace_from(
                hay@,
                needle@,
                with@,
                from as int,
            ),
        decreases hay@.len() - from,
    {
        let ghost before = out@;
        if occurs(hay, needle, from) {
            let mut j: usize = 0;
            while j < with.len()
                invariant
                    j <= with@.len(),
                    out@ == before + with@.take(j as int),
                decreases with@.len() - j,
            {
                out.push(with[j]);
                assert(before + with@.take(j + 1) =~= (before + with@.take(j as int)).push(
                    with@[j as int],
                ));
                j = j + 1;
            }
            proof {
                assert(with@.take(j as int) =~= with@);
                assert(before + (with@ + spec_replace_from(
                    hay@,
                    needle@,
                    with@,
                    from + needle@.len(),
                )) =~= (before + with@) + spec_replace_from(
                    hay@,
                    needle@,
                    with@,
                    from + needle@.len(),
                ));
            }
            from = from + needle.len();
        } else {
            out.push(hay[from]);
            proof {
                assert(before + (seq![hay@[from as int]] + spec_replace_from(
                    hay@,
                    needle@,
                    with@,
                    from + 1,
                )) =~= before.push(hay@[from as int]) + spec_replace_from(
                    hay@,
                    needle@,
                    with@,
                    from + 1,
                ));
            }
            from = from + 1;
        }
    }
    assert(out@ + Seq::<char>::empty() =~= out@);
    out
}

/// Puts the value of each variable of `env` in place of its token
/// `${NAME}` in `src`. A token whose name is no variable stays as it is.
pub fn dollar_curly(src: &str, env: &StringMap<String>) -> (r: String)
    ensures
        r@ == spec_dollar_curly(src@, env@),
{
    let chars = chars_of(src);
    let tokens = find_tokens(&chars);
    let mut result: Vec<char> = chars.clone();
    let ghost view = |t: Vec<char>| t@;
    let ghost all = tokens@.map_values(view);
    assert(result@ =~= src@);
    assert(all.subrange(0, all.len() as int) =~= all);
    let mut i: usize = 0;
    while i < tokens.len()
        invariant
            i <= tokens@.len(),
            all == tokens@.map_values(|t: Vec<char>| t@),
            spec_dollar_curly(src@, env@) == spec_substitute(
                result@,
                all.subrange(i as int, all.len() as int),
                env@,
            ),
        decreases tokens@.len() - i,
    {
        let token = &tokens[i];
        let key = string_of(&env_key(token));
        proof {
            let rest = all.subrange(i as int, all.len() as int);
            assert(rest.first() == token@);
            assert(rest.drop_first() =~= all.subrange(i + 1, all.len() as int));
        }
        match env.get(key.as_str()) {
            Some(value) => {
                let with = chars_of(value.as_str());
                result = replace(&result, token, &with);
            },
            None => {},
        }
        i = i + 1;
    }
    string_of(&result)
}

} // verus!
