//! Text utilities shared by the resolver and the builtins: exact string
//! comparison, tokenizing an input line on whitespace, splitting a search
//! path on `:`, and joining words with single spaces.

use vstd::prelude::*;
use vstd::string::*;

verus! {

/// Characters that separate the tokens of an input line.
pub open spec fn is_space(c: char) -> bool {
    c == ' ' || c == '\t' || c == '\r' || c == '\n'
}

/// The whitespace-separated tokens of a line, in order, each non-empty.
pub open spec fn tokens_of(s: Seq<char>) -> Seq<Seq<char>>
    decreases s.len(),
{
    if s.len() == 0 {
        Seq::empty()
    } else {
        let r = tokens_of(s.drop_last());
        let c = s.last();
        if is_space(c) {
            r
        } else if s.len() >= 2 && !is_space(s[s.len() - 2]) {
            r.update(r.len() - 1, r.last().push(c))
        } else {
            r.push(seq![c])
        }
    }
}

/// Tokens are well formed: every token of a line is non-empty and holds no
/// separator character, so a command name is always a real word.
pub proof fn lemma_tokens_of_wellformed(s: Seq<char>)
    ensures
        forall|k: int|
            0 <= k < tokens_of(s).len() ==> (#[trigger] tokens_of(s)[k]).len() > 0 && (forall|
                j: int,
            |
                0 <= j < tokens_of(s)[k].len() ==> !is_space(#[trigger] tokens_of(s)[k][j])),
        s.len() > 0 && !is_space(s.last()) ==> tokens_of(s).len() > 0,
    decreases s.len(),
{
    if s.len() > 0 {
        lemma_tokens_of_wellformed(s.drop_last());
        let r = tokens_of(s.drop_last());
        let c = s.last();
        if !is_space(c) && s.len() >= 2 && !is_space(s[s.len() - 2]) {
            assert(s.drop_last().last() == s[s.len() - 2]);
            assert(r.len() > 0);
            assert(tokens_of(s) == r.update(r.len() - 1, r.last().push(c)));
            assert forall|k: int|
                0 <= k < tokens_of(s).len() implies (#[trigger] tokens_of(s)[k]).len() > 0 && (
            forall|j: int|
                0 <= j < tokens_of(s)[k].len() ==> !is_space(
                    #[trigger] tokens_of(s)[k][j],
                )) by {
                if k == r.len() - 1 {
                    assert(tokens_of(s)[k] == r.last().push(c));
                    assert forall|j: int|
                        0 <= j < tokens_of(s)[k].len() implies !is_space(
                        #[trigger] tokens_of(s)[k][j],
                    ) by {
                        if j < r.last().len() {
                            assert(tokens_of(s)[k][j] == r.last()[j]);
                        } else {
                            assert(tokens_of(s)[k][j] == c);
                        }
                    }
                } else {
                    assert(tokens_of(s)[k] == r[k]);
                }
            }
        }
    }
}

/// The views of a sequence of strings.
pub open spec fn str_views(xs: Seq<String>) -> Seq<Seq<char>> {
    xs.map_values(|x: String| x@)
}

/// The fields of `s` split on `:`, in order.  A value with no `:` is one
/// field; every `:` opens a new field, so there is always at least one.
pub open spec fn split_colon(s: Seq<char>) -> Seq<Seq<char>>
    decreases s.len(),
{
    if s.len() == 0 {
        seq![Seq::<char>::empty()]
    } else if s.last() == ':' {
        split_colon(s.drop_last()).push(Seq::<char>::empty())
    } else {
        let r = split_colon(s.drop_last());
        r.update(r.len() - 1, r.last().push(s.last()))
    }
}

/// The words of `parts` joined with a single space between neighbours.
pub open spec fn join_spaces(parts: Seq<Seq<char>>) -> Seq<char>
    decreases parts.len(),
{
    if parts.len() == 0 {
        Seq::<char>::empty()
    } else if parts.len() == 1 {
        parts[0]
    } else {
        parts[0] + " "@ + join_spaces(parts.drop_first())
    }
}

/// Pushing the views of strings one by one builds the view sequence.
pub proof fn lemma_str_views_push(xs: Seq<String>, x: String)
    ensures
        str_views(xs.push(x)) == str_views(xs).push(x@),
{
    assert(str_views(xs.push(x)) =~= str_views(xs).push(x@));
}

/// Joining one more word appends a space and the word, except to nothing.
pub proof fn lemma_join_spaces_push(parts: Seq<Seq<char>>, x: Seq<char>)
    ensures
        join_spaces(parts.push(x)) == if parts.len() == 0 {
            x
        } else {
            join_spaces(parts) + " "@ + x
        },
    decreases parts.len(),
{
    if parts.len() == 0 {
        assert(parts.push(x)[0] == x);
    } else {
        assert(parts.push(x).drop_first() =~= parts.drop_first().push(x));
        lemma_join_spaces_push(parts.drop_first(), x);
        if parts.len() >= 2 {
            assert(parts[0] + " "@ + (join_spaces(parts.drop_first()) + " "@ + x) =~= (parts[0]
                + " "@ + join_spaces(parts.drop_first())) + " "@ + x);
        }
    }
}

/// Exact equality of two strings, decided character by character.
pub fn str_eq(a: &str, b: &str) -> (r: bool)
    ensures
        r == (a@ == b@),
{
    let na = a.unicode_len();
    let nb = b.unicode_len();
    if na != nb {
        return false;
    }
    let mut i: usize = 0;
    while i < na
        invariant
            i <= na,
            na == a@.len(),
            nb == b@.len(),
            na == nb,
            forall|j: int| 0 <= j < i ==> a@[j] == b@[j],
        decreases na - i,
    {
        let ca = a.get_char(i);
        let cb = b.get_char(i);
        if ca != cb {
            return false;
        }
        i += 1;
    }
    proof {
        assert(a@ =~= b@);
    }
    true
}

/// The whitespace-separated tokens of `line`, in order, as owned strings.
pub fn split_tokens(line: &str) -> (tokens: Vec<String>)
    ensures
        str_views(tokens@) == tokens_of(line@),
{
    let n = line.unicode_len();
    let mut tokens: Vec<String> = Vec::new();
    let mut start: usize = 0;
    let mut in_token: bool = false;
    let mut i: usize = 0;
    proof {
        assert(str_views(tokens@) =~~= tokens_of(line@.take(0)));
    }
    while i < n
        invariant
            i <= n,
            n == line@.len(),
            !in_token ==> str_views(tokens@) == tokens_of(line@.take(i as int)) && (i == 0
                || is_space(line@[i as int - 1])),
            in_token ==> start < i && (forall|j: int|
                start <= j < i ==> !is_space(line@[j])) && tokens_of(line@.take(i as int))
                == str_views(tokens@).push(line@.subrange(start as int, i as int)),
        decreases n - i,
    {
        let c = line.get_char(i);
        proof {
            assert(line@.take(i as int + 1).drop_last() =~= line@.take(i as int));
            assert(line@.take(i as int + 1).last() == line@[i as int]);
        }
        if c == ' ' || c == '\t' || c == '\r' || c == '\n' {
            if in_token {
                let word = line.substring_char(start, i);
                let ghost before = tokens@;
                tokens.push(word.to_owned());
                proof {
                    lemma_str_views_push(before, tokens@.last());
                }
                in_token = false;
            }
        } else {
            if !in_token {
                start = i;
                in_token = true;
                proof {
                    assert(line@.subrange(i as int, i as int + 1) =~= seq![line@[i as int]]);
                }
            } else {
                proof {
                    assert(line@.subrange(start as int, i as int).push(line@[i as int])
                        =~= line@.subrange(start as int, i as int + 1));
                    let r = tokens_of(line@.take(i as int));
                    assert(r.update(r.len() - 1, r.last().push(line@[i as int]))
                        =~= str_views(tokens@).push(
                        line@.subrange(start as int, i as int + 1),
                    ));
                }
            }
        }
        i += 1;
    }
    proof {
        assert(line@.take(n as int) =~= line@);
    }
    if in_token {
        let word = line.substring_char(start, n);
        let ghost before = tokens@;
        tokens.push(word.to_owned());
        proof {
            lemma_str_views_push(before, tokens@.last());
        }
    }
    tokens
}

/// The fields of `path_value` split on `:`, in order, as owned strings.
pub fn split_search_path(path_value: &str) -> (dirs: Vec<String>)
    ensures
        str_views(dirs@) == split_colon(path_value@),
{
    let n = path_value.unicode_len();
    let mut dirs: Vec<String> = Vec::new();
    let mut start: usize = 0;
    let mut i: usize = 0;
    proof {
        assert(str_views(dirs@).push(path_value@.subrange(0, 0)) =~~= split_colon(
            path_value@.take(0),
        ));
    }
    while i < n
        invariant
            start <= i <= n,
            n == path_value@.len(),
            str_views(dirs@).push(path_value@.subrange(start as int, i as int)) == split_colon(
                path_value@.take(i as int),
            ),
        decreases n - i,
    {
        let c = path_value.get_char(i);
        proof {
            assert(path_value@.take(i as int + 1).drop_last() =~= path_value@.take(i as int));
            assert(path_value@.take(i as int + 1).last() == path_value@[i as int]);
        }
        if c == ':' {
            let field = path_value.substring_char(start, i);
            let ghost before = dirs@;
            dirs.push(field.to_owned());
            proof {
                lemma_str_views_push(before, dirs@.last());
                assert(path_value@.subrange(i as int + 1, i as int + 1) =~= Seq::<char>::empty());
                assert(str_views(before).push(path_value@.subrange(start as int, i as int)).push(
                    Seq::<char>::empty(),
                ) =~= str_views(dirs@).push(path_value@.subrange(i as int + 1, i as int + 1)));
            }
            start = i + 1;
        } else {
            proof {
                assert(path_value@.subrange(start as int, i as int).push(path_value@[i as int])
                    =~= path_value@.subrange(start as int, i as int + 1));
                let r = split_colon(path_value@.take(i as int));
                assert(r.update(r.len() - 1, r.last().push(path_value@[i as int]))
                    =~= str_views(dirs@).push(
                    path_value@.subrange(start as int, i as int + 1),
                ));
            }
        }
        i += 1;
    }
    let field = path_value.substring_char(start, n);
    let ghost before = dirs@;
    dirs.push(field.to_owned());
    proof {
        lemma_str_views_push(before, dirs@.last());
        assert(path_value@.take(n as int) =~= path_value@);
    }
    dirs
}

/// The arguments joined with single spaces, as `echo` writes them.
pub fn join_with_spaces(args: &Vec<String>) -> (out: String)
    ensures
        out@ == join_spaces(str_views(args@)),
{
    let mut out = String::new();
    let mut i: usize = 0;
    proof {
        assert(join_spaces(str_views(args@).take(0)) =~= Seq::<char>::empty());
    }
    while i < args.len()
        invariant
            i <= args@.len(),
            out@ == join_spaces(str_views(args@).take(i as int)),
        decreases args@.len() - i,
    {
        if i > 0 {
            out.append(" ");
        }
        out.append(args[i].as_str());
        proof {
            let vs = str_views(args@);
            assert(vs.take(i as int).push(vs[i as int]) =~= vs.take(i as int + 1));
            lemma_join_spaces_push(vs.take(i as int), vs[i as int]);
            if i == 0 {
                assert(Seq::<char>::empty() + vs[0] =~= vs[0]);
            }
        }
        i += 1;
    }
    proof {
        assert(str_views(args@).take(args@.len() as int) =~= str_views(args@));
    }
    out
}

} // verus!
