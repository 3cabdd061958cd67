//! The invocation surface: what one run of the tool was asked to do,
//! and the two small pieces of argument handling that carry logic —
//! splitting a delimiter-joined site group and joining query words.
//! The declarative flag definitions themselves live with the caller.

use vstd::prelude::*;

use crate::config::Config;

verus! {

/// What one invocation asked for: an administrative action, an API key
/// to persist, a free-text query, and the resolved configuration.
pub struct Opts {
    pub list_sites: bool,
    pub update_sites: bool,
    pub set_api_key: Option<String>,
    pub query: Option<String>,
    pub config: Config,
}

/// The pieces of `l` joined with `sep` between consecutive pieces.
pub open spec fn join_sep(l: Seq<Seq<char>>, sep: char) -> Seq<char>
    decreases l.len(),
{
    if l.len() == 0 {
        Seq::empty()
    } else if l.len() == 1 {
        l[0]
    } else {
        l[0] + seq![sep] + join_sep(l.drop_first(), sep)
    }
}

/// Joining one more piece appends a separator and the piece, unless it
/// is the first.
proof fn lemma_join_sep_snoc(l: Seq<Seq<char>>, x: Seq<char>, sep: char)
    ensures
        join_sep(l.push(x), sep) == (if l.len() == 0 {
            x
        } else {
            join_sep(l, sep) + seq![sep] + x
        }),
    decreases l.len(),
{
    if l.len() == 0 {
        assert(l.push(x).len() == 1);
        assert(l.push(x)[0] == x);
    } else {
        assert(l.push(x)[0] == l[0]);
        assert(l.push(x).drop_first() =~= l.drop_first().push(x));
        lemma_join_sep_snoc(l.drop_first(), x, sep);
        if l.len() == 1 {
            assert(l.drop_first().len() == 0);
            assert(join_sep(l.push(x), sep) =~= join_sep(l, sep) + seq![sep] + x);
        } else {
            assert(join_sep(l.push(x), sep) =~= join_sep(l, sep) + seq![sep] + x);
        }
    }
}

/// Whether no piece of `l` contains the character `sep`.
pub open spec fn sep_free(l: Seq<Seq<char>>, sep: char) -> bool {
    forall|i: int, j: int| 0 <= i < l.len() && 0 <= j < l[i].len() ==> #[trigger] l[i][j] != sep
}

/// Splits a delimiter-joined site group into its codes.
///
/// The result is the unique list of semicolon-free pieces whose
/// semicolon-joining is the input; it always has at least one piece.
pub fn split_site_codes(s: &str) -> (r: Vec<String>)
    ensures
        r@.len() >= 1,
        sep_free(r.deep_view(), ';'),
        join_sep(r.deep_view(), ';') == s@,
{
    let n = s.unicode_len();
    let mut out: Vec<String> = Vec::new();
    let mut cur: Vec<char> = Vec::new();
    let mut i: usize = 0;
    assert(s@.take(0) =~= Seq::<char>::empty());
    while i < n
        invariant
            0 <= i <= n,
            n == s@.len(),
            sep_free(out.deep_view(), ';'),
            forall|j: int| 0 <= j < cur@.len() ==> #[trigger] cur@[j] != ';',
            (if out@.len() == 0 {
                cur@ == s@.take(i as int)
            } else {
                join_sep(out.deep_view(), ';') + seq![';'] + cur@ == s@.take(i as int)
            }),
        decreases n - i,
    {
        let c = s.get_char(i);
        let ghost pre_out = out.deep_view();
        let ghost pre_cur = cur@;
        if c == ';' {
            let piece = crate::codec::chars_to_string(&cur);
            out.push(piece);
            cur = Vec::new();
            proof {
                assert(out.deep_view() =~= pre_out.push(pre_cur));
                lemma_join_sep_snoc(pre_out, pre_cur, ';');
                assert(s@.take(i + 1) =~= s@.take(i as int).push(';'));
                if pre_out.len() == 0 {
                    assert(join_sep(out.deep_view(), ';') + seq![';'] + cur@ =~= s@.take(i + 1));
                } else {
                    assert(join_sep(out.deep_view(), ';') + seq![';'] + cur@ =~= s@.take(i + 1));
                }
            }
        } else {
            cur.push(c);
            proof {
                assert(s@.take(i + 1) =~= s@.take(i as int).push(s@[i as int]));
                if out@.len() == 0 {
                    assert(cur@ =~= s@.take(i + 1));
                } else {
                    assert(join_sep(out.deep_view(), ';') + seq![';'] + cur@ =~= s@.take(i + 1));
                }
            }
        }
        i = i + 1;
    }
    let ghost pre_out = out.deep_view();
    let ghost pre_cur = cur@;
    let last = crate::codec::chars_to_string(&cur);
    out.push(last);
    proof {
        assert(out.deep_view() =~= pre_out.push(pre_cur));
        lemma_join_sep_snoc(pre_out, pre_cur, ';');
        assert(s@.take(n as int) =~= s@);
        if pre_out.len() == 0 {
            assert(join_sep(out.deep_view(), ';') =~= s@);
        } else {
            assert(join_sep(out.deep_view(), ';') =~= s@);
        }
    }
    out
}

/// Joins free-text query words with single spaces, in order.
pub fn join_query_words(words: &Vec<String>) -> (r: String)
    ensures
        r@ == join_sep(words.deep_view(), ' '),
{
    let mut acc = String::new();
    let n = words.len();
    let mut i: usize = 0;
    assert(words.deep_view().take(0) =~= Seq::<Seq<char>>::empty());
    while i < n
        invariant
            0 <= i <= n,
            n == words@.len(),
            acc@ == join_sep(words.deep_view().take(i as int), ' '),
        decreases n - i,
    {
        let ghost dv = words.deep_view();
        if i > 0 {
            acc.append(" ");
        }
        acc.append(words[i].as_str());
        proof {
            lemma_join_sep_snoc(dv.take(i as int), dv[i as int], ' ');
            assert(dv.take(i + 1) =~= dv.take(i as int).push(dv[i as int]));
            reveal_strlit(" ");
            assert(" "@ =~= seq![' ']);
            if i > 0 {
                assert(acc@ =~= join_sep(dv.take(i + 1), ' '));
            } else {
                assert(acc@ =~= join_sep(dv.take(i + 1), ' '));
            }
        }
        i = i + 1;
    }
    assert(words.deep_view().take(n as int) =~= words.deep_view());
    acc
}

} // verus!
