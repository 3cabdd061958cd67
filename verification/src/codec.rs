//! The on-disk codec for the site list.
//!
//! The registry persists the full site list as one JSON array of
//! two-field objects, and reads it back on a cold load.  Both directions
//! are defined here against the same character-level grammar: `render`
//! emits the canonical encoding of a list, and `parse` accepts exactly
//! the canonical encodings, so a parse of a render gives the list back
//! ([`lemma_cache_round_trip`]).  Anything else is corrupt data, which
//! the registry must surface rather than mask.

use vstd::prelude::*;

use crate::sites::{Site, SiteV};

verus! {

/// The opening of one site object, up to and including the quote that
/// starts the site-code string.
pub open spec fn lit_code_key() -> Seq<char> {
    seq![
        '{', '"', 'a', 'p', 'i', '_', 's', 'i', 't', 'e', '_', 'p', 'a', 'r', 'a', 'm', 'e',
        't', 'e', 'r', '"', ':', '"',
    ]
}

/// The middle of one site object: the quote closing the site code, the
/// URL key, and the quote opening the URL string.
pub open spec fn lit_url_key() -> Seq<char> {
    seq!['"', ',', '"', 's', 'i', 't', 'e', '_', 'u', 'r', 'l', '"', ':', '"']
}

/// The end of one site object: the quote closing the URL string and the
/// closing brace.
pub open spec fn lit_obj_end() -> Seq<char> {
    seq!['"', '}']
}

/// The escaped form of a string body: a quote or backslash is preceded
/// by a backslash, every other character stands as itself.
///
/// Control characters are carried raw: they round-trip through this
/// codec's own parser for every value, but the emitted text is strict
/// JSON only when the values contain none — which holds for the site
/// records this format carries.
pub open spec fn esc_s(t: Seq<char>) -> Seq<char>
    decreases t.len(),
{
    if t.len() == 0 {
        Seq::empty()
    } else {
        (if t[0] == '"' || t[0] == '\\' {
            seq!['\\', t[0]]
        } else {
            seq![t[0]]
        }) + esc_s(t.drop_first())
    }
}

/// The canonical encoding of one site descriptor.
pub open spec fn render_site_s(v: SiteV) -> Seq<char> {
    lit_code_key() + esc_s(v.api_site_parameter) + lit_url_key() + esc_s(v.site_url)
        + lit_obj_end()
}

/// The encodings of all sites after the first, each preceded by a comma.
pub open spec fn render_tail_s(l: Seq<SiteV>) -> Seq<char>
    decreases l.len(),
{
    if l.len() == 0 {
        Seq::empty()
    } else {
        seq![','] + render_site_s(l[0]) + render_tail_s(l.drop_first())
    }
}

/// The comma-separated encodings of a list of sites.
pub open spec fn render_items_s(l: Seq<SiteV>) -> Seq<char> {
    if l.len() == 0 {
        Seq::empty()
    } else {
        render_site_s(l[0]) + render_tail_s(l.drop_first())
    }
}

/// The canonical encoding of a full site list: a JSON array.
pub open spec fn render_sites_s(l: Seq<SiteV>) -> Seq<char> {
    seq!['['] + render_items_s(l) + seq![']']
}

/// One state of the parser: what has been accepted so far, and what the
/// next character may be.  `Fail` is absorbing; only an input that ends
/// exactly in `Done` is well-formed.
pub enum ScanSt {
    Fail,
    Start,
    ExpectFirst,
    LitCode { items: Seq<SiteV>, pos: int },
    StrCode { items: Seq<SiteV>, code: Seq<char> },
    EscCode { items: Seq<SiteV>, code: Seq<char> },
    LitUrl { items: Seq<SiteV>, code: Seq<char>, pos: int },
    StrUrl { items: Seq<SiteV>, code: Seq<char>, url: Seq<char> },
    EscUrl { items: Seq<SiteV>, code: Seq<char>, url: Seq<char> },
    ObjEnd { items: Seq<SiteV>, code: Seq<char>, url: Seq<char> },
    AfterItem { items: Seq<SiteV> },
    ExpectObj { items: Seq<SiteV> },
    Done { items: Seq<SiteV> },
}

/// One step of the parser on one character.
pub open spec fn step_s(st: ScanSt, c: char) -> ScanSt {
    match st {
        ScanSt::Fail => ScanSt::Fail,
        ScanSt::Start => if c == '[' {
            ScanSt::ExpectFirst
        } else {
            ScanSt::Fail
        },
        ScanSt::ExpectFirst => {
            if c == ']' {
                ScanSt::Done { items: Seq::empty() }
            } else if c == '{' {
                ScanSt::LitCode { items: Seq::empty(), pos: 1 }
            } else {
                ScanSt::Fail
            }
        },
        ScanSt::LitCode { items, pos } => {
            if 0 <= pos < lit_code_key().len() && c == lit_code_key()[pos] {
                if pos == lit_code_key().len() - 1 {
                    ScanSt::StrCode { items, code: Seq::empty() }
                } else {
                    ScanSt::LitCode { items, pos: pos + 1 }
                }
            } else {
                ScanSt::Fail
            }
        },
        ScanSt::StrCode { items, code } => {
            if c == '"' {
                ScanSt::LitUrl { items, code, pos: 1 }
            } else if c == '\\' {
                ScanSt::EscCode { items, code }
            } else {
                ScanSt::StrCode { items, code: code.push(c) }
            }
        },
        ScanSt::EscCode { items, code } => {
            if c == '"' || c == '\\' {
                ScanSt::StrCode { items, code: code.push(c) }
            } else {
                ScanSt::Fail
            }
        },
        ScanSt::LitUrl { items, code, pos } => {
            if 0 <= pos < lit_url_key().len() && c == lit_url_key()[pos] {
                if pos == lit_url_key().len() - 1 {
                    ScanSt::StrUrl { items, code, url: Seq::empty() }
                } else {
                    ScanSt::LitUrl { items, code, pos: pos + 1 }
                }
            } else {
                ScanSt::Fail
            }
        },
        ScanSt::StrUrl { items, code, url } => {
            if c == '"' {
                ScanSt::ObjEnd { items, code, url }
            } else if c == '\\' {
                ScanSt::EscUrl { items, code, url }
            } else {
                ScanSt::StrUrl { items, code, url: url.push(c) }
            }
        },
        ScanSt::EscUrl { items, code, url } => {
            if c == '"' || c == '\\' {
                ScanSt::StrUrl { items, code, url: url.push(c) }
            } else {
                ScanSt::Fail
            }
        },
        ScanSt::ObjEnd { items, code, url } => {
            if c == '}' {
                ScanSt::AfterItem {
                    items: items.push(SiteV { api_site_parameter: code, site_url: url }),
                }
            } else {
                ScanSt::Fail
            }
        },
        ScanSt::AfterItem { items } => {
            if c == ',' {
                ScanSt::ExpectObj { items }
            } else if c == ']' {
                ScanSt::Done { items }
            } else {
                ScanSt::Fail
            }
        },
        ScanSt::ExpectObj { items } => {
            if c == '{' {
                ScanSt::LitCode { items, pos: 1 }
            } else {
                ScanSt::Fail
            }
        },
        ScanSt::Done { .. } => ScanSt::Fail,
    }
}

/// Runs the parser from `st` over all of `s`.
pub open spec fn scan_s(st: ScanSt, s: Seq<char>) -> ScanSt
    decreases s.len(),
{
    if s.len() == 0 {
        st
    } else {
        scan_s(step_s(st, s[0]), s.drop_first())
    }
}

/// The site list an input denotes, or `None` when the input is not a
/// canonical encoding of any list.
pub open spec fn parse_sites_s(s: Seq<char>) -> Option<Seq<SiteV>> {
    match scan_s(ScanSt::Start, s) {
        ScanSt::Done { items } => Some(items),
        _ => None,
    }
}

/// Scanning a concatenation scans each part in turn.
proof fn lemma_scan_append(st: ScanSt, a: Seq<char>, b: Seq<char>)
    ensures
        scan_s(st, a + b) == scan_s(scan_s(st, a), b),
    decreases a.len(),
{
    if a.len() == 0 {
        assert(a + b =~= b);
    } else {
        assert((a + b)[0] == a[0]);
        assert((a + b).drop_first() =~= a.drop_first() + b);
        lemma_scan_append(step_s(st, a[0]), a.drop_first(), b);
    }
}

/// Scanning one character is one step.
proof fn lemma_scan_one(st: ScanSt, c: char)
    ensures
        scan_s(st, seq![c]) == step_s(st, c),
{
    let s = seq![c];
    assert(s[0] == c);
    assert(s.drop_first() =~= Seq::<char>::empty());
    assert(scan_s(step_s(st, c), Seq::<char>::empty()) == step_s(st, c));
    assert(scan_s(st, s) == scan_s(step_s(st, s[0]), s.drop_first()));
}

/// Finishing the site-code key literal from any position inside it.
proof fn lemma_scan_lit_code(items: Seq<SiteV>, pos: int)
    requires
        1 <= pos < lit_code_key().len(),
    ensures
        scan_s(ScanSt::LitCode { items, pos }, lit_code_key().skip(pos)) == (ScanSt::StrCode {
            items,
            code: Seq::empty(),
        }),
    decreases lit_code_key().len() - pos,
{
    let lit = lit_code_key();
    let st0 = ScanSt::LitCode { items, pos };
    let rest = lit.skip(pos);
    assert(rest[0] == lit[pos]);
    assert(rest.drop_first() =~= lit.skip(pos + 1));
    assert(scan_s(st0, rest) == scan_s(step_s(st0, rest[0]), rest.drop_first()));
    if pos == lit.len() - 1 {
        let st1 = ScanSt::StrCode { items, code: Seq::empty() };
        assert(step_s(st0, lit[pos]) == st1);
        assert(lit.skip(pos + 1) =~= Seq::<char>::empty());
        assert(scan_s(st1, lit.skip(pos + 1)) == st1);
    } else {
        let st1 = ScanSt::LitCode { items, pos: pos + 1 };
        assert(step_s(st0, lit[pos]) == st1);
        lemma_scan_lit_code(items, pos + 1);
    }
}

/// Finishing the URL key literal from any position inside it.
proof fn lemma_scan_lit_url(items: Seq<SiteV>, code: Seq<char>, pos: int)
    requires
        1 <= pos < lit_url_key().len(),
    ensures
        scan_s(ScanSt::LitUrl { items, code, pos }, lit_url_key().skip(pos)) == (ScanSt::StrUrl {
            items,
            code,
            url: Seq::empty(),
        }),
    decreases lit_url_key().len() - pos,
{
    let lit = lit_url_key();
    let st0 = ScanSt::LitUrl { items, code, pos };
    let rest = lit.skip(pos);
    assert(rest[0] == lit[pos]);
    assert(rest.drop_first() =~= lit.skip(pos + 1));
    assert(scan_s(st0, rest) == scan_s(step_s(st0, rest[0]), rest.drop_first()));
    if pos == lit.len() - 1 {
        let st1 = ScanSt::StrUrl { items, code, url: Seq::empty() };
        assert(step_s(st0, lit[pos]) == st1);
        assert(lit.skip(pos + 1) =~= Seq::<char>::empty());
        assert(scan_s(st1, lit.skip(pos + 1)) == st1);
    } else {
        let st1 = ScanSt::LitUrl { items, code, pos: pos + 1 };
        assert(step_s(st0, lit[pos]) == st1);
        lemma_scan_lit_url(items, code, pos + 1);
    }
}

/// Scanning the escaped form of a string body accumulates exactly that
/// body, for the site-code string state.
proof fn lemma_scan_esc_code(items: Seq<SiteV>, acc: Seq<char>, t: Seq<char>)
    ensures
        scan_s(ScanSt::StrCode { items, code: acc }, esc_s(t)) == (ScanSt::StrCode {
            items,
            code: acc + t,
        }),
    decreases t.len(),
{
    if t.len() == 0 {
        assert(acc + t =~= acc);
    } else {
        let c = t[0];
        let rest = esc_s(t.drop_first());
        if c == '"' || c == '\\' {
            assert(esc_s(t) == seq!['\\', c] + rest);
            lemma_scan_append(ScanSt::StrCode { items, code: acc }, seq!['\\', c], rest);
            assert(seq!['\\', c].drop_first() =~= seq![c]);
            assert(scan_s(ScanSt::StrCode { items, code: acc }, seq!['\\', c]) == scan_s(
                ScanSt::EscCode { items, code: acc },
                seq![c],
            ));
            lemma_scan_one(ScanSt::EscCode { items, code: acc }, c);
        } else {
            assert(esc_s(t) == seq![c] + rest);
            lemma_scan_append(ScanSt::StrCode { items, code: acc }, seq![c], rest);
            lemma_scan_one(ScanSt::StrCode { items, code: acc }, c);
        }
        lemma_scan_esc_code(items, acc.push(c), t.drop_first());
        assert(acc.push(c) + t.drop_first() =~= acc + t);
    }
}

/// Scanning the escaped form of a string body accumulates exactly that
/// body, for the URL string state.
proof fn lemma_scan_esc_url(items: Seq<SiteV>, code: Seq<char>, acc: Seq<char>, t: Seq<char>)
    ensures
        scan_s(ScanSt::StrUrl { items, code, url: acc }, esc_s(t)) == (ScanSt::StrUrl {
            items,
            code,
            url: acc + t,
        }),
    decreases t.len(),
{
    if t.len() == 0 {
        assert(acc + t =~= acc);
    } else {
        let c = t[0];
        let rest = esc_s(t.drop_first());
        if c == '"' || c == '\\' {
            assert(esc_s(t) == seq!['\\', c] + rest);
            lemma_scan_append(ScanSt::StrUrl { items, code, url: acc }, seq!['\\', c], rest);
            assert(seq!['\\', c].drop_first() =~= seq![c]);
            assert(scan_s(ScanSt::StrUrl { items, code, url: acc }, seq!['\\', c]) == scan_s(
                ScanSt::EscUrl { items, code, url: acc },
                seq![c],
            ));
            lemma_scan_one(ScanSt::EscUrl { items, code, url: acc }, c);
        } else {
            assert(esc_s(t) == seq![c] + rest);
            lemma_scan_append(ScanSt::StrUrl { items, code, url: acc }, seq![c], rest);
            lemma_scan_one(ScanSt::StrUrl { items, code, url: acc }, c);
        }
        lemma_scan_esc_url(items, code, acc.push(c), t.drop_first());
        assert(acc.push(c) + t.drop_first() =~= acc + t);
    }
}

/// Scanning one rendered site object from just inside its opening brace
/// accepts it and appends it to the accumulated items.
proof fn lemma_scan_site(items: Seq<SiteV>, v: SiteV)
    ensures
        scan_s(ScanSt::LitCode { items, pos: 1 }, render_site_s(v).drop_first())
            == (ScanSt::AfterItem { items: items.push(v) }),
{
    let k1 = lit_code_key();
    let k2 = lit_url_key();
    let k3 = lit_obj_end();
    let ec = esc_s(v.api_site_parameter);
    let eu = esc_s(v.site_url);
    let st0 = ScanSt::LitCode { items, pos: 1 };

    let part1 = k1.skip(1);
    let rest1 = ec + k2 + eu + k3;
    assert(render_site_s(v).drop_first() =~= part1 + rest1);
    lemma_scan_append(st0, part1, rest1);
    lemma_scan_lit_code(items, 1);
    let st1 = ScanSt::StrCode { items, code: Seq::empty() };

    let rest2 = k2 + eu + k3;
    assert(rest1 =~= ec + rest2);
    lemma_scan_append(st1, ec, rest2);
    lemma_scan_esc_code(items, Seq::empty(), v.api_site_parameter);
    assert(Seq::empty() + v.api_site_parameter =~= v.api_site_parameter);
    let st2 = ScanSt::StrCode { items, code: v.api_site_parameter };

    let rest3 = eu + k3;
    assert(rest2 =~= k2 + rest3);
    lemma_scan_append(st2, k2, rest3);
    assert(k2[0] == '"');
    assert(k2.drop_first() =~= k2.skip(1));
    assert(step_s(st2, '"') == (ScanSt::LitUrl { items, code: v.api_site_parameter, pos: 1 }));
    lemma_scan_lit_url(items, v.api_site_parameter, 1);
    let st3 = ScanSt::StrUrl { items, code: v.api_site_parameter, url: Seq::empty() };
    assert(scan_s(st2, k2) == st3);

    assert(rest3 =~= eu + k3);
    lemma_scan_append(st3, eu, k3);
    lemma_scan_esc_url(items, v.api_site_parameter, Seq::empty(), v.site_url);
    assert(Seq::empty() + v.site_url =~= v.site_url);
    let st4 = ScanSt::StrUrl { items, code: v.api_site_parameter, url: v.site_url };

    assert(k3[0] == '"');
    assert(k3.drop_first() =~= seq!['}']);
    let st5 = ScanSt::ObjEnd { items, code: v.api_site_parameter, url: v.site_url };
    lemma_scan_one(st5, '}');
    assert(scan_s(st4, k3) == step_s(st5, '}'));
    assert(step_s(st5, '}') == (ScanSt::AfterItem {
        items: items.push(SiteV { api_site_parameter: v.api_site_parameter, site_url: v.site_url }),
    }));
    assert(SiteV { api_site_parameter: v.api_site_parameter, site_url: v.site_url } == v);
}

/// Scanning the rendered tail of a list followed by the closing bracket
/// finishes with all items accepted.
proof fn lemma_scan_tail(items: Seq<SiteV>, l: Seq<SiteV>)
    ensures
        scan_s(ScanSt::AfterItem { items }, render_tail_s(l) + seq![']']) == (ScanSt::Done {
            items: items + l,
        }),
    decreases l.len(),
{
    let st0 = ScanSt::AfterItem { items };
    if l.len() == 0 {
        assert(render_tail_s(l) + seq![']'] =~= seq![']']);
        lemma_scan_one(st0, ']');
        assert(items + l =~= items);
    } else {
        let rs = render_site_s(l[0]);
        let rt = render_tail_s(l.drop_first());
        let whole = render_tail_s(l) + seq![']'];
        assert(whole =~= seq![','] + (rs + (rt + seq![']'])));
        lemma_scan_append(st0, seq![','], rs + (rt + seq![']']));
        lemma_scan_one(st0, ',');
        let st1 = ScanSt::ExpectObj { items };
        lemma_scan_append(st1, rs, rt + seq![']']);
        assert(rs[0] == '{');
        assert(rs.drop_first() =~= render_site_s(l[0]).drop_first());
        assert(step_s(st1, '{') == (ScanSt::LitCode { items, pos: 1 }));
        lemma_scan_site(items, l[0]);
        let st2 = ScanSt::AfterItem { items: items.push(l[0]) };
        assert(scan_s(st1, rs) == st2);
        lemma_scan_tail(items.push(l[0]), l.drop_first());
        assert(rt + seq![']'] =~= render_tail_s(l.drop_first()) + seq![']']);
        assert(items.push(l[0]) + l.drop_first() =~= items + l);
    }
}

/// Relies on `String`'s `FromIterator<char>`: collecting characters
/// yields the string of exactly those characters, in order.
#[verifier::external_body]
pub(crate) fn chars_to_string(v: &Vec<char>) -> (s: String)
    ensures
        s@ == v@,
{
    v.iter().collect()
}

/// Escaping one more character appends its escaped form.
proof fn lemma_esc_snoc(t: Seq<char>, c: char)
    ensures
        esc_s(t.push(c)) == esc_s(t) + (if c == '"' || c == '\\' {
            seq!['\\', c]
        } else {
            seq![c]
        }),
    decreases t.len(),
{
    let chunk: Seq<char> = if c == '"' || c == '\\' {
        seq!['\\', c]
    } else {
        seq![c]
    };
    if t.len() == 0 {
        assert(t.push(c)[0] == c);
        assert(t.push(c).drop_first() =~= Seq::<char>::empty());
        assert(esc_s(Seq::<char>::empty()) == Seq::<char>::empty());
        assert(esc_s(t.push(c)) =~= esc_s(t) + chunk);
    } else {
        assert(t.push(c)[0] == t[0]);
        assert(t.push(c).drop_first() =~= t.drop_first().push(c));
        lemma_esc_snoc(t.drop_first(), c);
        assert(esc_s(t.push(c)) =~= esc_s(t) + chunk);
    }
}

/// Rendering one more site in the tail appends a comma and its encoding.
proof fn lemma_render_tail_snoc(l: Seq<SiteV>, v: SiteV)
    ensures
        render_tail_s(l.push(v)) == render_tail_s(l) + seq![','] + render_site_s(v),
    decreases l.len(),
{
    if l.len() == 0 {
        assert(l.push(v)[0] == v);
        assert(l.push(v).drop_first() =~= Seq::<SiteV>::empty());
        assert(render_tail_s(Seq::<SiteV>::empty()) == Seq::<char>::empty());
        assert(render_tail_s(l) == Seq::<char>::empty());
        assert(render_tail_s(l.push(v)) =~= render_tail_s(l) + seq![','] + render_site_s(v));
    } else {
        assert(l.push(v)[0] == l[0]);
        assert(l.push(v).drop_first() =~= l.drop_first().push(v));
        lemma_render_tail_snoc(l.drop_first(), v);
        assert(render_tail_s(l.push(v)) =~= render_tail_s(l) + seq![','] + render_site_s(v));
    }
}

/// Rendering one more site appends its encoding, preceded by a comma
/// unless it is the first.
proof fn lemma_render_items_snoc(l: Seq<SiteV>, v: SiteV)
    ensures
        render_items_s(l.push(v)) == render_items_s(l) + (if l.len() == 0 {
            render_site_s(v)
        } else {
            seq![','] + render_site_s(v)
        }),
{
    if l.len() == 0 {
        assert(l.push(v)[0] == v);
        assert(l.push(v).drop_first() =~= Seq::<SiteV>::empty());
        assert(render_tail_s(Seq::<SiteV>::empty()) == Seq::<char>::empty());
        assert(render_items_s(l.push(v)) =~= render_items_s(l) + render_site_s(v));
    } else {
        assert(l.push(v)[0] == l[0]);
        assert(l.push(v).drop_first() =~= l.drop_first().push(v));
        lemma_render_tail_snoc(l.drop_first(), v);
        assert(render_items_s(l.push(v)) =~= render_items_s(l) + (seq![','] + render_site_s(v)));
    }
}

/// The opening literal as written in the code equals its specification.
proof fn lemma_lit_code_view()
    ensures
        "{\"api_site_parameter\":\""@ == lit_code_key(),
        lit_code_key().len() == 23,
{
    reveal_strlit("{\"api_site_parameter\":\"");
    assert("{\"api_site_parameter\":\""@ =~= lit_code_key());
}

/// The middle literal as written in the code equals its specification.
proof fn lemma_lit_url_view()
    ensures
        "\",\"site_url\":\""@ == lit_url_key(),
        lit_url_key().len() == 14,
{
    reveal_strlit("\",\"site_url\":\"");
    assert("\",\"site_url\":\""@ =~= lit_url_key());
}

/// The closing literal as written in the code equals its specification.
proof fn lemma_lit_obj_end_view()
    ensures
        "\"}"@ == lit_obj_end(),
        lit_obj_end().len() == 2,
{
    reveal_strlit("\"}");
    assert("\"}"@ =~= lit_obj_end());
}

/// Appends the characters of `s` to `buf`.
fn push_str_chars(buf: &mut Vec<char>, s: &str)
    ensures
        final(buf)@ == old(buf)@ + s@,
{
    let n = s.unicode_len();
    let mut j: usize = 0;
    assert(old(buf)@ + s@.take(0) =~= old(buf)@);
    while j < n
        invariant
            0 <= j <= n,
            n == s@.len(),
            buf@ == old(buf)@ + s@.take(j as int),
        decreases n - j,
    {
        let c = s.get_char(j);
        buf.push(c);
        proof {
            assert(old(buf)@ + s@.take(j + 1) =~= (old(buf)@ + s@.take(j as int)).push(
                s@[j as int],
            ));
        }
        j = j + 1;
    }
    assert(s@.take(n as int) =~= s@);
}

/// Appends the escaped form of `s` to `buf`.
fn push_esc(buf: &mut Vec<char>, s: &str)
    ensures
        final(buf)@ == old(buf)@ + esc_s(s@),
{
    let n = s.unicode_len();
    let mut j: usize = 0;
    assert(esc_s(s@.take(0)) =~= Seq::<char>::empty());
    assert(old(buf)@ + esc_s(s@.take(0)) =~= old(buf)@);
    while j < n
        invariant
            0 <= j <= n,
            n == s@.len(),
            buf@ == old(buf)@ + esc_s(s@.take(j as int)),
        decreases n - j,
    {
        let ghost pre = buf@;
        let c = s.get_char(j);
        let ghost chunk: Seq<char> = if c == '"' || c == '\\' {
            seq!['\\', c]
        } else {
            seq![c]
        };
        if c == '"' || c == '\\' {
            buf.push('\\');
            buf.push(c);
        } else {
            buf.push(c);
        }
        proof {
            assert(buf@ =~= pre + chunk);
            lemma_esc_snoc(s@.take(j as int), s@[j as int]);
            assert(s@.take(j + 1) =~= s@.take(j as int).push(s@[j as int]));
            assert(old(buf)@ + esc_s(s@.take(j + 1)) =~= (old(buf)@ + esc_s(s@.take(j as int)))
                + chunk);
        }
        j = j + 1;
    }
    assert(s@.take(n as int) =~= s@);
}

/// Emits the canonical encoding of a site list, ready to be persisted.
pub fn render_sites(sites: &Vec<Site>) -> (out: Vec<char>)
    ensures
        out@ == render_sites_s(sites.deep_view()),
{
    let ghost dv = sites.deep_view();
    let mut out: Vec<char> = Vec::new();
    out.push('[');
    assert(out@ =~= seq!['[']);
    assert(render_items_s(dv.take(0)) =~= Seq::<char>::empty());
    assert(out@ =~= seq!['['] + render_items_s(dv.take(0)));
    let n = sites.len();
    let mut i: usize = 0;
    while i < n
        invariant
            0 <= i <= n,
            n == sites@.len(),
            dv == sites.deep_view(),
            out@ == seq!['['] + render_items_s(dv.take(i as int)),
        decreases n - i,
    {
        let ghost pre = out@;
        proof {
            lemma_lit_code_view();
            lemma_lit_url_view();
            lemma_lit_obj_end_view();
            assert(dv[i as int] == sites@[i as int]@);
        }
        if i > 0 {
            out.push(',');
        }
        push_str_chars(&mut out, "{\"api_site_parameter\":\"");
        push_esc(&mut out, sites[i].api_site_parameter.as_str());
        push_str_chars(&mut out, "\",\"site_url\":\"");
        push_esc(&mut out, sites[i].site_url.as_str());
        push_str_chars(&mut out, "\"}");
        proof {
            lemma_render_items_snoc(dv.take(i as int), dv[i as int]);
            assert(dv.take(i + 1) =~= dv.take(i as int).push(dv[i as int]));
            if i > 0 {
                assert(dv.take(i as int).len() > 0);
                assert(out@ =~= pre + seq![','] + render_site_s(dv[i as int]));
                assert(out@ =~= seq!['['] + render_items_s(dv.take(i + 1)));
            } else {
                assert(out@ =~= pre + render_site_s(dv[i as int]));
                assert(out@ =~= seq!['['] + render_items_s(dv.take(i + 1)));
            }
        }
        i = i + 1;
    }
    out.push(']');
    proof {
        assert(dv.take(n as int) =~= dv);
        assert(out@ =~= render_sites_s(dv));
    }
    out
}

/// The executable parser's state, mirroring [`ScanSt`].
pub enum ParseSt {
    Fail,
    Start,
    ExpectFirst,
    LitCode { items: Vec<Site>, pos: usize },
    StrCode { items: Vec<Site>, code: Vec<char> },
    EscCode { items: Vec<Site>, code: Vec<char> },
    LitUrl { items: Vec<Site>, code: Vec<char>, pos: usize },
    StrUrl { items: Vec<Site>, code: Vec<char>, url: Vec<char> },
    EscUrl { items: Vec<Site>, code: Vec<char>, url: Vec<char> },
    ObjEnd { items: Vec<Site>, code: Vec<char>, url: Vec<char> },
    AfterItem { items: Vec<Site> },
    ExpectObj { items: Vec<Site> },
    Done { items: Vec<Site> },
}

impl View for ParseSt {
    type V = ScanSt;

    open spec fn view(&self) -> ScanSt {
        match self {
            ParseSt::Fail => ScanSt::Fail,
            ParseSt::Start => ScanSt::Start,
            ParseSt::ExpectFirst => ScanSt::ExpectFirst,
            ParseSt::LitCode { items, pos } => ScanSt::LitCode {
                items: items.deep_view(),
                pos: *pos as int,
            },
            ParseSt::StrCode { items, code } => ScanSt::StrCode {
                items: items.deep_view(),
                code: code@,
            },
            ParseSt::EscCode { items, code } => ScanSt::EscCode {
                items: items.deep_view(),
                code: code@,
            },
            ParseSt::LitUrl { items, code, pos } => ScanSt::LitUrl {
                items: items.deep_view(),
                code: code@,
                pos: *pos as int,
            },
            ParseSt::StrUrl { items, code, url } => ScanSt::StrUrl {
                items: items.deep_view(),
                code: code@,
                url: url@,
            },
            ParseSt::EscUrl { items, code, url } => ScanSt::EscUrl {
                items: items.deep_view(),
                code: code@,
                url: url@,
            },
            ParseSt::ObjEnd { items, code, url } => ScanSt::ObjEnd {
                items: items.deep_view(),
                code: code@,
                url: url@,
            },
            ParseSt::AfterItem { items } => ScanSt::AfterItem { items: items.deep_view() },
            ParseSt::ExpectObj { items } => ScanSt::ExpectObj { items: items.deep_view() },
            ParseSt::Done { items } => ScanSt::Done { items: items.deep_view() },
        }
    }
}

/// One step of the executable parser on one character.
fn step_x(st: ParseSt, c: char) -> (r: ParseSt)
    ensures
        r@ == step_s(st@, c),
{
    proof {
        lemma_lit_code_view();
        lemma_lit_url_view();
    }
    match st {
        ParseSt::Fail => ParseSt::Fail,
        ParseSt::Start => {
            if c == '[' {
                ParseSt::ExpectFirst
            } else {
                ParseSt::Fail
            }
        },
        ParseSt::ExpectFirst => {
            if c == ']' {
                let items: Vec<Site> = Vec::new();
                proof {
                    assert(items.deep_view() =~= Seq::<SiteV>::empty());
                }
                ParseSt::Done { items }
            } else if c == '{' {
                let items: Vec<Site> = Vec::new();
                proof {
                    assert(items.deep_view() =~= Seq::<SiteV>::empty());
                }
                ParseSt::LitCode { items, pos: 1 }
            } else {
                ParseSt::Fail
            }
        },
        ParseSt::LitCode { items, pos } => {
            let lit = "{\"api_site_parameter\":\"";
            if pos < 23 && c == lit.get_char(pos) {
                if pos == 22 {
                    ParseSt::StrCode { items, code: Vec::new() }
                } else {
                    ParseSt::LitCode { items, pos: pos + 1 }
                }
            } else {
                ParseSt::Fail
            }
        },
        ParseSt::StrCode { items, mut code } => {
            if c == '"' {
                ParseSt::LitUrl { items, code, pos: 1 }
            } else if c == '\\' {
                ParseSt::EscCode { items, code }
            } else {
                code.push(c);
                ParseSt::StrCode { items, code }
            }
        },
        ParseSt::EscCode { items, mut code } => {
            if c == '"' || c == '\\' {
                code.push(c);
                ParseSt::StrCode { items, code }
            } else {
                ParseSt::Fail
            }
        },
        ParseSt::LitUrl { items, code, pos } => {
            let lit = "\",\"site_url\":\"";
            if pos < 14 && c == lit.get_char(pos) {
                if pos == 13 {
                    ParseSt::StrUrl { items, code, url: Vec::new() }
                } else {
                    ParseSt::LitUrl { items, code, pos: pos + 1 }
                }
            } else {
                ParseSt::Fail
            }
        },
        ParseSt::StrUrl { items, code, mut url } => {
            if c == '"' {
                ParseSt::ObjEnd { items, code, url }
            } else if c == '\\' {
                ParseSt::EscUrl { items, code, url }
            } else {
                url.push(c);
                ParseSt::StrUrl { items, code, url }
            }
        },
        ParseSt::EscUrl { items, code, mut url } => {
            if c == '"' || c == '\\' {
                url.push(c);
                ParseSt::StrUrl { items, code, url }
            } else {
                ParseSt::Fail
            }
        },
        ParseSt::ObjEnd { mut items, code, url } => {
            if c == '}' {
                let ghost pre = items.deep_view();
                let site = Site {
                    api_site_parameter: chars_to_string(&code),
                    site_url: chars_to_string(&url),
                };
                items.push(site);
                proof {
                    assert(items.deep_view() =~= pre.push(
                        SiteV { api_site_parameter: code@, site_url: url@ },
                    ));
                }
                ParseSt::AfterItem { items }
            } else {
                ParseSt::Fail
            }
        },
        ParseSt::AfterItem { items } => {
            if c == ',' {
                ParseSt::ExpectObj { items }
            } else if c == ']' {
                ParseSt::Done { items }
            } else {
                ParseSt::Fail
            }
        },
        ParseSt::ExpectObj { items } => {
            if c == '{' {
                ParseSt::LitCode { items, pos: 1 }
            } else {
                ParseSt::Fail
            }
        },
        ParseSt::Done { items: _ } => ParseSt::Fail,
    }
}

/// Parses a character sequence as a persisted site list.
///
/// Returns the list whose canonical encoding the input is, and `None`
/// when the input is not the canonical encoding of any list.
pub fn parse_sites(input: &Vec<char>) -> (r: Option<Vec<Site>>)
    ensures
        match r {
            Some(v) => parse_sites_s(input@) == Some(v.deep_view()),
            None => parse_sites_s(input@) is None,
        },
{
    let mut st = ParseSt::Start;
    let n = input.len();
    let mut i: usize = 0;
    assert(input@.take(0) =~= Seq::<char>::empty());
    while i < n
        invariant
            0 <= i <= n,
            n == input@.len(),
            st@ == scan_s(ScanSt::Start, input@.take(i as int)),
        decreases n - i,
    {
        let ghost pre = st@;
        let c = input[i];
        st = step_x(st, c);
        proof {
            lemma_scan_append(ScanSt::Start, input@.take(i as int), seq![input@[i as int]]);
            lemma_scan_one(pre, input@[i as int]);
            assert(input@.take(i + 1) =~= input@.take(i as int) + seq![input@[i as int]]);
        }
        i = i + 1;
    }
    assert(input@.take(n as int) =~= input@);
    match st {
        ParseSt::Done { items } => Some(items),
        _ => None,
    }
}

/// The round trip of the cache codec: parsing the canonical encoding of
/// any site list yields exactly that list.
pub proof fn lemma_cache_round_trip(l: Seq<SiteV>)
    ensures
        parse_sites_s(render_sites_s(l)) == Some(l),
{
    let whole = render_sites_s(l);
    if l.len() == 0 {
        assert(whole =~= seq!['[', ']']);
        assert(seq!['[', ']'].drop_first() =~= seq![']']);
        assert(scan_s(ScanSt::Start, whole) == scan_s(ScanSt::ExpectFirst, seq![']']));
        lemma_scan_one(ScanSt::ExpectFirst, ']');
        assert(scan_s(ScanSt::Start, whole) == (ScanSt::Done { items: Seq::<SiteV>::empty() }));
        assert(l =~= Seq::<SiteV>::empty());
    } else {
        let rs = render_site_s(l[0]);
        let rt = render_tail_s(l.drop_first());
        assert(whole =~= seq!['['] + (rs + (rt + seq![']'])));
        lemma_scan_append(ScanSt::Start, seq!['['], rs + (rt + seq![']']));
        lemma_scan_one(ScanSt::Start, '[');
        let st1 = ScanSt::ExpectFirst;
        lemma_scan_append(st1, rs, rt + seq![']']);
        assert(rs[0] == '{');
        assert(step_s(st1, '{') == (ScanSt::LitCode { items: Seq::<SiteV>::empty(), pos: 1 }));
        lemma_scan_site(Seq::empty(), l[0]);
        let st2 = ScanSt::AfterItem { items: Seq::<SiteV>::empty().push(l[0]) };
        assert(scan_s(st1, rs) == st2);
        lemma_scan_tail(Seq::<SiteV>::empty().push(l[0]), l.drop_first());
        assert(Seq::<SiteV>::empty().push(l[0]) + l.drop_first() =~= l);
    }
}

} // verus!
