use vstd::prelude::*;
use vstd::string::StrSliceExecFns;
use vstd::string::StringExecFns;

use crate::syntax::{SynVerdicts, Verdicts};

verus! {

/// The category of a token.
#[derive(Clone, Copy, Debug, PartialEq, Eq, Structural)]
pub enum TokKind {
    Ident,
    Punct,
    Literal,
    /// An opening delimiter: `(`, `[`, `{`, or an invisible one (empty text).
    Open,
    /// A closing delimiter, matching the latest open one.
    Close,
}

/// One token of a declaration block. Groups are flattened into an `Open`
/// token, their contents, and a `Close` token.
#[derive(Debug)]
pub struct Tok {
    pub kind: TokKind,
    pub text: String,
    /// For punctuation: glued to the next token, as in `::`.
    pub joint: bool,
}

/// Why a declaration block was refused.
#[derive(Clone, Copy, Debug, PartialEq, Eq, Structural)]
pub enum ParamError {
    /// The tokens do not follow the declaration grammar: the entry that
    /// begins at token index `at` is malformed or incomplete.
    Syntax { at: usize },
    /// A parameter is declared with a type outside the numeric kinds.
    UnsupportedType,
}

/// One parsed declaration, each field as source text.
pub struct Param {
    pub name: String,
    pub ty: String,
    pub default: String,
    pub min: String,
    pub max: String,
    pub step: String,
}

pub struct Decl {
    pub name: Seq<char>,
    pub ty: Seq<char>,
    pub default: Seq<char>,
    pub min: Seq<char>,
    pub max: Seq<char>,
    pub step: Seq<char>,
}

impl View for Param {
    type V = Decl;

    open spec fn view(&self) -> Decl {
        Decl {
            name: self.name@,
            ty: self.ty@,
            default: self.default@,
            min: self.min@,
            max: self.max@,
            step: self.step@,
        }
    }
}

pub open spec fn decls(ps: Seq<Param>) -> Seq<Decl> {
    ps.map_values(|p: Param| p@)
}

pub open spec fn is_punct(t: Tok, c: char) -> bool {
    t.kind == TokKind::Punct && t.text@ == seq![c]
}

pub open spec fn is_open_paren(t: Tok) -> bool {
    t.kind == TokKind::Open && t.text@ == "("@
}

pub open spec fn is_close_paren(t: Tok) -> bool {
    t.kind == TokKind::Close && t.text@ == ")"@
}

/// Whether `s` is one whole type (`as_type`) or one whole expression.
pub open spec fn whole<V: Verdicts>(v: V, s: Seq<char>, as_type: bool) -> bool {
    if as_type {
        v.type_ok(s)
    } else {
        v.expr_ok(s)
    }
}

/// The end of the field that begins at `start`: the first index from `k` on
/// that stands outside any group opened since `start` (`depth` counts those
/// still open), holds the separator `c`, and follows tokens that form one
/// whole type or expression. A field never runs past the end of the group
/// it stands in.
pub open spec fn cut<V: Verdicts>(v: V, ts: Seq<Tok>, start: int, k: int, depth: nat, c: char, as_type: bool) -> Option<
    int,
>
    decreases ts.len() - k,
{
    if k < 0 || k >= ts.len() {
        None
    } else if depth == 0 && ts[k].kind == TokKind::Close {
        None
    } else if depth == 0 && k > start && is_punct(ts[k], c) && whole(
        v,
        render(ts, start, k),
        as_type,
    ) {
        Some(k)
    } else if ts[k].kind == TokKind::Open {
        cut(v, ts, start, k + 1, depth + 1, c, as_type)
    } else if ts[k].kind == TokKind::Close {
        cut(v, ts, start, k + 1, (depth - 1) as nat, c, as_type)
    } else {
        cut(v, ts, start, k + 1, depth, c, as_type)
    }
}

/// The index of the separator `c` that ends the field beginning at `start`.
pub open spec fn field<V: Verdicts>(v: V, ts: Seq<Tok>, start: int, c: char, as_type: bool) -> Option<int> {
    cut(v, ts, start, start, 0, c, as_type)
}

/// The first closing delimiter from `k` on that closes no group opened since
/// the scan began (`depth` counts those still open).
pub open spec fn group_end(ts: Seq<Tok>, k: int, depth: nat) -> Option<int>
    decreases ts.len() - k,
{
    if k < 0 || k >= ts.len() {
        None
    } else if ts[k].kind == TokKind::Close {
        if depth == 0 {
            Some(k)
        } else {
            group_end(ts, k + 1, (depth - 1) as nat)
        }
    } else if ts[k].kind == TokKind::Open {
        group_end(ts, k + 1, depth + 1)
    } else {
        group_end(ts, k + 1, depth)
    }
}

/// The last member of a parenthesised range, from `start` up to the `)` that
/// closes the range: the index of that `)`, where the member is one whole
/// expression.
pub open spec fn last_field<V: Verdicts>(v: V, ts: Seq<Tok>, start: int) -> Option<int> {
    match group_end(ts, start, 0) {
        Some(e) => if e > start && is_close_paren(ts[e]) && v.expr_ok(render(ts, start, e)) {
            Some(e)
        } else {
            None
        },
        None => None,
    }
}

/// What separates a token from the next one in source text.
pub open spec fn gap(t: Tok) -> Seq<char> {
    if t.kind == TokKind::Punct && t.joint {
        Seq::empty()
    } else {
        " "@
    }
}

/// The source text of the tokens in `[lo, hi)`.
pub open spec fn render(ts: Seq<Tok>, lo: int, hi: int) -> Seq<char>
    decreases hi - lo,
{
    if hi <= lo {
        Seq::empty()
    } else if hi == lo + 1 {
        ts[lo].text@
    } else {
        render(ts, lo, hi - 1) + gap(ts[hi - 2]) + ts[hi - 1].text@
    }
}

/// The entry `NAME : TYPE = DEFAULT , ( MIN , MAX , STEP ) ,` that begins at
/// index `i`, with the index just past it.
pub open spec fn entry_at<V: Verdicts>(v: V, ts: Seq<Tok>, i: int) -> Option<(Decl, int)> {
    if 0 <= i && i + 1 < ts.len() && ts[i].kind == TokKind::Ident && v.ident_ok(ts[i].text@)
        && is_punct(ts[i + 1], ':') {
        match field(v, ts, i + 2, '=', true) {
            Some(e1) => match field(v, ts, e1 + 1, ',', false) {
                Some(e2) => if !(e2 + 1 < ts.len() && is_open_paren(ts[e2 + 1])) {
                    None
                } else {
                    match field(v, ts, e2 + 2, ',', false) {
                        Some(e3) => match field(v, ts, e3 + 1, ',', false) {
                            Some(e4) => match last_field(v, ts, e4 + 1) {
                                Some(e5) => if e5 + 1 < ts.len() && is_punct(ts[e5 + 1], ',') {
                                    Some(
                                        (
                                            Decl {
                                                name: ts[i].text@,
                                                ty: render(ts, i + 2, e1),
                                                default: render(ts, e1 + 1, e2),
                                                min: render(ts, e2 + 2, e3),
                                                max: render(ts, e3 + 1, e4),
                                                step: render(ts, e4 + 1, e5),
                                            },
                                            e5 + 2,
                                        ),
                                    )
                                } else {
                                    None
                                },
                                None => None,
                            },
                            None => None,
                        },
                        None => None,
                    }
                },
                None => None,
            },
            None => None,
        }
    } else {
        None
    }
}

/// The declarations of the whole token sequence from index `i` on: entries
/// back to back up to the end, or nothing where any entry fails.
pub open spec fn parse_from<V: Verdicts>(v: V, ts: Seq<Tok>, i: int) -> Option<Seq<Decl>>
    decreases ts.len() - i,
{
    if i < 0 || i >= ts.len() {
        Some(Seq::empty())
    } else {
        match entry_at(v, ts, i) {
            Some((d, j)) => if j > i {
                match parse_from(v, ts, j) {
                    Some(rest) => Some(seq![d] + rest),
                    None => None,
                }
            } else {
                None
            },
            None => None,
        }
    }
}

/// An accepted entry ends with a comma, at or before the end of the block.
pub proof fn lemma_entry_ends_with_comma<V: Verdicts>(v: V, ts: Seq<Tok>, i: int)
    requires
        entry_at(v, ts, i) is Some,
    ensures
        entry_at(v, ts, i).unwrap().1 <= ts.len(),
        is_punct(ts[entry_at(v, ts, i).unwrap().1 - 1], ','),
{
}

/// Malformed blocks abort: a block is accepted only if it ends with the comma
/// that closes its last entry, so an entry cut short at the end of the block
/// (or missing its final comma) makes the whole parse fail.
pub proof fn law_incomplete_entry_aborts<V: Verdicts>(v: V, ts: Seq<Tok>, i: int)
    requires
        0 <= i < ts.len(),
        !is_punct(ts.last(), ','),
    ensures
        parse_from(v, ts, i) is None,
    decreases ts.len() - i,
{
    if entry_at(v, ts, i) is Some {
        lemma_entry_ends_with_comma(v, ts, i);
        let j = entry_at(v, ts, i).unwrap().1;
        if j > i && j < ts.len() {
            law_incomplete_entry_aborts(v, ts, j);
        }
    }
}

/// Malformed blocks abort: every entry of an accepted block opens with an
/// identifier that is no keyword, then `:`, then one whole type followed by
/// `=`; a missing or misplaced token there makes the whole parse fail.
pub proof fn law_entry_opens_with_name_and_type<V: Verdicts>(v: V, ts: Seq<Tok>, i: int)
    requires
        0 <= i < ts.len(),
        parse_from(v, ts, i) is Some,
    ensures
        ts[i].kind == TokKind::Ident,
        v.ident_ok(ts[i].text@),
        i + 1 < ts.len() && is_punct(ts[i + 1], ':'),
        field(v, ts, i + 2, '=', true) is Some,
{
}

/// Walking the block entry by entry from index `i` arrives at index `at`.
pub open spec fn reaches<V: Verdicts>(v: V, ts: Seq<Tok>, i: int, at: int) -> bool
    decreases at - i,
{
    if i >= at {
        i == at
    } else {
        match entry_at(v, ts, i) {
            Some((_, j)) => i < j <= at && reaches(v, ts, j, at),
            None => false,
        }
    }
}

pub proof fn lemma_reaches_next<V: Verdicts>(v: V, ts: Seq<Tok>, i: int, at: int)
    requires
        i <= at,
        reaches(v, ts, i, at),
        entry_at(v, ts, at) is Some,
        entry_at(v, ts, at).unwrap().1 > at,
    ensures
        reaches(v, ts, i, entry_at(v, ts, at).unwrap().1),
    decreases at - i,
{
    let j = entry_at(v, ts, at).unwrap().1;
    if i < at {
        let k = entry_at(v, ts, i).unwrap().1;
        lemma_reaches_next(v, ts, k, at);
    } else {
        assert(reaches(v, ts, j, j));
    }
}

pub open spec fn prepend(pre: Seq<Decl>, r: Option<Seq<Decl>>) -> Option<Seq<Decl>> {
    match r {
        Some(rest) => Some(pre + rest),
        None => None,
    }
}

fn tok_is_punct(t: &Tok, c: char) -> (r: bool)
    ensures
        r == is_punct(*t, c),
{
    if t.kind == TokKind::Punct && t.text.unicode_len() == 1 {
        let d = t.text.get_char(0);
        assert(d == c ==> t.text@ =~= seq![c]);
        d == c
    } else {
        false
    }
}

fn tok_is_paren(t: &Tok, open: bool) -> (r: bool)
    ensures
        r == if open {
            is_open_paren(*t)
        } else {
            is_close_paren(*t)
        },
{
    if open {
        t.kind == TokKind::Open && crate::kind::text_is(t.text.as_str(), "(")
    } else {
        t.kind == TokKind::Close && crate::kind::text_is(t.text.as_str(), ")")
    }
}

/// Finds the end of the field that begins at `start`.
pub fn field_exec<V: Verdicts>(v: &V, ts: &Vec<Tok>, start: usize, c: char, as_type: bool) -> (r: Option<usize>)
    ensures
        match r {
            Some(k) => field(*v, ts@, start as int, c, as_type) == Some(k as int) && start < k
                < ts@.len(),
            None => field(*v, ts@, start as int, c, as_type) is None,
        },
{
    let n = ts.len();
    let mut k = start;
    let mut depth: usize = 0;
    while k < n
        invariant
            n == ts@.len(),
            start <= k,
            depth <= k - start,
            field(*v, ts@, start as int, c, as_type) == cut(
                *v,
                ts@,
                start as int,
                k as int,
                depth as nat,
                c,
                as_type,
            ),
        decreases n - k,
    {
        let t = &ts[k];
        if depth == 0 && t.kind == TokKind::Close {
            return None;
        }
        if depth == 0 && k > start && tok_is_punct(t, c) {
            let text = render_range(ts, start, k);
            let ok = if as_type {
                v.is_type(text.as_str())
            } else {
                v.is_expr(text.as_str())
            };
            if ok {
                return Some(k);
            }
        }
        if t.kind == TokKind::Open {
            depth = depth + 1;
        } else if t.kind == TokKind::Close {
            depth = depth - 1;
        }
        k = k + 1;
    }
    None
}

fn group_end_exec(ts: &Vec<Tok>, start: usize) -> (r: Option<usize>)
    ensures
        match r {
            Some(k) => group_end(ts@, start as int, 0) == Some(k as int) && start <= k < ts@.len(),
            None => group_end(ts@, start as int, 0) is None,
        },
{
    let n = ts.len();
    let mut k = start;
    let mut depth: usize = 0;
    while k < n
        invariant
            n == ts@.len(),
            start <= k,
            depth <= k - start,
            group_end(ts@, start as int, 0) == group_end(ts@, k as int, depth as nat),
        decreases n - k,
    {
        let t = &ts[k];
        if t.kind == TokKind::Close {
            if depth == 0 {
                return Some(k);
            }
            depth = depth - 1;
        } else if t.kind == TokKind::Open {
            depth = depth + 1;
        }
        k = k + 1;
    }
    None
}

fn last_field_exec<V: Verdicts>(v: &V, ts: &Vec<Tok>, start: usize) -> (r: Option<usize>)
    ensures
        match r {
            Some(k) => last_field(*v, ts@, start as int) == Some(k as int) && start < k < ts@.len(),
            None => last_field(*v, ts@, start as int) is None,
        },
{
    match group_end_exec(ts, start) {
        Some(e) => if e > start && tok_is_paren(&ts[e], false) {
            let text = render_range(ts, start, e);
            if v.is_expr(text.as_str()) {
                Some(e)
            } else {
                None
            }
        } else {
            None
        },
        None => None,
    }
}

/// The source text of the tokens in `[lo, hi)`, with a space between two
/// tokens unless the first is glued punctuation.
pub fn render_range(ts: &Vec<Tok>, lo: usize, hi: usize) -> (r: String)
    requires
        lo <= hi <= ts@.len(),
    ensures
        r@ == render(ts@, lo as int, hi as int),
{
    let mut r = String::new();
    if lo == hi {
        return r;
    }
    r.append(ts[lo].text.as_str());
    assert(r@ =~= render(ts@, lo as int, lo + 1));
    let mut j = lo + 1;
    while j < hi
        invariant
            lo < j <= hi <= ts@.len(),
            r@ == render(ts@, lo as int, j as int),
        decreases hi - j,
    {
        if ts[j - 1].kind == TokKind::Punct && ts[j - 1].joint {
        } else {
            r.append(" ");
        }
        r.append(ts[j].text.as_str());
        assert(r@ =~= render(ts@, lo as int, j + 1));
        j = j + 1;
    }
    r
}

/// Parses the entry that begins at index `i`.
pub fn entry_exec<V: Verdicts>(v: &V, ts: &Vec<Tok>, i: usize) -> (r: Option<(Param, usize)>)
    ensures
        match r {
            Some((p, j)) => entry_at(*v, ts@, i as int) == Some((p@, j as int)) && i < j <= ts@.len(),
            None => entry_at(*v, ts@, i as int) is None,
        },
{
    let n = ts.len();
    if !(i < n && i + 1 < n) {
        return None;
    }
    if !(ts[i].kind == TokKind::Ident && v.is_ident(ts[i].text.as_str()) && tok_is_punct(
        &ts[i + 1],
        ':',
    )) {
        return None;
    }
    let e1 = match field_exec(v, ts, i + 2, '=', true) {
        Some(e) => e,
        None => return None,
    };
    let e2 = match field_exec(v, ts, e1 + 1, ',', false) {
        Some(e) => e,
        None => return None,
    };
    if !(e2 + 1 < n && tok_is_paren(&ts[e2 + 1], true)) {
        return None;
    }
    let e3 = match field_exec(v, ts, e2 + 2, ',', false) {
        Some(e) => e,
        None => return None,
    };
    let e4 = match field_exec(v, ts, e3 + 1, ',', false) {
        Some(e) => e,
        None => return None,
    };
    let e5 = match last_field_exec(v, ts, e4 + 1) {
        Some(e) => e,
        None => return None,
    };
    if !(e5 + 1 < n && tok_is_punct(&ts[e5 + 1], ',')) {
        return None;
    }
    let p = Param {
        name: ts[i].text.clone(),
        ty: render_range(ts, i + 2, e1),
        default: render_range(ts, e1 + 1, e2),
        min: render_range(ts, e2 + 2, e3),
        max: render_range(ts, e3 + 1, e4),
        step: render_range(ts, e4 + 1, e5),
    };
    Some((p, e5 + 2))
}

/// Parses a whole declaration block, asking `v` which texts are identifiers,
/// types and expressions.
pub fn parse_params_with<V: Verdicts>(v: &V, ts: &Vec<Tok>) -> (r: Result<Vec<Param>, ParamError>)
    ensures
        match r {
            Ok(ps) => parse_from(*v, ts@, 0) == Some(decls(ps@)),
            Err(e) => parse_from(*v, ts@, 0) is None && match e {
                ParamError::Syntax { at } => at < ts@.len() && reaches(*v, ts@, 0, at as int)
                    && entry_at(*v, ts@, at as int) is None,
                ParamError::UnsupportedType => false,
            },
        },
{
    let n = ts.len();
    let mut out: Vec<Param> = Vec::new();
    let mut i: usize = 0;
    while i < n
        invariant
            n == ts@.len(),
            i <= n,
            parse_from(*v, ts@, 0) == prepend(decls(out@), parse_from(*v, ts@, i as int)),
            reaches(*v, ts@, 0, i as int),
        decreases n - i,
    {
        match entry_exec(v, ts, i) {
            Some((p, j)) => {
                let ghost before = decls(out@);
                let ghost d = p@;
                out.push(p);
                proof {
                    lemma_reaches_next(*v, ts@, 0, i as int);
                    assert(decls(out@) =~= before + seq![d]);
                    match parse_from(*v, ts@, j as int) {
                        Some(rest) => {
                            assert(before + (seq![d] + rest) =~= (before + seq![d]) + rest);
                        },
                        None => {},
                    }
                }
                i = j;
            },
            None => {
                return Err(ParamError::Syntax { at: i });
            },
        }
    }
    assert(decls(out@) + Seq::<Decl>::empty() =~= decls(out@));
    Ok(out)
}

/// Parses a whole declaration block: zero or more entries back to back, with
/// identifiers, types and expressions as syn reads them.
pub fn parse_params(ts: &Vec<Tok>) -> (r: Result<Vec<Param>, ParamError>)
    ensures
        match r {
            Ok(ps) => parse_from(SynVerdicts, ts@, 0) == Some(decls(ps@)),
            Err(e) => parse_from(SynVerdicts, ts@, 0) is None && match e {
                ParamError::Syntax { at } => at < ts@.len() && reaches(SynVerdicts, ts@, 0, at as int)
                    && entry_at(SynVerdicts, ts@, at as int) is None,
                ParamError::UnsupportedType => false,
            },
        },
{
    parse_params_with(&SynVerdicts, ts)
}

} // verus!
