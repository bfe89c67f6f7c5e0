use vstd::prelude::*;
use vstd::string::StringExecFns;

use crate::decl::{Decl, Param, ParamError, decls};
use crate::kind::{
    NumKind, denotes, int_text_value, is_float, kind_of, lemma_override_denotes, override_literal,
    override_text, spec_kind_of, zero_literal,
};

verus! {

/// One generated constant: `const NAME: TY = VALUE;`.
pub struct Constant {
    pub name: String,
    pub ty: String,
    pub value: String,
}

pub struct ConstDecl {
    pub name: Seq<char>,
    pub ty: Seq<char>,
    pub value: Seq<char>,
}

impl View for Constant {
    type V = ConstDecl;

    open spec fn view(&self) -> ConstDecl {
        ConstDecl { name: self.name@, ty: self.ty@, value: self.value@ }
    }
}

pub open spec fn consts(cs: Seq<Constant>) -> Seq<ConstDecl> {
    cs.map_values(|c: Constant| c@)
}

/// The values of the override variables, one per declaration.
pub open spec fn env_view(env: Seq<Option<String>>) -> Seq<Option<Seq<char>>> {
    env.map_values(
        |o: Option<String>|
            match o {
                Some(s) => Some(s@),
                None => None,
            },
    )
}

/// Every declaration names one of the numeric kinds.
pub open spec fn supported(ds: Seq<Decl>) -> bool {
    forall|i: int| 0 <= i < ds.len() ==> (#[trigger] spec_kind_of(ds[i].ty)) is Some
}

pub open spec fn kind_at(ds: Seq<Decl>, i: int) -> NumKind {
    spec_kind_of(ds[i].ty).unwrap()
}

/// Default mode: one constant per declaration, in order, bound to the
/// declared default.
pub open spec fn default_mode(ds: Seq<Decl>, cs: Seq<ConstDecl>) -> bool {
    cs.len() == ds.len() && forall|i: int|
        0 <= i < ds.len() ==> #[trigger] cs[i] == (ConstDecl {
            name: ds[i].name,
            ty: ds[i].ty,
            value: ds[i].default,
        })
}

/// Override mode: one constant per declaration, in order, bound to the value
/// resolved from its variable.
pub open spec fn override_mode(ds: Seq<Decl>, env: Seq<Option<Seq<char>>>, cs: Seq<ConstDecl>) -> bool {
    cs.len() == ds.len() && forall|i: int|
        0 <= i < ds.len() ==> #[trigger] cs[i] == (ConstDecl {
            name: ds[i].name,
            ty: ds[i].ty,
            value: override_text(kind_at(ds, i), env[i]),
        })
}

/// The texts `f(x)` of all items, one after another.
pub open spec fn joined<A>(xs: Seq<A>, f: spec_fn(A) -> Seq<char>) -> Seq<char>
    decreases xs.len(),
{
    if xs.len() == 0 {
        Seq::empty()
    } else {
        joined(xs.drop_last(), f) + f(xs.last())
    }
}

pub proof fn lemma_joined_append<A>(a: Seq<A>, b: Seq<A>, f: spec_fn(A) -> Seq<char>)
    ensures
        joined(a + b, f) == joined(a, f) + joined(b, f),
    decreases b.len(),
{
    if b.len() == 0 {
        assert(a + b =~= a);
        assert(joined(a, f) + Seq::<char>::empty() =~= joined(a, f));
    } else {
        lemma_joined_append(a, b.drop_last(), f);
        assert((a + b).drop_last() =~= a + b.drop_last());
        assert((a + b).last() == b.last());
        assert(joined(a, f) + joined(b.drop_last(), f) + f(b.last()) =~= joined(a, f) + (joined(
            b.drop_last(),
            f,
        ) + f(b.last())));
    }
}

/// The text of item `i` stands between the texts of the items before it and
/// those after it.
pub proof fn lemma_joined_split<A>(xs: Seq<A>, f: spec_fn(A) -> Seq<char>, i: int)
    requires
        0 <= i < xs.len(),
    ensures
        joined(xs, f) == joined(xs.take(i), f) + f(xs[i]) + joined(xs.skip(i + 1), f),
{
    let one = seq![xs[i]];
    assert(xs =~= xs.take(i) + (one + xs.skip(i + 1)));
    lemma_joined_append(xs.take(i), one + xs.skip(i + 1), f);
    lemma_joined_append(one, xs.skip(i + 1), f);
    assert(one.drop_last() =~= Seq::<A>::empty());
    assert(one.last() == xs[i]);
    assert(joined(one.drop_last(), f) == Seq::<char>::empty());
    assert(joined(one, f) =~= f(xs[i]));
}

pub open spec fn const_line(c: ConstDecl) -> Seq<char> {
    "const "@ + c.name + ": "@ + c.ty + " = "@ + c.value + ";\n"@
}

/// The constants of default mode, bound to the declared defaults.
pub fn default_constants(ps: &Vec<Param>) -> (r: Result<Vec<Constant>, ParamError>)
    ensures
        match r {
            Ok(cs) => supported(decls(ps@)) && default_mode(decls(ps@), consts(cs@)),
            Err(e) => !supported(decls(ps@)) && e == ParamError::UnsupportedType,
        },
{
    let ghost ds = decls(ps@);
    let mut cs: Vec<Constant> = Vec::new();
    let mut i: usize = 0;
    while i < ps.len()
        invariant
            ds == decls(ps@),
            i <= ps@.len(),
            cs@.len() == i,
            forall|j: int| 0 <= j < i ==> (#[trigger] spec_kind_of(ds[j].ty)) is Some,
            forall|j: int|
                0 <= j < i ==> #[trigger] consts(cs@)[j] == (ConstDecl {
                    name: ds[j].name,
                    ty: ds[j].ty,
                    value: ds[j].default,
                }),
        decreases ps.len() - i,
    {
        let p = &ps[i];
        if kind_of(p.ty.as_str()).is_none() {
            assert(!(spec_kind_of(ds[i as int].ty) is Some));
            return Err(ParamError::UnsupportedType);
        }
        let ghost prev = consts(cs@);
        cs.push(Constant { name: p.name.clone(), ty: p.ty.clone(), value: p.default.clone() });
        proof {
            assert(ds[i as int] == ps@[i as int]@);
            assert(consts(cs@) =~= prev.push(cs@[i as int]@));
        }
        i += 1;
    }
    Ok(cs)
}

/// The constants of override mode. `env` holds, for each declaration, the
/// text of its variable (for a floating-point kind: the literal of its parsed
/// value), or nothing where there is none.
pub fn override_constants(ps: &Vec<Param>, env: &Vec<Option<String>>) -> (r: Result<
    Vec<Constant>,
    ParamError,
>)
    requires
        env@.len() == ps@.len(),
    ensures
        match r {
            Ok(cs) => supported(decls(ps@)) && override_mode(
                decls(ps@),
                env_view(env@),
                consts(cs@),
            ),
            Err(e) => !supported(decls(ps@)) && e == ParamError::UnsupportedType,
        },
{
    let ghost ds = decls(ps@);
    let ghost ev = env_view(env@);
    let mut cs: Vec<Constant> = Vec::new();
    let mut i: usize = 0;
    while i < ps.len()
        invariant
            ds == decls(ps@),
            ev == env_view(env@),
            env@.len() == ps@.len(),
            i <= ps@.len(),
            cs@.len() == i,
            forall|j: int| 0 <= j < i ==> (#[trigger] spec_kind_of(ds[j].ty)) is Some,
            forall|j: int|
                0 <= j < i ==> #[trigger] consts(cs@)[j] == (ConstDecl {
                    name: ds[j].name,
                    ty: ds[j].ty,
                    value: override_text(kind_at(ds, j), ev[j]),
                }),
        decreases ps.len() - i,
    {
        let p = &ps[i];
        let k = match kind_of(p.ty.as_str()) {
            Some(k) => k,
            None => {
                assert(!(spec_kind_of(ds[i as int].ty) is Some));
                return Err(ParamError::UnsupportedType);
            },
        };
        let text: Option<&str> = match &env[i] {
            Some(s) => Some(s.as_str()),
            None => None,
        };
        let value = override_literal(k, text);
        let ghost prev = consts(cs@);
        cs.push(Constant { name: p.name.clone(), ty: p.ty.clone(), value });
        proof {
            assert(ds[i as int] == ps@[i as int]@);
            assert(ev[i as int] == match env@[i as int] {
                Some(s) => Some(s@),
                None => None::<Seq<char>>,
            });
            assert(consts(cs@) =~= prev.push(cs@[i as int]@));
        }
        i += 1;
    }
    Ok(cs)
}

/// The source text of the constants, one declaration per line, in order.
pub fn render_constants(cs: &Vec<Constant>) -> (r: String)
    ensures
        r@ == joined(consts(cs@), |c: ConstDecl| const_line(c)),
{
    let ghost f = |c: ConstDecl| const_line(c);
    let mut r = String::new();
    let mut i: usize = 0;
    while i < cs.len()
        invariant
            i <= cs@.len(),
            f == (|c: ConstDecl| const_line(c)),
            r@ == joined(consts(cs@).take(i as int), f),
        decreases cs.len() - i,
    {
        let c = &cs[i];
        r.append("const ");
        r.append(c.name.as_str());
        r.append(": ");
        r.append(c.ty.as_str());
        r.append(" = ");
        r.append(c.value.as_str());
        r.append(";\n");
        assert(consts(cs@).take(i + 1).drop_last() =~= consts(cs@).take(i as int));
        i += 1;
    }
    assert(consts(cs@).take(cs@.len() as int) =~= consts(cs@));
    r
}

/// In override mode with no variable set, every constant is the zero of its
/// declared type.
pub proof fn law_unset_is_zero(ds: Seq<Decl>, env: Seq<Option<Seq<char>>>, cs: Seq<ConstDecl>)
    requires
        env.len() == ds.len(),
        override_mode(ds, env, cs),
        forall|i: int| 0 <= i < env.len() ==> (#[trigger] env[i]) is None,
    ensures
        forall|i: int|
            0 <= i < cs.len() ==> (#[trigger] cs[i]).value == zero_literal(kind_at(ds, i)) && (!is_float(
                kind_at(ds, i),
            ) ==> denotes(cs[i].value, kind_at(ds, i), 0)),
{
    assert forall|i: int| 0 <= i < cs.len() implies (#[trigger] cs[i]).value == zero_literal(
        kind_at(ds, i),
    ) && (!is_float(kind_at(ds, i)) ==> denotes(cs[i].value, kind_at(ds, i), 0)) by {
        assert(env[i] is None);
        if !is_float(kind_at(ds, i)) {
            lemma_override_denotes(kind_at(ds, i), env[i]);
        }
    }
}

/// In override mode, a variable that holds a valid literal of the declared
/// integer type yields a constant whose value is exactly the parsed value.
pub proof fn law_valid_text_is_kept(
    ds: Seq<Decl>,
    env: Seq<Option<Seq<char>>>,
    cs: Seq<ConstDecl>,
    i: int,
    s: Seq<char>,
    v: int,
)
    requires
        override_mode(ds, env, cs),
        0 <= i < ds.len(),
        env[i] == Some(s),
        int_text_value(kind_at(ds, i), s) == Some(v),
    ensures
        denotes(cs[i].value, kind_at(ds, i), v),
{
    assert(cs[i].value == override_text(kind_at(ds, i), env[i]));
    lemma_override_denotes(kind_at(ds, i), env[i]);
}

/// In override mode, a variable whose text does not parse as the declared
/// integer type (not a number, or out of the type's range) yields zero.
pub proof fn law_bad_text_is_zero(
    ds: Seq<Decl>,
    env: Seq<Option<Seq<char>>>,
    cs: Seq<ConstDecl>,
    i: int,
    s: Seq<char>,
)
    requires
        override_mode(ds, env, cs),
        0 <= i < ds.len(),
        env[i] == Some(s),
        !is_float(kind_at(ds, i)),
        int_text_value(kind_at(ds, i), s) is None,
    ensures
        cs[i].value == zero_literal(kind_at(ds, i)),
        denotes(cs[i].value, kind_at(ds, i), 0),
{
    assert(cs[i].value == override_text(kind_at(ds, i), env[i]));
    lemma_override_denotes(kind_at(ds, i), env[i]);
}

} // verus!
