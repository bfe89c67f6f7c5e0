use vstd::prelude::*;
use vstd::string::StringExecFns;

use crate::decl::{Decl, Param, decls};
use crate::emit::{joined, lemma_joined_split};

verus! {

/// Opening of the search script, up to the parameter table.
pub const SCRIPT_HEAD: &'static str = "import optuna\nimport os\nimport subprocess\n\n# name, type, default, (min, max, step)\nparams = [\n";

/// The search procedures, between the parameter table and the seeded trial.
pub const SCRIPT_BODY: &'static str = "]\n\ndef set_params_and_build(trial: optuna.trial.Trial):\n    for [name, type, default, (min, max, step)] in params:\n        if type in ['u8', 'u16', 'u32', 'u64', 'u128', 'usize', 'i8', 'i16', 'i32', 'i64', 'i128', 'isize']:\n            value = trial.suggest_int(name, min, max, step=step)\n        elif type in ['f32', 'f64']:\n            value = trial.suggest_float(name, min, max, step=step)\n        os.environ[name] = str(value)\n\n    subprocess.run([\"cargo\", \"build\", \"--release\", \"--features\", \"optruna\"], stderr=subprocess.DEVNULL)\n\ndef set_initial_trial_params(study: optuna.study.Study):\n    study.enqueue_trial({";

/// Closing of the search script, after the seeded trial's entries.
pub const SCRIPT_TAIL: &'static str = "})\n";

/// One row of the parameter table: `['NAME', 'TYPE', DEFAULT, (MIN, MAX, STEP)],`.
pub open spec fn table_row(d: Decl) -> Seq<char> {
    "    ['"@ + d.name + "', '"@ + d.ty + "', "@ + d.default + ", ("@ + d.min + ", "@ + d.max
        + ", "@ + d.step + ")],\n"@
}

/// One entry of the seeded trial: `'NAME': DEFAULT, `.
pub open spec fn seed_entry(d: Decl) -> Seq<char> {
    "'"@ + d.name + "': "@ + d.default + ", "@
}

pub open spec fn table_text(ds: Seq<Decl>) -> Seq<char> {
    joined(ds, |d: Decl| table_row(d))
}

pub open spec fn seed_text(ds: Seq<Decl>) -> Seq<char> {
    joined(ds, |d: Decl| seed_entry(d))
}

/// The whole search script for the declarations `ds`.
pub open spec fn script_text(ds: Seq<Decl>) -> Seq<char> {
    SCRIPT_HEAD@ + table_text(ds) + SCRIPT_BODY@ + seed_text(ds) + SCRIPT_TAIL@
}

fn row_exec(p: &Param) -> (r: String)
    ensures
        r@ == table_row(p@),
{
    let mut r = String::from_str("    ['");
    r.append(p.name.as_str());
    r.append("', '");
    r.append(p.ty.as_str());
    r.append("', ");
    r.append(p.default.as_str());
    r.append(", (");
    r.append(p.min.as_str());
    r.append(", ");
    r.append(p.max.as_str());
    r.append(", ");
    r.append(p.step.as_str());
    r.append(")],\n");
    r
}

fn seed_exec(p: &Param) -> (r: String)
    ensures
        r@ == seed_entry(p@),
{
    let mut r = String::from_str("'");
    r.append(p.name.as_str());
    r.append("': ");
    r.append(p.default.as_str());
    r.append(", ");
    r
}

/// The search script: the parameter table, the procedure that sets the
/// variables from a trial and rebuilds, and the procedure that seeds the
/// declared defaults as the first trial.
pub fn script(ps: &Vec<Param>) -> (r: String)
    ensures
        r@ == script_text(decls(ps@)),
{
    let ghost ds = decls(ps@);
    let ghost row = |d: Decl| table_row(d);
    let ghost seed = |d: Decl| seed_entry(d);
    let mut table = String::new();
    let mut seeds = String::new();
    let mut i: usize = 0;
    while i < ps.len()
        invariant
            ds == decls(ps@),
            i <= ps@.len(),
            row == (|d: Decl| table_row(d)),
            seed == (|d: Decl| seed_entry(d)),
            table@ == joined(ds.take(i as int), row),
            seeds@ == joined(ds.take(i as int), seed),
        decreases ps.len() - i,
    {
        let a = row_exec(&ps[i]);
        let b = seed_exec(&ps[i]);
        table.append(a.as_str());
        seeds.append(b.as_str());
        proof {
            assert(ds.take(i + 1).drop_last() =~= ds.take(i as int));
            assert(ds.take(i + 1).last() == ps@[i as int]@);
        }
        i += 1;
    }
    assert(ds.take(ps@.len() as int) =~= ds);
    let mut r = String::from_str(SCRIPT_HEAD);
    r.append(table.as_str());
    r.append(SCRIPT_BODY);
    r.append(seeds.as_str());
    r.append(SCRIPT_TAIL);
    r
}

/// The parameter table holds one row per declaration, in declaration order:
/// the row of declaration `i` reproduces its name, type, default and range,
/// with the rows of the declarations before it ahead of it and those after
/// it behind it.
pub proof fn law_table_rows_in_order(ds: Seq<Decl>, i: int)
    requires
        0 <= i < ds.len(),
    ensures
        table_text(ds) == table_text(ds.take(i)) + table_row(ds[i]) + table_text(ds.skip(i + 1)),
{
    lemma_joined_split(ds, |d: Decl| table_row(d), i);
}

/// The seeded trial assigns to each declared name exactly its declared
/// default, in declaration order.
pub proof fn law_seed_is_defaults(ds: Seq<Decl>, i: int)
    requires
        0 <= i < ds.len(),
    ensures
        seed_text(ds) == seed_text(ds.take(i)) + seed_entry(ds[i]) + seed_text(ds.skip(i + 1)),
{
    lemma_joined_split(ds, |d: Decl| seed_entry(d), i);
}

} // verus!
