use optruna::decl::{parse_params, Param, ParamError, Tok, TokKind};
use optruna::emit::{default_constants, override_constants, render_constants, Constant};
use optruna::kind::{kind_of, override_literal, parse_int, NumKind};
use optruna::script::script;

fn tok(kind: TokKind, text: &str, joint: bool) -> Tok {
    Tok { kind, text: text.to_string(), joint }
}

fn ident(s: &str) -> Tok {
    tok(TokKind::Ident, s, false)
}

fn punct(c: &str) -> Tok {
    tok(TokKind::Punct, c, false)
}

fn lit(s: &str) -> Tok {
    tok(TokKind::Literal, s, false)
}

fn open() -> Tok {
    tok(TokKind::Open, "(", false)
}

fn close() -> Tok {
    tok(TokKind::Close, ")", false)
}

/// `name: ty = default, (min, max, step),`
fn entry(name: &str, ty: &str, default: &str, range: [&str; 3]) -> Vec<Tok> {
    vec![
        ident(name),
        punct(":"),
        ident(ty),
        punct("="),
        lit(default),
        punct(","),
        open(),
        lit(range[0]),
        punct(","),
        lit(range[1]),
        punct(","),
        lit(range[2]),
        close(),
        punct(","),
    ]
}

fn example_tokens() -> Vec<Tok> {
    let mut ts = entry("lr", "f64", "0.01", ["0.0001", "1.0", "0.0001"]);
    ts.extend(entry("depth", "u32", "3", ["1", "10", "1"]));
    ts
}

fn values(cs: &[Constant]) -> Vec<String> {
    cs.iter().map(|c| c.value.clone()).collect()
}

fn refused_at(ts: &Vec<Tok>) -> Option<usize> {
    match parse_params(ts) {
        Err(ParamError::Syntax { at }) => Some(at),
        _ => None,
    }
}

fn parsed(ts: &Vec<Tok>) -> Vec<Param> {
    match parse_params(ts) {
        Ok(ps) => ps,
        Err(e) => panic!("refused: {:?}", e),
    }
}

#[test]
fn example_default_mode_with_script() {
    let ps = parsed(&example_tokens());
    assert_eq!(ps.len(), 2);
    assert_eq!(ps[0].name, "lr");
    assert_eq!(ps[0].ty, "f64");
    assert_eq!(ps[0].default, "0.01");
    assert_eq!((ps[0].min.as_str(), ps[0].max.as_str(), ps[0].step.as_str()), ("0.0001", "1.0", "0.0001"));
    let cs = default_constants(&ps).unwrap();
    assert_eq!(values(&cs), vec!["0.01", "3"]);
    assert_eq!(
        render_constants(&cs),
        "const lr: f64 = 0.01;\nconst depth: u32 = 3;\n"
    );
    let py = script(&ps);
    let rows = "params = [\n    ['lr', 'f64', 0.01, (0.0001, 1.0, 0.0001)],\n    ['depth', 'u32', 3, (1, 10, 1)],\n]";
    assert!(py.contains(rows), "{}", py);
    assert!(py.contains("study.enqueue_trial({'lr': 0.01, 'depth': 3, })"), "{}", py);
    assert!(py.contains("def set_params_and_build(trial"));
    assert!(py.contains("trial.suggest_int(name, min, max, step=step)"));
    assert!(py.contains("trial.suggest_float(name, min, max, step=step)"));
}

#[test]
fn example_override_mode() {
    let ps = parsed(&example_tokens());
    let env = vec![None, Some("7".to_string())];
    let cs = override_constants(&ps, &env).unwrap();
    assert_eq!(values(&cs), vec!["0f64", "7u32"]);
    assert_eq!(
        render_constants(&cs),
        "const lr: f64 = 0f64;\nconst depth: u32 = 7u32;\n"
    );
}

#[test]
fn default_mode_ignores_overrides() {
    let mut ts = entry("a", "i8", "-3", ["-5", "5", "1"]);
    ts.extend(entry("b", "usize", "10", ["0", "20", "2"]));
    let ps = parsed(&ts);
    let cs = default_constants(&ps).unwrap();
    assert_eq!(cs[0].name, "a");
    assert_eq!(cs[0].ty, "i8");
    assert_eq!(values(&cs), vec!["-3", "10"]);
}

#[test]
fn unset_overrides_are_zero() {
    let mut ts = Vec::new();
    for (name, ty) in [("a", "u8"), ("b", "i64"), ("c", "f32"), ("d", "u128"), ("e", "isize")] {
        ts.extend(entry(name, ty, "1", ["0", "9", "1"]));
    }
    let ps = parsed(&ts);
    let env = vec![None; 5];
    let cs = override_constants(&ps, &env).unwrap();
    assert_eq!(values(&cs), vec!["0u8", "0i64", "0f32", "0u128", "0isize"]);
}

#[test]
fn valid_override_text_is_kept() {
    assert_eq!(override_literal(NumKind::U8, Some("255")), "255u8");
    assert_eq!(override_literal(NumKind::U8, Some("+42")), "42u8");
    assert_eq!(override_literal(NumKind::I8, Some("-128")), "-128i8");
    assert_eq!(override_literal(NumKind::I8, Some("-0")), "0i8");
    assert_eq!(override_literal(NumKind::U32, Some("007")), "007u32");
    assert_eq!(
        override_literal(NumKind::U128, Some("340282366920938463463374607431768211455")),
        "340282366920938463463374607431768211455u128"
    );
    assert_eq!(
        override_literal(NumKind::I128, Some("-170141183460469231731687303715884105728")),
        "-170141183460469231731687303715884105728i128"
    );
    assert_eq!(override_literal(NumKind::F64, Some("0.5")), "0.5f64");
}

#[test]
fn bad_override_text_is_zero() {
    assert_eq!(override_literal(NumKind::U8, Some("256")), "0u8");
    assert_eq!(override_literal(NumKind::U8, Some("abc")), "0u8");
    assert_eq!(override_literal(NumKind::U32, Some("-1")), "0u32");
    assert_eq!(override_literal(NumKind::I8, Some("-129")), "0i8");
    assert_eq!(override_literal(NumKind::I16, Some("")), "0i16");
    assert_eq!(override_literal(NumKind::I16, Some("+")), "0i16");
    assert_eq!(override_literal(NumKind::I16, Some("-")), "0i16");
    assert_eq!(override_literal(NumKind::U64, Some(" 5")), "0u64");
    assert_eq!(override_literal(NumKind::U64, Some("1_000")), "0u64");
    assert_eq!(override_literal(NumKind::F32, None), "0f32");
    assert_eq!(
        override_literal(NumKind::U128, Some("340282366920938463463374607431768211456")),
        "0u128"
    );
}

#[test]
fn integer_text_matches_std() {
    for s in ["0", "12", "+7", "-7", "255", "256", "-128", "-129", "x", "", "+", "-", "1a"] {
        assert_eq!(parse_int(NumKind::I8, s).is_some(), s.parse::<i8>().is_ok(), "{}", s);
        assert_eq!(parse_int(NumKind::U8, s).is_some(), s.parse::<u8>().is_ok(), "{}", s);
    }
    assert_eq!(parse_int(NumKind::I8, "-5"), Some(true));
    assert_eq!(parse_int(NumKind::I8, "5"), Some(false));
}

#[test]
fn kinds_by_name() {
    assert_eq!(kind_of("u8"), Some(NumKind::U8));
    assert_eq!(kind_of("isize"), Some(NumKind::Isize));
    assert_eq!(kind_of("f64"), Some(NumKind::F64));
    assert_eq!(kind_of("String"), None);
    assert_eq!(kind_of("u8 "), None);
    assert_eq!(NumKind::I128.name(), "i128");
}

#[test]
fn unsupported_type_aborts_in_both_modes() {
    let mut ts = entry("a", "u8", "1", ["0", "9", "1"]);
    ts.extend(entry("name", "String", "1", ["0", "9", "1"]));
    let ps = parsed(&ts);
    assert_eq!(ps[1].ty, "String");
    assert_eq!(default_constants(&ps).err(), Some(ParamError::UnsupportedType));
    let env = vec![None, None];
    assert_eq!(override_constants(&ps, &env).err(), Some(ParamError::UnsupportedType));
}

#[test]
fn generic_type_is_a_type_but_unsupported() {
    let ts = vec![
        ident("v"),
        punct(":"),
        ident("Vec"),
        punct("<"),
        ident("u8"),
        punct(">"),
        punct("="),
        lit("1"),
        punct(","),
        open(),
        lit("1"),
        punct(","),
        lit("2"),
        punct(","),
        lit("3"),
        close(),
        punct(","),
    ];
    let ps = parsed(&ts);
    assert_eq!(ps[0].ty, "Vec < u8 >");
    assert_eq!(default_constants(&ps).err(), Some(ParamError::UnsupportedType));
}

#[test]
fn path_type_keeps_joint_punctuation() {
    let ts = vec![
        ident("p"),
        punct(":"),
        ident("std"),
        tok(TokKind::Punct, ":", true),
        punct(":"),
        ident("primitive"),
        tok(TokKind::Punct, ":", true),
        punct(":"),
        ident("u8"),
        punct("="),
        lit("1"),
        punct(","),
        open(),
        lit("1"),
        punct(","),
        lit("2"),
        punct(","),
        lit("3"),
        close(),
        punct(","),
    ];
    let ps = parsed(&ts);
    assert_eq!(ps[0].ty, "std :: primitive :: u8");
    assert_eq!(default_constants(&ps).err(), Some(ParamError::UnsupportedType));
}

#[test]
fn grouped_default_expression() {
    let ts = vec![
        ident("g"),
        punct(":"),
        ident("u16"),
        punct("="),
        open(),
        lit("1"),
        punct(","),
        lit("2"),
        close(),
        punct("."),
        lit("0"),
        punct(","),
        open(),
        lit("1"),
        punct(","),
        open(),
        lit("2"),
        punct("+"),
        lit("3"),
        close(),
        punct(","),
        lit("1"),
        close(),
        punct(","),
    ];
    let ps = parsed(&ts);
    assert_eq!(ps[0].default, "( 1 , 2 ) . 0");
    assert_eq!(ps[0].max, "( 2 + 3 )");
}

#[test]
fn empty_block_gives_nothing() {
    let ps = parsed(&Vec::new());
    assert!(ps.is_empty());
    assert!(default_constants(&ps).unwrap().is_empty());
    assert_eq!(render_constants(&Vec::new()), "");
    let py = script(&ps);
    assert!(py.contains("params = [\n]"));
    assert!(py.contains("study.enqueue_trial({})"));
}

#[test]
fn malformed_syntax_is_refused() {
    let full = entry("a", "u8", "1", ["0", "9", "1"]);
    // incomplete trailing entry
    for cut in 1..full.len() {
        let mut ts = entry("b", "u8", "1", ["0", "9", "1"]);
        ts.extend(full[..cut].iter().map(|t| tok(t.kind, &t.text, t.joint)));
        assert_eq!(refused_at(&ts), Some(14), "cut {}", cut);
    }
    // name is not an identifier
    let mut ts = entry("a", "u8", "1", ["0", "9", "1"]);
    ts[0] = lit("1");
    assert_eq!(refused_at(&ts), Some(0));
    // name is a keyword
    let ts = entry("fn", "u8", "1", ["0", "9", "1"]);
    assert_eq!(refused_at(&ts), Some(0));
    // type is not a type
    let mut ts = entry("a", "u8", "1", ["0", "9", "1"]);
    ts[2] = lit("5");
    assert_eq!(refused_at(&ts), Some(0));
    // default is not an expression
    let mut ts = entry("a", "u8", "1", ["0", "9", "1"]);
    ts.insert(5, punct("+"));
    assert_eq!(refused_at(&ts), Some(0));
    // missing default
    let mut ts = entry("a", "u8", "1", ["0", "9", "1"]);
    ts.remove(4);
    assert_eq!(refused_at(&ts), Some(0));
    // range with two members
    let ts = vec![
        ident("a"),
        punct(":"),
        ident("u8"),
        punct("="),
        lit("1"),
        punct(","),
        open(),
        lit("0"),
        punct(","),
        lit("9"),
        close(),
        punct(","),
    ];
    assert_eq!(refused_at(&ts), Some(0));
    // range not in parentheses
    let mut ts = entry("a", "u8", "1", ["0", "9", "1"]);
    ts[6] = tok(TokKind::Open, "[", false);
    ts[12] = tok(TokKind::Close, "]", false);
    assert_eq!(refused_at(&ts), Some(0));
    // colon in place of the equals sign
    let mut ts = entry("a", "u8", "1", ["0", "9", "1"]);
    ts[3] = punct(":");
    assert_eq!(refused_at(&ts), Some(0));
}

fn joint(c: &str) -> Tok {
    tok(TokKind::Punct, c, true)
}

#[test]
fn default_with_generic_arguments_is_one_expression() {
    // x: u32 = f::<u8, u16>(), (0, 1, 1),
    let ts = vec![
        ident("x"),
        punct(":"),
        ident("u32"),
        punct("="),
        ident("f"),
        joint(":"),
        punct(":"),
        punct("<"),
        ident("u8"),
        punct(","),
        ident("u16"),
        punct(">"),
        open(),
        close(),
        punct(","),
        open(),
        lit("0"),
        punct(","),
        lit("1"),
        punct(","),
        lit("1"),
        close(),
        punct(","),
    ];
    let ps = parsed(&ts);
    assert_eq!(ps.len(), 1);
    assert_eq!(ps[0].default, "f :: < u8 , u16 > ( )");
    assert_eq!((ps[0].min.as_str(), ps[0].max.as_str(), ps[0].step.as_str()), ("0", "1", "1"));
}

#[test]
fn closure_members_are_one_expression() {
    // c: u8 = |a, b| a, (0, |p, q| p, 1),
    let ts = vec![
        ident("c"),
        punct(":"),
        ident("u8"),
        punct("="),
        punct("|"),
        ident("a"),
        punct(","),
        ident("b"),
        punct("|"),
        ident("a"),
        punct(","),
        open(),
        lit("0"),
        punct(","),
        punct("|"),
        ident("p"),
        punct(","),
        ident("q"),
        punct("|"),
        ident("p"),
        punct(","),
        lit("1"),
        close(),
        punct(","),
    ];
    let ps = parsed(&ts);
    assert_eq!(ps[0].default, "| a , b | a");
    assert_eq!(ps[0].max, "| p , q | p");
    assert_eq!(ps[0].step, "1");
}

#[test]
fn type_with_binding_is_unsupported_not_malformed() {
    // t: Foo<T = u8> = 1, (0, 1, 1),
    let ts = vec![
        ident("t"),
        punct(":"),
        ident("Foo"),
        punct("<"),
        ident("T"),
        punct("="),
        ident("u8"),
        punct(">"),
        punct("="),
        lit("1"),
        punct(","),
        open(),
        lit("0"),
        punct(","),
        lit("1"),
        punct(","),
        lit("1"),
        close(),
        punct(","),
    ];
    let ps = parsed(&ts);
    assert_eq!(ps[0].ty, "Foo < T = u8 >");
    assert_eq!(default_constants(&ps).err(), Some(ParamError::UnsupportedType));
}

#[test]
fn range_of_four_or_none_is_refused() {
    let mut ts = entry("a", "u8", "1", ["0", "9", "1"]);
    ts.insert(12, lit("2"));
    ts.insert(12, punct(","));
    assert_eq!(refused_at(&ts), Some(0));
    // x: u8 = 1, 5,
    let ts = vec![ident("x"), punct(":"), ident("u8"), punct("="), lit("1"), punct(","), lit("5"), punct(",")];
    assert_eq!(refused_at(&ts), Some(0));
}

#[test]
fn missing_tokens_are_refused() {
    // x: u8, (0, 2, 1),
    let ts = vec![
        ident("x"), punct(":"), ident("u8"), punct(","),
        open(), lit("0"), punct(","), lit("2"), punct(","), lit("1"), close(), punct(","),
    ];
    assert_eq!(refused_at(&ts), Some(0));
    // x u8 = 1, (0, 2, 1),
    let mut ts = entry("x", "u8", "1", ["0", "2", "1"]);
    ts.remove(1);
    assert_eq!(refused_at(&ts), Some(0));
    // x: u8 = 1 (0, 2, 1),
    let mut ts = entry("x", "u8", "1", ["0", "2", "1"]);
    ts.remove(5);
    assert_eq!(refused_at(&ts), Some(0));
}
