use vstd::prelude::*;
use vstd::string::StrSliceExecFns;
use vstd::string::StringExecFns;

verus! {

/// The closed set of numeric primitive types a parameter may be declared with.
#[derive(Clone, Copy, Debug, PartialEq, Eq, Structural)]
pub enum NumKind {
    U8,
    U16,
    U32,
    U64,
    U128,
    Usize,
    I8,
    I16,
    I32,
    I64,
    I128,
    Isize,
    F32,
    F64,
}

/// The Rust spelling of a kind, as written in a declaration.
pub open spec fn kind_name(k: NumKind) -> Seq<char> {
    match k {
        NumKind::U8 => "u8"@,
        NumKind::U16 => "u16"@,
        NumKind::U32 => "u32"@,
        NumKind::U64 => "u64"@,
        NumKind::U128 => "u128"@,
        NumKind::Usize => "usize"@,
        NumKind::I8 => "i8"@,
        NumKind::I16 => "i16"@,
        NumKind::I32 => "i32"@,
        NumKind::I64 => "i64"@,
        NumKind::I128 => "i128"@,
        NumKind::Isize => "isize"@,
        NumKind::F32 => "f32"@,
        NumKind::F64 => "f64"@,
    }
}

/// The kind whose spelling is exactly `s`, if any.
pub open spec fn spec_kind_of(s: Seq<char>) -> Option<NumKind> {
    if s == "u8"@ {
        Some(NumKind::U8)
    } else if s == "u16"@ {
        Some(NumKind::U16)
    } else if s == "u32"@ {
        Some(NumKind::U32)
    } else if s == "u64"@ {
        Some(NumKind::U64)
    } else if s == "u128"@ {
        Some(NumKind::U128)
    } else if s == "usize"@ {
        Some(NumKind::Usize)
    } else if s == "i8"@ {
        Some(NumKind::I8)
    } else if s == "i16"@ {
        Some(NumKind::I16)
    } else if s == "i32"@ {
        Some(NumKind::I32)
    } else if s == "i64"@ {
        Some(NumKind::I64)
    } else if s == "i128"@ {
        Some(NumKind::I128)
    } else if s == "isize"@ {
        Some(NumKind::Isize)
    } else if s == "f32"@ {
        Some(NumKind::F32)
    } else if s == "f64"@ {
        Some(NumKind::F64)
    } else {
        None
    }
}

pub open spec fn is_float(k: NumKind) -> bool {
    k == NumKind::F32 || k == NumKind::F64
}

pub open spec fn is_signed(k: NumKind) -> bool {
    match k {
        NumKind::I8 | NumKind::I16 | NumKind::I32 | NumKind::I64 | NumKind::I128
        | NumKind::Isize => true,
        _ => false,
    }
}

/// Smallest value of an integer kind.
pub open spec fn min_of(k: NumKind) -> int {
    match k {
        NumKind::I8 => i8::MIN as int,
        NumKind::I16 => i16::MIN as int,
        NumKind::I32 => i32::MIN as int,
        NumKind::I64 => i64::MIN as int,
        NumKind::I128 => i128::MIN as int,
        NumKind::Isize => isize::MIN as int,
        _ => 0,
    }
}

/// Largest value of an integer kind.
pub open spec fn max_of(k: NumKind) -> int {
    match k {
        NumKind::U8 => u8::MAX as int,
        NumKind::U16 => u16::MAX as int,
        NumKind::U32 => u32::MAX as int,
        NumKind::U64 => u64::MAX as int,
        NumKind::U128 => u128::MAX as int,
        NumKind::Usize => usize::MAX as int,
        NumKind::I8 => i8::MAX as int,
        NumKind::I16 => i16::MAX as int,
        NumKind::I32 => i32::MAX as int,
        NumKind::I64 => i64::MAX as int,
        NumKind::I128 => i128::MAX as int,
        NumKind::Isize => isize::MAX as int,
        _ => 0,
    }
}

pub open spec fn is_digit(c: char) -> bool {
    '0' <= c && c <= '9'
}

pub open spec fn all_digits(s: Seq<char>) -> bool {
    forall|i: int| 0 <= i < s.len() ==> is_digit(#[trigger] s[i])
}

/// The value of a run of decimal digits.
pub open spec fn digits_value(s: Seq<char>) -> int
    decreases s.len(),
{
    if s.len() == 0 {
        0
    } else {
        digits_value(s.drop_last()) * 10 + (s.last() as u32 - '0' as u32)
    }
}

/// Whether the text opens with a sign that the integer syntax of kind `k` takes:
/// `+` always, `-` for signed kinds only.
pub open spec fn sign_len(k: NumKind, s: Seq<char>) -> int {
    if s.len() > 0 && (s[0] == '+' || (s[0] == '-' && is_signed(k))) {
        1
    } else {
        0
    }
}

pub open spec fn is_negative_text(k: NumKind, s: Seq<char>) -> bool {
    sign_len(k, s) == 1 && s[0] == '-'
}

/// The digits after the optional sign.
pub open spec fn digit_part(k: NumKind, s: Seq<char>) -> Seq<char> {
    s.subrange(sign_len(k, s), s.len() as int)
}

/// The integer that `s` spells for kind `k`, as the standard library's
/// decimal parser reads it: an optional sign, one or more ASCII digits, and a
/// value within the kind's range.
pub open spec fn int_text_value(k: NumKind, s: Seq<char>) -> Option<int> {
    let d = digit_part(k, s);
    let v = if is_negative_text(k, s) {
        -digits_value(d)
    } else {
        digits_value(d)
    };
    if !is_float(k) && d.len() > 0 && all_digits(d) && min_of(k) <= v && v <= max_of(k) {
        Some(v)
    } else {
        None
    }
}

/// The literal `0` with the kind's suffix.
pub open spec fn zero_literal(k: NumKind) -> Seq<char> {
    seq!['0'] + kind_name(k)
}

/// The value an override resolves to: the parsed text, or zero where the text
/// is absent or does not parse.
pub open spec fn override_value(k: NumKind, env: Option<Seq<char>>) -> int {
    match env {
        Some(s) => match int_text_value(k, s) {
            Some(v) => v,
            None => 0,
        },
        None => 0,
    }
}

/// The literal emitted for an override. For an integer kind `env` is the raw
/// text of the variable; for a floating-point kind it is the literal of the
/// already parsed value, or absent where there was none.
pub open spec fn override_text(k: NumKind, env: Option<Seq<char>>) -> Seq<char> {
    match env {
        Some(s) => if is_float(k) {
            s + kind_name(k)
        } else if int_text_value(k, s) is Some {
            (if int_text_value(k, s).unwrap() < 0 {
                seq!['-']
            } else {
                Seq::empty()
            }) + digit_part(k, s) + kind_name(k)
        } else {
            zero_literal(k)
        },
        None => zero_literal(k),
    }
}

/// `lit` is a suffixed decimal integer literal of kind `k` whose value is `v`.
pub open spec fn denotes(lit: Seq<char>, k: NumKind, v: int) -> bool {
    exists|d: Seq<char>|
        d.len() > 0 && all_digits(d) && #[trigger] digits_value(d) == (if v < 0 {
            -v
        } else {
            v
        }) && lit == (if v < 0 {
            seq!['-']
        } else {
            Seq::empty()
        }) + d + kind_name(k)
}

/// An integer override is emitted as a literal whose value is the resolved
/// value.
pub proof fn lemma_override_denotes(k: NumKind, env: Option<Seq<char>>)
    requires
        !is_float(k),
    ensures
        denotes(override_text(k, env), k, override_value(k, env)),
{
    let lit = override_text(k, env);
    let v = override_value(k, env);
    if env is Some && int_text_value(k, env.unwrap()) is Some {
        let s = env.unwrap();
        let d = digit_part(k, s);
        lemma_digits_value_nonneg(d);
        assert(digits_value(d) == (if v < 0 { -v } else { v }));
        assert(d.len() > 0 && all_digits(d));
        assert(lit == (if v < 0 { seq!['-'] } else { Seq::<char>::empty() }) + d + kind_name(k));
    } else {
        let d = seq!['0'];
        assert(d.drop_last() =~= Seq::<char>::empty());
        assert(d.last() == '0');
        assert(digits_value(d.drop_last()) == 0);
        assert(digits_value(d) == 0);
        assert(all_digits(d));
        assert(lit =~= Seq::<char>::empty() + d + kind_name(k));
    }
}

pub proof fn lemma_digits_value_nonneg(s: Seq<char>)
    requires
        all_digits(s),
    ensures
        digits_value(s) >= 0,
    decreases s.len(),
{
    if s.len() > 0 {
        lemma_digits_value_nonneg(s.drop_last());
    }
}

pub proof fn lemma_digits_prefix_le(s: Seq<char>, j: int)
    requires
        all_digits(s),
        0 <= j <= s.len(),
    ensures
        digits_value(s.subrange(0, j)) <= digits_value(s),
    decreases s.len(),
{
    if j < s.len() {
        let t = s.drop_last();
        assert(t.subrange(0, j) =~= s.subrange(0, j));
        lemma_digits_prefix_le(t, j);
        lemma_digits_value_nonneg(t);
    } else {
        assert(s.subrange(0, j) =~= s);
    }
}

impl NumKind {
    /// The Rust spelling of the kind.
    pub fn name(&self) -> (r: &'static str)
        ensures
            r@ == kind_name(*self),
    {
        match self {
            NumKind::U8 => "u8",
            NumKind::U16 => "u16",
            NumKind::U32 => "u32",
            NumKind::U64 => "u64",
            NumKind::U128 => "u128",
            NumKind::Usize => "usize",
            NumKind::I8 => "i8",
            NumKind::I16 => "i16",
            NumKind::I32 => "i32",
            NumKind::I64 => "i64",
            NumKind::I128 => "i128",
            NumKind::Isize => "isize",
            NumKind::F32 => "f32",
            NumKind::F64 => "f64",
        }
    }

    pub fn is_float(&self) -> (r: bool)
        ensures
            r == is_float(*self),
    {
        matches!(self, NumKind::F32 | NumKind::F64)
    }

    pub fn is_signed(&self) -> (r: bool)
        ensures
            r == is_signed(*self),
    {
        matches!(
            self,
            NumKind::I8 | NumKind::I16 | NumKind::I32 | NumKind::I64 | NumKind::I128 | NumKind::Isize
        )
    }

    /// The largest magnitude a value of this integer kind may have, above zero
    /// or (with `negative`) below it.
    fn limit(&self, negative: bool) -> (r: u128)
        requires
            !is_float(*self),
        ensures
            r as int == if negative {
                -min_of(*self)
            } else {
                max_of(*self)
            },
    {
        if negative {
            match self {
                NumKind::I8 => 128,
                NumKind::I16 => 32768,
                NumKind::I32 => 2147483648,
                NumKind::I64 => 9223372036854775808,
                NumKind::I128 => 170141183460469231731687303715884105728,
                NumKind::Isize => (isize::MAX as u128) + 1,
                _ => 0,
            }
        } else {
            match self {
                NumKind::U8 => u8::MAX as u128,
                NumKind::U16 => u16::MAX as u128,
                NumKind::U32 => u32::MAX as u128,
                NumKind::U64 => u64::MAX as u128,
                NumKind::U128 => u128::MAX,
                NumKind::Usize => usize::MAX as u128,
                NumKind::I8 => i8::MAX as u128,
                NumKind::I16 => i16::MAX as u128,
                NumKind::I32 => i32::MAX as u128,
                NumKind::I64 => i64::MAX as u128,
                NumKind::I128 => i128::MAX as u128,
                NumKind::Isize => isize::MAX as u128,
                _ => 0,
            }
        }
    }
}

/// Whether `s` holds exactly the characters of `lit`.
pub fn text_is(s: &str, lit: &str) -> (r: bool)
    ensures
        r == (s@ == lit@),
{
    let n = s.unicode_len();
    if n != lit.unicode_len() {
        return false;
    }
    let mut i: usize = 0;
    while i < n
        invariant
            n == s@.len(),
            n == lit@.len(),
            i <= n,
            s@.subrange(0, i as int) == lit@.subrange(0, i as int),
        decreases n - i,
    {
        if s.get_char(i) != lit.get_char(i) {
            return false;
        }
        assert(s@.subrange(0, i + 1) =~= s@.subrange(0, i as int).push(s@[i as int]));
        assert(lit@.subrange(0, i + 1) =~= lit@.subrange(0, i as int).push(lit@[i as int]));
        i += 1;
    }
    assert(s@ =~= s@.subrange(0, n as int));
    assert(lit@ =~= lit@.subrange(0, n as int));
    true
}

/// The kind spelled by a type's source text.
pub fn kind_of(s: &str) -> (r: Option<NumKind>)
    ensures
        r == spec_kind_of(s@),
{
    if text_is(s, "u8") {
        Some(NumKind::U8)
    } else if text_is(s, "u16") {
        Some(NumKind::U16)
    } else if text_is(s, "u32") {
        Some(NumKind::U32)
    } else if text_is(s, "u64") {
        Some(NumKind::U64)
    } else if text_is(s, "u128") {
        Some(NumKind::U128)
    } else if text_is(s, "usize") {
        Some(NumKind::Usize)
    } else if text_is(s, "i8") {
        Some(NumKind::I8)
    } else if text_is(s, "i16") {
        Some(NumKind::I16)
    } else if text_is(s, "i32") {
        Some(NumKind::I32)
    } else if text_is(s, "i64") {
        Some(NumKind::I64)
    } else if text_is(s, "i128") {
        Some(NumKind::I128)
    } else if text_is(s, "isize") {
        Some(NumKind::Isize)
    } else if text_is(s, "f32") {
        Some(NumKind::F32)
    } else if text_is(s, "f64") {
        Some(NumKind::F64)
    } else {
        None
    }
}

/// Reads `s` as a decimal integer of kind `k`; on success returns whether its
/// value is below zero.
pub fn parse_int(k: NumKind, s: &str) -> (r: Option<bool>)
    requires
        !is_float(k),
    ensures
        r is Some <==> int_text_value(k, s@) is Some,
        r matches Some(neg) ==> neg == (int_text_value(k, s@).unwrap() < 0),
{
    let n = s.unicode_len();
    let mut start: usize = 0;
    let mut negative = false;
    if n > 0 {
        let c = s.get_char(0);
        if c == '+' {
            start = 1;
        } else if c == '-' && k.is_signed() {
            start = 1;
            negative = true;
        }
    }
    assert(start as int == sign_len(k, s@));
    assert(negative == is_negative_text(k, s@));
    let ghost d = digit_part(k, s@);
    if start == n {
        return None;
    }
    let lim = k.limit(negative);
    let mut v: u128 = 0;
    let mut i: usize = start;
    while i < n
        invariant
            n == s@.len(),
            start <= i <= n,
            start as int == sign_len(k, s@),
            negative == is_negative_text(k, s@),
            d == s@.subrange(start as int, n as int),
            lim as int == if negative {
                -min_of(k)
            } else {
                max_of(k)
            },
            v as int == digits_value(d.subrange(0, i - start)),
            v <= lim,
            all_digits(d.subrange(0, i - start)),
        decreases n - i,
    {
        let c = s.get_char(i);
        assert(c == d[i - start]);
        if !('0' <= c && c <= '9') {
            return None;
        }
        let dig: u128 = (c as u32 - '0' as u32) as u128;
        let ghost next = d.subrange(0, i - start + 1);
        assert(next.drop_last() =~= d.subrange(0, i - start));
        assert(all_digits(next));
        if v > lim / 10 {
            proof {
                assert(v * 10 > lim) by (nonlinear_arith)
                    requires
                        v > lim / 10,
                ;
                if all_digits(d) {
                    lemma_digits_prefix_le(d, i - start + 1);
                }
            }
            return None;
        }
        assert(v * 10 <= lim) by (nonlinear_arith)
            requires
                v <= lim / 10,
        ;
        let w = v * 10;
        if dig > lim - w {
            proof {
                assert(next.last() == c);
                assert(digits_value(next) == v * 10 + dig);
                if all_digits(d) {
                    lemma_digits_prefix_le(d, i - start + 1);
                }
            }
            return None;
        }
        v = w + dig;
        i += 1;
    }
    assert(d.subrange(0, n - start) =~= d);
    Some(negative && v != 0)
}

/// The literal a constant of kind `k` takes in override mode, given the
/// variable's text (for a floating-point kind: the literal of its parsed
/// value). Absent or unreadable text gives zero.
pub fn override_literal(k: NumKind, env: Option<&str>) -> (r: String)
    ensures
        r@ == override_text(
            k,
            match env {
                Some(s) => Some(s@),
                None => None,
            },
        ),
{
    let suffix = k.name();
    match env {
        Some(s) => {
            if k.is_float() {
                let mut r = String::from_str(s);
                r.append(suffix);
                r
            } else {
                match parse_int(k, s) {
                    Some(negative) => {
                        let n = s.unicode_len();
                        let c = s.get_char(0);
                        let start: usize = if c == '+' || (c == '-' && k.is_signed()) {
                            1
                        } else {
                            0
                        };
                        let mut r = if negative {
                            String::from_str("-")
                        } else {
                            String::new()
                        };
                        proof {
                            reveal_strlit("-");
                        }
                        r.append(s.substring_char(start, n));
                        r.append(suffix);
                        r
                    },
                    None => {
                        let mut r = String::from_str("0");
                        proof {
                            reveal_strlit("0");
                        }
                        r.append(suffix);
                        r
                    },
                }
            }
        },
        None => {
            let mut r = String::from_str("0");
            proof {
                reveal_strlit("0");
            }
            r.append(suffix);
            r
        },
    }
}

} // verus!
