use vstd::prelude::*;

verus! {

/// Whether text is a single Rust identifier that is not a keyword, as syn reads it.
pub uninterp spec fn ident_syntax(s: Seq<char>) -> bool;

/// Whether text is one complete Rust type, as syn reads it.
pub uninterp spec fn type_syntax(s: Seq<char>) -> bool;

/// Whether text is one complete Rust expression, as syn reads it.
pub uninterp spec fn expr_syntax(s: Seq<char>) -> bool;

/// Relies on `syn::parse_str::<syn::Ident>`: succeeds exactly on the texts that
/// are one identifier and no keyword; the outcome depends on the text alone.
#[verifier::external_body]
pub(crate) fn is_ident_text(s: &str) -> (r: bool)
    ensures
        r == ident_syntax(s@),
{
    syn::parse_str::<syn::Ident>(s).is_ok()
}

/// Relies on `syn::parse_str::<syn::Type>`: succeeds exactly on the texts that
/// are one whole type; the outcome depends on the text alone.
#[verifier::external_body]
pub(crate) fn is_type_text(s: &str) -> (r: bool)
    ensures
        r == type_syntax(s@),
{
    syn::parse_str::<syn::Type>(s).is_ok()
}

/// Relies on `syn::parse_str::<syn::Expr>`: succeeds exactly on the texts that
/// are one whole expression; the outcome depends on the text alone.
#[verifier::external_body]
pub(crate) fn is_expr_text(s: &str) -> (r: bool)
    ensures
        r == expr_syntax(s@),
{
    syn::parse_str::<syn::Expr>(s).is_ok()
}

/// Which texts are identifiers, types and expressions: the judgements the
/// declaration grammar leaves to a Rust parser.
pub trait Verdicts {
    spec fn ident_ok(&self, s: Seq<char>) -> bool;

    spec fn type_ok(&self, s: Seq<char>) -> bool;

    spec fn expr_ok(&self, s: Seq<char>) -> bool;

    fn is_ident(&self, s: &str) -> (r: bool)
        ensures
            r == self.ident_ok(s@),
    ;

    fn is_type(&self, s: &str) -> (r: bool)
        ensures
            r == self.type_ok(s@),
    ;

    fn is_expr(&self, s: &str) -> (r: bool)
        ensures
            r == self.expr_ok(s@),
    ;
}

/// The verdicts of syn.
pub struct SynVerdicts;

impl Verdicts for SynVerdicts {
    open spec fn ident_ok(&self, s: Seq<char>) -> bool {
        ident_syntax(s)
    }

    open spec fn type_ok(&self, s: Seq<char>) -> bool {
        type_syntax(s)
    }

    open spec fn expr_ok(&self, s: Seq<char>) -> bool {
        expr_syntax(s)
    }

    fn is_ident(&self, s: &str) -> (r: bool) {
        is_ident_text(s)
    }

    fn is_type(&self, s: &str) -> (r: bool) {
        is_type_text(s)
    }

    fn is_expr(&self, s: &str) -> (r: bool) {
        is_expr_text(s)
    }
}

} // verus!
