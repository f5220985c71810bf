//! The environments that the LaTeX parser knows.
use vstd::prelude::*;

use crate::text::str_eq;

verus! {

#[derive(Debug, Clone, Copy, PartialEq, Eq, Structural)]
pub enum Env {
    Array,
    Subarray,
    Align,
    AlignStar,
    Aligned,
    Cases,
    Matrix,
    BMatrix,
    Bmatrix,
    PMatrix,
    VMatrix,
    Vmatrix,
}

/// The name of the environment, as written in `\\begin{...}`.
pub open spec fn env_name(env: Env) -> Seq<char> {
    match env {
        Env::Array => "array"@,
        Env::Subarray => "subarray"@,
        Env::Align => "align"@,
        Env::AlignStar => "align*"@,
        Env::Aligned => "aligned"@,
        Env::Cases => "cases"@,
        Env::Matrix => "matrix"@,
        Env::BMatrix => "bmatrix"@,
        Env::Bmatrix => "Bmatrix"@,
        Env::PMatrix => "pmatrix"@,
        Env::VMatrix => "vmatrix"@,
        Env::Vmatrix => "Vmatrix"@,
    }
}

/// The environment with the name `s`, if there is one.
pub open spec fn env_from_name(s: Seq<char>) -> Option<Env> {
    if exists|env: Env| #[trigger] env_name(env) == s {
        Some(choose|env: Env| #[trigger] env_name(env) == s)
    } else {
        None
    }
}

/// No two environments have the same name.
pub proof fn lemma_env_names_distinct(a: Env, b: Env)
    ensures
        env_name(a) == env_name(b) ==> a == b,
{
    reveal_strlit("array");
    reveal_strlit("subarray");
    reveal_strlit("align");
    reveal_strlit("align*");
    reveal_strlit("aligned");
    reveal_strlit("cases");
    reveal_strlit("matrix");
    reveal_strlit("bmatrix");
    reveal_strlit("Bmatrix");
    reveal_strlit("pmatrix");
    reveal_strlit("vmatrix");
    reveal_strlit("Vmatrix");
    if env_name(a) == env_name(b) {
        let (x, y) = (env_name(a), env_name(b));
        assert(x.len() == y.len() && x[0] == y[0] && x[x.len() - 1] == y[y.len() - 1]);
    }
}

/// Looking up the name of an environment finds that environment.
pub proof fn lemma_env_name_roundtrip(env: Env)
    ensures
        env_from_name(env_name(env)) == Some(env),
{
    lemma_env_names_distinct(env, env_from_name(env_name(env)).unwrap());
}

impl Env {
    /// The environment called `s`, if there is one.
    pub fn from_str(s: &str) -> (r: Option<Self>)
        ensures
            r == env_from_name(s@),
    {
        let r = find_env(s);
        proof {
            if let Some(env) = r {
                lemma_env_names_distinct(env, env_from_name(s@).unwrap());
            }
        }
        r
    }

    /// The name of the environment.
    pub fn as_str(&self) -> (r: &'static str)
        ensures
            r@ == env_name(*self),
    {
        match self {
            Env::Array => "array",
            Env::Subarray => "subarray",
            Env::Align => "align",
            Env::AlignStar => "align*",
            Env::Aligned => "aligned",
            Env::Cases => "cases",
            Env::Matrix => "matrix",
            Env::BMatrix => "bmatrix",
            Env::Bmatrix => "Bmatrix",
            Env::PMatrix => "pmatrix",
            Env::VMatrix => "vmatrix",
            Env::Vmatrix => "Vmatrix",
        }
    }

    /// `array` and `subarray` take a column specification after `\\begin{...}`.
    pub fn needs_string_literal(&self) -> (r: bool)
        ensures
            r == (*self == Env::Array || *self == Env::Subarray),
    {
        matches!(self, Env::Array | Env::Subarray)
    }
}

fn find_env(s: &str) -> (r: Option<Env>)
    ensures
        match r {
            Some(env) => env_name(env) == s@,
            None => forall|env: Env| env_name(env) != s@,
        },
{
    if str_eq(s, "array") {
        return Some(Env::Array);
    }
    if str_eq(s, "subarray") {
        return Some(Env::Subarray);
    }
    if str_eq(s, "align") {
        return Some(Env::Align);
    }
    if str_eq(s, "align*") {
        return Some(Env::AlignStar);
    }
    if str_eq(s, "aligned") {
        return Some(Env::Aligned);
    }
    if str_eq(s, "cases") {
        return Some(Env::Cases);
    }
    if str_eq(s, "matrix") {
        return Some(Env::Matrix);
    }
    if str_eq(s, "bmatrix") {
        return Some(Env::BMatrix);
    }
    if str_eq(s, "Bmatrix") {
        return Some(Env::Bmatrix);
    }
    if str_eq(s, "pmatrix") {
        return Some(Env::PMatrix);
    }
    if str_eq(s, "vmatrix") {
        return Some(Env::VMatrix);
    }
    if str_eq(s, "Vmatrix") {
        return Some(Env::Vmatrix);
    }
    None
}

} // verus!
