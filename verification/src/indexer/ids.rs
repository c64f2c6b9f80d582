//! Deterministic node ids.

use crate::text::{cat, decimal, to_decimal};
use vstd::prelude::*;
use vstd::string::StringExecFns;

verus! {

pub open spec fn file_id_of(path: Seq<char>) -> Seq<char> {
    "file:"@ + path
}

pub open spec fn symbol_id_of(path: Seq<char>, kind: Seq<char>, name: Seq<char>, start_line: u32) -> Seq<char> {
    "sym:"@ + path + "#"@ + kind + "#"@ + name + "#"@ + decimal(start_line as nat)
}

pub open spec fn project_id_of(path: Seq<char>) -> Seq<char> {
    "proj:"@ + path
}

pub open spec fn package_id_of(ecosystem: Seq<char>, name: Seq<char>) -> Seq<char> {
    "pkg:"@ + ecosystem + ":"@ + name
}

/// Deterministic id for a file from its repo-relative path.
pub fn file_id(path: &str) -> (r: String)
    ensures
        r@ == file_id_of(path@),
{
    cat("file:", path)
}

/// Deterministic id for a symbol.
pub fn symbol_id(path: &str, kind: &str, name: &str, start_line: u32) -> (r: String)
    ensures
        r@ == symbol_id_of(path@, kind@, name@, start_line),
{
    let mut out = cat("sym:", path);
    out.append("#");
    out.append(kind);
    out.append("#");
    out.append(name);
    out.append("#");
    let line = to_decimal(start_line as u64);
    out.append(line.as_str());
    out
}

/// Deterministic id for a project from its manifest path.
pub fn project_id(path: &str) -> (r: String)
    ensures
        r@ == project_id_of(path@),
{
    cat("proj:", path)
}

/// Deterministic id for a package from ecosystem + name.
pub fn package_id(ecosystem: &str, name: &str) -> (r: String)
    ensures
        r@ == package_id_of(ecosystem@, name@),
{
    let mut out = cat("pkg:", ecosystem);
    out.append(":");
    out.append(name);
    out
}

/// Files at different paths have different ids.
pub proof fn file_id_injective(a: Seq<char>, b: Seq<char>)
    requires
        file_id_of(a) == file_id_of(b),
    ensures
        a == b,
{
    let n = "file:"@.len() as int;
    assert(a =~= file_id_of(a).skip(n));
    assert(b =~= file_id_of(b).skip(n));
}

/// Manifests at different paths have different project ids.
pub proof fn project_id_injective(a: Seq<char>, b: Seq<char>)
    requires
        project_id_of(a) == project_id_of(b),
    ensures
        a == b,
{
    let n = "proj:"@.len() as int;
    assert(a =~= project_id_of(a).skip(n));
    assert(b =~= project_id_of(b).skip(n));
}

/// Packages of one ecosystem with different names have different ids.
pub proof fn package_id_injective(ecosystem: Seq<char>, a: Seq<char>, b: Seq<char>)
    requires
        package_id_of(ecosystem, a) == package_id_of(ecosystem, b),
    ensures
        a == b,
{
    let n = ("pkg:"@ + ecosystem + ":"@).len() as int;
    assert(a =~= package_id_of(ecosystem, a).skip(n));
    assert(b =~= package_id_of(ecosystem, b).skip(n));
}

} // verus!
