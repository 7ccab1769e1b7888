//! **Whether a function can become a core module, and the imports it
//! needs.** Before anything is encoded: the world must export the function
//! by the export's name, with as many parameters as the function has; the
//! function must have an entry block, and only one block; and each import it
//! calls must be a callable the program declares and one the world imports.
//! The imports come out in the order of first use, each once.
//!
//! What the world exports and imports is read from the world by the caller
//! and handed in as plain values.
use vstd::prelude::*;
use vstd::string::*;

use crate::backend::wasm::Encoding;
use crate::binding::{decimal, decimal_text};

verus! {

/// One import call of the function and of everything compiled beside it, in
/// order.
#[derive(Debug, Clone)]
pub struct ImportCall {
    /// Which callable it calls.
    pub id: usize,
    /// The callable as written, qualified by its interface.
    pub qualified: String,
    /// Whether the world imports that function.
    pub in_world: bool,
}

pub open spec fn ticked(x: Seq<char>) -> Seq<char> {
    "`"@ + x + "`"@
}

/// The imports the first `k` calls need, in order of first use, or why one
/// of them cannot be had.
pub open spec fn imports_upto(
    function: Seq<char>,
    world: Seq<char>,
    calls: Seq<ImportCall>,
    declared: Seq<usize>,
    k: int,
) -> Result<Seq<usize>, Seq<char>>
    decreases k,
{
    if k <= 0 {
        Ok(seq![])
    } else {
        match imports_upto(function, world, calls, declared, k - 1) {
            Err(why) => Err(why),
            Ok(used) => {
                let c = calls[k - 1];
                if used.contains(c.id) {
                    Ok(used)
                } else if !declared.contains(c.id) {
                    Err(ticked(function) + " calls "@ + ticked(c.qualified@) + " and the program declares no such callable"@)
                } else if !c.in_world {
                    Err(
                        ticked(function) + " calls "@ + ticked(c.qualified@) + " and the world "@ + ticked(world)
                            + " does not import it"@,
                    )
                } else {
                    Ok(used.push(c.id))
                }
            },
        }
    }
}

/// What planning gives: the imports, or why not, with the construct the
/// encoder does not represent when it is that.
pub open spec fn plan_spec(
    world: Seq<char>,
    export: Seq<char>,
    export_params: Option<usize>,
    function: Seq<char>,
    params: usize,
    has_entry: bool,
    blocks: usize,
    calls: Seq<ImportCall>,
    declared: Seq<usize>,
) -> Result<Seq<usize>, (Option<Seq<char>>, Seq<char>)> {
    match export_params {
        None => Err((None, "the world "@ + ticked(world) + " exports no function "@ + ticked(export))),
        Some(m) => if m != params {
            Err(
                (
                    None,
                    ticked(function) + " has "@ + decimal(params as nat) + " parameters and the world's "@ + ticked(
                        export,
                    ) + " has "@ + decimal(m as nat),
                ),
            )
        } else if !has_entry {
            Err((None, ticked(function) + " has no entry block"@))
        } else if blocks > 1 {
            Err(
                (
                    Some("a function with more than one block"@),
                    ticked(function) + " has "@ + decimal(blocks as nat)
                        + " blocks; the component backend encodes straight-line bodies"@,
                ),
            )
        } else {
            match imports_upto(function, world, calls, declared, calls.len() as int) {
                Ok(used) => Ok(used),
                Err(why) => Err((None, why)),
            }
        },
    }
}

/// `x` in backticks.
fn ticked_text(x: &str) -> (r: String)
    ensures
        r@ == ticked(x@),
{
    let mut s: String = String::from_str("`");
    s.append(x);
    s.append("`");
    s
}

/// Whether `x` is among `v`.
fn holds(v: &Vec<usize>, x: usize) -> (r: bool)
    ensures
        r == v@.contains(x),
{
    let n: usize = v.len();
    let mut i: usize = 0;
    while i < n
        invariant
            n == v@.len(),
            i <= n,
            forall|k: int| 0 <= k < i ==> v@[k] != x,
        decreases n - i,
    {
        if v[i] == x {
            assert(v@[i as int] == x);
            return true;
        }
        i = i + 1;
    }
    false
}

/// **Plan the core module of a function**: `world` and `export` name the
/// world and the export; `export_params` is the exported function's
/// parameter count, where the world exports one by that name; `function`,
/// `params`, `has_entry` and `blocks` describe the function; `calls` are its
/// import calls in order, and `declared` the callables the program
/// declares. Gives the imports to encode, in order of first use, or why the
/// module cannot be encoded.
pub fn module_plan(
    world: &str,
    export: &str,
    export_params: Option<usize>,
    function: &str,
    params: usize,
    has_entry: bool,
    blocks: usize,
    calls: &Vec<ImportCall>,
    declared: &Vec<usize>,
) -> (r: Encoding<Vec<usize>>)
    ensures
        match plan_spec(world@, export@, export_params, function@, params, has_entry, blocks, calls@, declared@) {
            Ok(used) => r matches Encoding::Encoded(v) && v@ == used,
            Err((Some(c), why)) => r matches Encoding::Unsupported { construct, reason } && construct@ == c
                && reason@ == why,
            Err((None, why)) => r matches Encoding::Blocked { why: w } && w@ == why,
        },
{
    let m: usize = match export_params {
        None => {
            let mut w: String = String::from_str("the world ");
            let t: String = ticked_text(world);
            w.append(t.as_str());
            w.append(" exports no function ");
            let e: String = ticked_text(export);
            w.append(e.as_str());
            return Encoding::Blocked { why: w };
        },
        Some(m) => m,
    };
    if m != params {
        let mut w: String = ticked_text(function);
        w.append(" has ");
        let p: String = decimal_text(params);
        w.append(p.as_str());
        w.append(" parameters and the world's ");
        let e: String = ticked_text(export);
        w.append(e.as_str());
        w.append(" has ");
        let q: String = decimal_text(m);
        w.append(q.as_str());
        return Encoding::Blocked { why: w };
    }
    if !has_entry {
        let mut w: String = ticked_text(function);
        w.append(" has no entry block");
        return Encoding::Blocked { why: w };
    }
    if blocks > 1 {
        let mut w: String = ticked_text(function);
        w.append(" has ");
        let b: String = decimal_text(blocks);
        w.append(b.as_str());
        w.append(" blocks; the component backend encodes straight-line bodies");
        return Encoding::Unsupported { construct: "a function with more than one block", reason: w };
    }
    let mut used: Vec<usize> = Vec::new();
    let n: usize = calls.len();
    let mut k: usize = 0;
    while k < n
        invariant
            n == calls@.len(),
            k <= n,
            imports_upto(function@, world@, calls@, declared@, k as int) == Ok::<Seq<usize>, Seq<char>>(used@),
            export_params == Some(m),
            m == params,
            has_entry,
            blocks <= 1,
        decreases n - k,
    {
        let c: &ImportCall = &calls[k];
        if !holds(&used, c.id) {
            if !holds(declared, c.id) {
                let mut w: String = ticked_text(function);
                w.append(" calls ");
                let q: String = ticked_text(c.qualified.as_str());
                w.append(q.as_str());
                w.append(" and the program declares no such callable");
                proof {
                    assert(calls@[k as int] == *c);
                    assert(imports_upto(function@, world@, calls@, declared@, k + 1) == Err::<Seq<usize>, Seq<char>>(w@));
                    lemma_error_stays(function@, world@, calls@, declared@, k + 1, n as int);
                    assert(imports_upto(function@, world@, calls@, declared@, calls@.len() as int) == Err::<Seq<usize>, Seq<char>>(w@));
                    assert(export_params == Some(m) && m == params && has_entry && blocks <= 1);
                    assert(plan_spec(world@, export@, export_params, function@, params, has_entry, blocks, calls@, declared@)
                        == Err::<Seq<usize>, (Option<Seq<char>>, Seq<char>)>((None, w@)));
                }
                return Encoding::Blocked { why: w };
            }
            if !c.in_world {
                let mut w: String = ticked_text(function);
                w.append(" calls ");
                let q: String = ticked_text(c.qualified.as_str());
                w.append(q.as_str());
                w.append(" and the world ");
                let t: String = ticked_text(world);
                w.append(t.as_str());
                w.append(" does not import it");
                proof {
                    assert(calls@[k as int] == *c);
                    assert(imports_upto(function@, world@, calls@, declared@, k + 1) == Err::<Seq<usize>, Seq<char>>(w@));
                    lemma_error_stays(function@, world@, calls@, declared@, k + 1, n as int);
                    assert(imports_upto(function@, world@, calls@, declared@, calls@.len() as int) == Err::<Seq<usize>, Seq<char>>(w@));
                    assert(export_params == Some(m) && m == params && has_entry && blocks <= 1);
                    assert(plan_spec(world@, export@, export_params, function@, params, has_entry, blocks, calls@, declared@)
                        == Err::<Seq<usize>, (Option<Seq<char>>, Seq<char>)>((None, w@)));
                }
                return Encoding::Blocked { why: w };
            }
            used.push(c.id);
        }
        k = k + 1;
    }
    Encoding::Encoded(used)
}

proof fn lemma_error_stays(
    function: Seq<char>,
    world: Seq<char>,
    calls: Seq<ImportCall>,
    declared: Seq<usize>,
    i: int,
    j: int,
)
    requires
        0 <= i <= j,
        imports_upto(function, world, calls, declared, i) is Err,
    ensures
        imports_upto(function, world, calls, declared, j) == imports_upto(function, world, calls, declared, i),
    decreases j - i,
{
    if i < j {
        lemma_error_stays(function, world, calls, declared, i, j - 1);
    }
}

} // verus!
