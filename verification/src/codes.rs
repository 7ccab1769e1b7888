//! The one registry of diagnostic codes.
//!
//! Every checker emits a registered code, never a raw string of its own, so
//! two rules cannot come to share a number.
//!
//! ```text
//! PW00xx   lexical and syntax
//! PW01xx+  semantic invariants
//! PW50xx   placement, capability and unsafe boundaries
//! ```
use vstd::prelude::*;

use crate::text::str_eq;

verus! {

/// One diagnostic code, with everything the registry knows about it.
#[derive(Debug, Clone, Copy, PartialEq, Eq)]
pub struct Code {
    /// The stable public string, e.g. `"PW5002"`.
    pub id: &'static str,
    /// One sentence naming the invariant, in the developer's vocabulary.
    pub invariant: &'static str,
    /// Which analysis owns it. Metadata, never part of the public code.
    pub owner: Owner,
}

#[derive(Debug, Clone, Copy, PartialEq, Eq, Structural)]
pub enum Owner {
    Syntax,
    DeclarationRules,
    Exhaustiveness,
    ScopeGraph,
    Placement,
    Privacy,
    Markup,
}

/// Every registered code, in registration order: its id, its invariant and
/// its owner.
pub open spec fn registry() -> Seq<(Seq<char>, Seq<char>, Owner)> {
    seq![
        ("PW0001"@, "the parser expected a different token here"@, Owner::Syntax),
        ("PW0002"@, "a type argument list must be closed"@, Owner::Syntax),
        ("PW0003"@, "an effect row must be closed"@, Owner::Syntax),
        ("PW0004"@, "an effect row opens with `{`"@, Owner::Syntax),
        ("PW0005"@, "a parameter list must be closed"@, Owner::Syntax),
        ("PW0006"@, "a block must be closed"@, Owner::Syntax),
        ("PW0007"@, "this does not begin a declaration"@, Owner::Syntax),
        ("PW0008"@, "a parenthesis must be closed"@, Owner::Syntax),
        ("PW0009"@, "an expression was expected here"@, Owner::Syntax),
        ("PW0010"@, "an argument list must be closed"@, Owner::Syntax),
        ("PW0011"@, "a list literal must be closed"@, Owner::Syntax),
        ("PW0012"@, "a match must be closed"@, Owner::Syntax),
        ("PW0099"@, "the parser made no progress"@, Owner::Syntax),
        ("PW0312"@, "a command that retries must be idempotent"@, Owner::DeclarationRules),
        ("PW0313"@, "a retry policy must be bounded"@, Owner::DeclarationRules),
        ("PW0323"@, "a resource must declare how it is released"@, Owner::DeclarationRules),
        ("PW0325"@, "a keyed query must say what happens when its key changes"@, Owner::DeclarationRules),
        ("PW0327"@, "an optimistic transition must declare a rollback path"@, Owner::DeclarationRules),
        ("PW0200"@, "a shared cache should declare how it is invalidated"@, Owner::DeclarationRules),
        ("PW0305"@, "a match must cover every value its scrutinee can take"@, Owner::Exhaustiveness),
        ("PW2001"@, "a handle cannot outlive the scope that owns it"@, Owner::ScopeGraph),
        ("PW2002"@, "an ordinary task cannot be detached from its scope"@, Owner::ScopeGraph),
        ("PW2003"@, "a handle cannot be used after its owning scope has exited"@, Owner::ScopeGraph),
        ("PW2004"@, "a subscription cannot declare a scope that outlives its owner"@, Owner::ScopeGraph),
        ("PW5001"@, "a value that is not public cannot live in a shared cache"@, Owner::Privacy),
        ("PW5002"@, "every declaration must have somewhere it can run"@, Owner::Placement),
        ("PW5003"@, "a secret cannot be rendered to the browser"@, Owner::Privacy),
        ("PW5004"@, "a shared cache key must carry every partition its value depends on"@, Owner::Privacy),
        ("PW5010"@, "an unsafe escape hatch must carry a complete audit record"@, Owner::DeclarationRules),
        ("PW5015"@, "an escape hatch's attribution target must name a real owner"@, Owner::DeclarationRules),
        ("PW5011"@, "a list over a mutable collection needs a stable key"@, Owner::Markup),
        ("PW5012"@, "an element may only contain the children HTML permits"@, Owner::Markup),
        ("PW5013"@, "interactive behaviour belongs on an element that can receive it"@, Owner::Markup),
        ("PW5014"@, "a form control must have something that names it"@, Owner::Markup),
        // The id and the sentence of the unresolved-capability-argument code are
        // this library's own choice: the next free number in the capability
        // range.
        ("PW5016"@, "a capability's type argument must name something the program declares"@, Owner::DeclarationRules),
        // The ids and sentences of the four template and pattern codes below
        // are this library's own choice: the next free numbers in their
        // owners' ranges.
        ("PW5017"@, "a template block takes only the markers its kind allows"@, Owner::Markup),
        ("PW0306"@, "a pattern names only constructors its type has"@, Owner::Exhaustiveness),
        ("PW0307"@, "a constructor pattern binds all of its fields or none"@, Owner::Exhaustiveness),
        ("PW0308"@, "a value that may be absent is taken apart, not tested"@, Owner::Exhaustiveness),
    ]
}

/// The code a `Code` value carries, as the registry writes it.
pub open spec fn code_view(c: Code) -> (Seq<char>, Seq<char>, Owner) {
    (c.id@, c.invariant@, c.owner)
}

/// Every registered code. The registry's own source of truth.
pub fn all() -> (r: Vec<Code>)
    ensures
        r@.len() == registry().len(),
        forall|i: int| 0 <= i < r@.len() ==> code_view(#[trigger] r@[i]) == registry()[i],
{
    vec![
        Code { id: "PW0001", invariant: "the parser expected a different token here", owner: Owner::Syntax },
        Code { id: "PW0002", invariant: "a type argument list must be closed", owner: Owner::Syntax },
        Code { id: "PW0003", invariant: "an effect row must be closed", owner: Owner::Syntax },
        Code { id: "PW0004", invariant: "an effect row opens with `{`", owner: Owner::Syntax },
        Code { id: "PW0005", invariant: "a parameter list must be closed", owner: Owner::Syntax },
        Code { id: "PW0006", invariant: "a block must be closed", owner: Owner::Syntax },
        Code { id: "PW0007", invariant: "this does not begin a declaration", owner: Owner::Syntax },
        Code { id: "PW0008", invariant: "a parenthesis must be closed", owner: Owner::Syntax },
        Code { id: "PW0009", invariant: "an expression was expected here", owner: Owner::Syntax },
        Code { id: "PW0010", invariant: "an argument list must be closed", owner: Owner::Syntax },
        Code { id: "PW0011", invariant: "a list literal must be closed", owner: Owner::Syntax },
        Code { id: "PW0012", invariant: "a match must be closed", owner: Owner::Syntax },
        Code { id: "PW0099", invariant: "the parser made no progress", owner: Owner::Syntax },
        Code { id: "PW0312", invariant: "a command that retries must be idempotent", owner: Owner::DeclarationRules },
        Code { id: "PW0313", invariant: "a retry policy must be bounded", owner: Owner::DeclarationRules },
        Code { id: "PW0323", invariant: "a resource must declare how it is released", owner: Owner::DeclarationRules },
        Code { id: "PW0325", invariant: "a keyed query must say what happens when its key changes", owner: Owner::DeclarationRules },
        Code { id: "PW0327", invariant: "an optimistic transition must declare a rollback path", owner: Owner::DeclarationRules },
        Code { id: "PW0200", invariant: "a shared cache should declare how it is invalidated", owner: Owner::DeclarationRules },
        Code { id: "PW0305", invariant: "a match must cover every value its scrutinee can take", owner: Owner::Exhaustiveness },
        Code { id: "PW2001", invariant: "a handle cannot outlive the scope that owns it", owner: Owner::ScopeGraph },
        Code { id: "PW2002", invariant: "an ordinary task cannot be detached from its scope", owner: Owner::ScopeGraph },
        Code { id: "PW2003", invariant: "a handle cannot be used after its owning scope has exited", owner: Owner::ScopeGraph },
        Code { id: "PW2004", invariant: "a subscription cannot declare a scope that outlives its owner", owner: Owner::ScopeGraph },
        Code { id: "PW5001", invariant: "a value that is not public cannot live in a shared cache", owner: Owner::Privacy },
        Code { id: "PW5002", invariant: "every declaration must have somewhere it can run", owner: Owner::Placement },
        Code { id: "PW5003", invariant: "a secret cannot be rendered to the browser", owner: Owner::Privacy },
        Code { id: "PW5004", invariant: "a shared cache key must carry every partition its value depends on", owner: Owner::Privacy },
        Code { id: "PW5010", invariant: "an unsafe escape hatch must carry a complete audit record", owner: Owner::DeclarationRules },
        Code { id: "PW5015", invariant: "an escape hatch's attribution target must name a real owner", owner: Owner::DeclarationRules },
        Code { id: "PW5011", invariant: "a list over a mutable collection needs a stable key", owner: Owner::Markup },
        Code { id: "PW5012", invariant: "an element may only contain the children HTML permits", owner: Owner::Markup },
        Code { id: "PW5013", invariant: "interactive behaviour belongs on an element that can receive it", owner: Owner::Markup },
        Code { id: "PW5014", invariant: "a form control must have something that names it", owner: Owner::Markup },
        Code { id: "PW5016", invariant: "a capability's type argument must name something the program declares", owner: Owner::DeclarationRules },
        Code { id: "PW5017", invariant: "a template block takes only the markers its kind allows", owner: Owner::Markup },
        Code { id: "PW0306", invariant: "a pattern names only constructors its type has", owner: Owner::Exhaustiveness },
        Code { id: "PW0307", invariant: "a constructor pattern binds all of its fields or none", owner: Owner::Exhaustiveness },
        Code { id: "PW0308", invariant: "a value that may be absent is taken apart, not tested", owner: Owner::Exhaustiveness },
    ]
}

/// A capability's type argument names nothing the program declares.
pub fn unresolved_capability_argument() -> (r: Code)
    ensures
        code_view(r) == registry()[34],
{
    let codes = all();
    codes[34]
}

/// A template block holds a marker its kind does not take.
pub fn malformed_template_block() -> (r: Code)
    ensures
        code_view(r) == registry()[35],
{
    let codes = all();
    codes[35]
}

/// A pattern names a constructor its type lacks.
pub fn pattern_constructor() -> (r: Code)
    ensures
        code_view(r) == registry()[36],
{
    let codes = all();
    codes[36]
}

/// A constructor pattern binds some of its fields but not all.
pub fn constructor_arity() -> (r: Code)
    ensures
        code_view(r) == registry()[37],
{
    let codes = all();
    codes[37]
}

/// A value that may be absent is tested as if it were a truth value.
pub fn option_used_as_value() -> (r: Code)
    ensures
        code_view(r) == registry()[38],
{
    let codes = all();
    codes[38]
}

/// The non-exhaustive-match code.
pub fn non_exhaustive_match() -> (r: Code)
    ensures
        code_view(r) == registry()[19],
{
    let codes = all();
    codes[19]
}

/// An unsafe escape hatch lacks half of its audit record.
pub fn unsafe_audit_incomplete() -> (r: Code)
    ensures
        code_view(r) == registry()[28],
{
    let codes = all();
    codes[28]
}

/// An escape hatch is attributed to something that names no owner.
pub fn unsafe_attribution_invalid() -> (r: Code)
    ensures
        code_view(r) == registry()[29],
{
    let codes = all();
    codes[29]
}

/// Look a code up by its public string.
pub fn lookup(id: &str) -> (r: Option<Code>)
    ensures
        r is None <==> forall|i: int| 0 <= i < registry().len() ==> (#[trigger] registry()[i]).0 != id@,
        r matches Some(c) ==> c.id@ == id@ && exists|i: int|
            0 <= i < registry().len() && code_view(c) == #[trigger] registry()[i] && forall|k: int|
                0 <= k < i ==> (#[trigger] registry()[k]).0 != id@,
{
    let codes = all();
    let n: usize = codes.len();
    let mut i: usize = 0;
    while i < n
        invariant
            n == codes@.len(),
            n == registry().len(),
            i <= n,
            forall|k: int| 0 <= k < n ==> code_view(#[trigger] codes@[k]) == registry()[k],
            forall|k: int| 0 <= k < i ==> (#[trigger] registry()[k]).0 != id@,
        decreases n - i,
    {
        if str_eq(codes[i].id, id) {
            assert(code_view(codes@[i as int]) == registry()[i as int]);
            return Some(codes[i]);
        }
        i = i + 1;
    }
    None
}

/// The code range an owner's diagnostics must sit in, or empty when the
/// owner is semantic and may live anywhere at `PW01xx` or above.
pub open spec fn owner_range(o: Owner) -> Seq<char> {
    match o {
        Owner::Syntax => "PW00"@,
        Owner::Placement | Owner::Privacy | Owner::Markup => "PW50"@,
        _ => ""@,
    }
}

impl Owner {
    /// The code range this owner's diagnostics must sit in, or `""` when the
    /// owner is semantic and may live anywhere at `PW01xx` or above.
    ///
    /// Part of the registry's contract rather than a test helper: a new owner
    /// has to answer this question before it can register a code.
    pub fn range(self) -> (r: &'static str)
        ensures
            r@ == owner_range(self),
    {
        match self {
            Owner::Syntax => "PW00",
            Owner::Placement | Owner::Privacy | Owner::Markup => "PW50",
            _ => "",
        }
    }
}

/// The digits of a code, as a number: `PW5016` gives 5016.
pub open spec fn number(id: Seq<char>) -> int {
    (id[2] as int - '0' as int) * 1000 + (id[3] as int - '0' as int) * 100 + (id[4] as int - '0' as int) * 10
        + (id[5] as int - '0' as int)
}

/// **Every code is registered once, and sits in its owner's range**: two
/// rules never share a number, a syntax code is `PW00xx`, a placement,
/// privacy or markup code is `PW50xx`, and no semantic code sits in the
/// syntax range.
#[verifier::rlimit(100)]
pub proof fn every_code_is_unique_and_in_range()
    ensures
        forall|i: int, j: int| 0 <= i < j < registry().len() ==> #[trigger] registry()[i].0 != #[trigger] registry()[j].0,
        forall|i: int|
            0 <= i < registry().len() ==> {
                let (id, _, owner) = #[trigger] registry()[i];
                if owner_range(owner).len() == 0 {
                    !crate::text::has_prefix(id, "PW00"@)
                } else {
                    crate::text::has_prefix(id, owner_range(owner))
                }
            },
{
    reveal_strlit("PW0001");
    reveal_strlit("PW0002");
    reveal_strlit("PW0003");
    reveal_strlit("PW0004");
    reveal_strlit("PW0005");
    reveal_strlit("PW0006");
    reveal_strlit("PW0007");
    reveal_strlit("PW0008");
    reveal_strlit("PW0009");
    reveal_strlit("PW0010");
    reveal_strlit("PW0011");
    reveal_strlit("PW0012");
    reveal_strlit("PW0099");
    reveal_strlit("PW0312");
    reveal_strlit("PW0313");
    reveal_strlit("PW0323");
    reveal_strlit("PW0325");
    reveal_strlit("PW0327");
    reveal_strlit("PW0200");
    reveal_strlit("PW0305");
    reveal_strlit("PW2001");
    reveal_strlit("PW2002");
    reveal_strlit("PW2003");
    reveal_strlit("PW2004");
    reveal_strlit("PW5001");
    reveal_strlit("PW5002");
    reveal_strlit("PW5003");
    reveal_strlit("PW5004");
    reveal_strlit("PW5010");
    reveal_strlit("PW5015");
    reveal_strlit("PW5011");
    reveal_strlit("PW5012");
    reveal_strlit("PW5013");
    reveal_strlit("PW5014");
    reveal_strlit("PW5016");
    reveal_strlit("PW5017");
    reveal_strlit("PW0306");
    reveal_strlit("PW0307");
    reveal_strlit("PW0308");
    reveal_strlit("PW00");
    reveal_strlit("PW50");
    reveal_strlit("");
    let r = registry();
    assert forall|i: int| 0 <= i < r.len() implies r[i].0.len() == 6 && r[i].0[0] == 'P' && r[i].0[1] == 'W' by {}
    assert forall|i: int|
        0 <= i < r.len() implies {
            let (id, _, owner) = #[trigger] r[i];
            if owner_range(owner).len() == 0 {
                !crate::text::has_prefix(id, "PW00"@)
            } else {
                crate::text::has_prefix(id, owner_range(owner))
            }
        } by {
        let (id, _, owner) = r[i];
        let head = id.subrange(0, 4);
        assert(head[0] == id[0] && head[1] == id[1] && head[2] == id[2] && head[3] == id[3]);
        if owner_range(owner).len() != 0 {
            assert(head =~= owner_range(owner));
        } else if head == "PW00"@ {
            assert(head[2] == '0' && head[3] == '0');
        }
    }
    assert forall|i: int, j: int| 0 <= i < j < r.len() implies #[trigger] r[i].0 != #[trigger] r[j].0 by {
        if r[i].0 == r[j].0 {
            assert(number(r[i].0) == number(r[j].0));
        }
    }
}

} // verus!
