//! What the compiler hands the host about each component, and the audit of a
//! built artifact against it.
//!
//! The compiler decides what authority code needs; the host decides whether
//! that authority physically exists. The audit's rule is a subset:
//!
//! ```text
//! actual Wasm imports  ⊆  the contract's allowed imports
//! ```
//!
//! and it is fail-closed: anything not in the allowed set is undeclared.
use vstd::prelude::*;
use vstd::string::*;

use crate::binding::BindingSupport;
use crate::hir::DeclKind;
use crate::ordered::{
    dedup_seq, dedup_strings, lemma_lt_asymmetric, lemma_lt_irreflexive, lemma_lt_total, lemma_lt_transitive, sort_seq,
    sort_strings, views, NameSet,
};
use crate::text::{find_char, index_of, seq_lt, slice, str_eq, trim_end_char, trim_end_char_at};

verus! {

/// One capability a component needs, as the compiler derived it:
/// `database.read<Stores>` is the family `database`, the operation `read`
/// and the argument `Stores`.
#[derive(Debug, Clone, PartialEq, Eq, PartialOrd, Ord)]
pub struct Capability {
    /// `database`, `secret`, `dom`.
    pub family: String,
    /// `read`, `write`, `mutate`. Empty when the effect names only a family.
    pub operation: String,
    /// The type argument, where the effect carries one. Part of the
    /// capability's identity, not a decoration.
    pub argument: Option<String>,
}

/// A capability's parts, as text.
pub struct CapabilityView {
    pub family: Seq<char>,
    pub operation: Seq<char>,
    pub argument: Option<Seq<char>>,
}

impl View for Capability {
    type V = CapabilityView;

    open spec fn view(&self) -> CapabilityView {
        CapabilityView {
            family: self.family@,
            operation: self.operation@,
            argument: match self.argument {
                Some(a) => Some(a@),
                None => None,
            },
        }
    }
}

/// The version of the capability→representation mapping this build used.
/// Two contracts with different mapping versions are not comparable.
pub const CAPABILITY_MAPPING: u32 = 1;

/// Why an effect could not be turned into a capability.
#[derive(Debug, Clone, PartialEq, Eq)]
pub enum NotACapability {
    /// The effect is declared, and needs no host authority.
    Unrestricted { family: String },
    /// The type argument names nothing the program declares.
    UnknownArgument { family: String, argument: String },
    /// Nothing in the program declares this effect at all. Never to be read
    /// as "no restriction".
    Undeclared { effect: String },
}

/// What an effect's declaration says about itself: whether it needs host
/// authority, and which host interface serves it.
#[derive(Debug, Clone)]
pub struct EffectDeclaration {
    /// The capability the declaration requires, when it requires one.
    pub capability: Option<String>,
    /// The `host` clause: `"pw:host/database#read"`.
    pub host: Option<String>,
}

/// `effect` split as an effect row writes it: the family before the first
/// `.`, the operation after it, and the argument after the first `<` with
/// every trailing `>` removed.
pub open spec fn parse_spec(effect: Seq<char>) -> CapabilityView {
    let (head, argument) = match index_of(effect, '<') {
        Some(i) => (
            effect.subrange(0, i),
            Some(trim_end_char(effect.subrange(i + 1, effect.len() as int), '>')),
        ),
        None => (effect, None),
    };
    match index_of(head, '.') {
        Some(j) => CapabilityView {
            family: head.subrange(0, j),
            operation: head.subrange(j + 1, head.len() as int),
            argument,
        },
        None => CapabilityView { family: head, operation: Seq::empty(), argument },
    }
}

/// The canonical text of a capability, and the one an import names.
pub open spec fn name_spec(c: CapabilityView) -> Seq<char> {
    c.family + (if c.operation.len() == 0 {
        Seq::<char>::empty()
    } else {
        "."@ + c.operation
    }) + match c.argument {
        Some(a) => "<"@ + a + ">"@,
        None => Seq::<char>::empty(),
    }
}

/// What resolving an effect concludes.
pub enum Resolution {
    Capability(CapabilityView),
    Unrestricted(Seq<char>),
    UnknownArgument(Seq<char>, Seq<char>),
    Undeclared(Seq<char>),
}

/// An effect is resolved against its declaration, then its argument against
/// the names the program declares.
pub open spec fn resolve_spec(
    effect: Seq<char>,
    declared_types: Seq<Seq<char>>,
    declaration: Option<Option<Seq<char>>>,
) -> Resolution {
    let c = parse_spec(effect);
    match declaration {
        None => Resolution::Undeclared(effect),
        Some(None) => Resolution::Unrestricted(c.family),
        Some(Some(_)) => match c.argument {
            Some(a) => if declared_types.contains(a) {
                Resolution::Capability(c)
            } else {
                Resolution::UnknownArgument(c.family, a)
            },
            None => Resolution::Capability(c),
        },
    }
}

/// The view of a resolution's result.
pub open spec fn resolution_of(r: Result<Capability, NotACapability>) -> Resolution {
    match r {
        Ok(c) => Resolution::Capability(c@),
        Err(NotACapability::Unrestricted { family }) => Resolution::Unrestricted(family@),
        Err(NotACapability::UnknownArgument { family, argument }) => Resolution::UnknownArgument(
            family@,
            argument@,
        ),
        Err(NotACapability::Undeclared { effect }) => Resolution::Undeclared(effect@),
    }
}

/// The view of what an effect's declaration says about its capability.
pub open spec fn declaration_view(d: Option<&EffectDeclaration>) -> Option<Option<Seq<char>>> {
    match d {
        None => None,
        Some(decl) => Some(
            match decl.capability {
                Some(c) => Some(c@),
                None => None,
            },
        ),
    }
}

impl Capability {
    /// **Build a capability from an effect, against what the program
    /// declares.** `declaration` is what the program declares for this
    /// effect, when it declares anything.
    ///
    /// Whether an effect needs host authority is a declared fact: a declared
    /// effect with no capability is unrestricted, and an effect nothing
    /// declares is refused rather than read as unrestricted.
    pub fn resolve(effect: &str, declared_types: &NameSet, declaration: Option<&EffectDeclaration>) -> (r: Result<
        Capability,
        NotACapability,
    >)
        ensures
            resolution_of(r) == resolve_spec(effect@, declared_types@, declaration_view(declaration)),
    {
        let c = Capability::parse(effect);
        match declaration {
            Some(d) => {
                if d.capability.is_none() {
                    return Err(NotACapability::Unrestricted { family: c.family });
                }
            },
            None => {
                return Err(NotACapability::Undeclared { effect: String::from_str(effect) });
            },
        }
        match &c.argument {
            Some(a) => {
                if !declared_types.contains(a.as_str()) {
                    return Err(
                        NotACapability::UnknownArgument {
                            family: c.family.clone(),
                            argument: a.clone(),
                        },
                    );
                }
            },
            None => {},
        }
        Ok(c)
    }

    /// Parse `family.operation<Argument>` as an effect row writes it. A host
    /// reading a contract has only the canonical text and must be able to
    /// recover the parts.
    pub fn parse(effect: &str) -> (r: Capability)
        ensures
            r@ == parse_spec(effect@),
    {
        let n: usize = effect.unicode_len();
        let (head_end, argument) = match find_char(effect, '<') {
            Some(i) => {
                proof {
                    crate::text::lemma_index_of(effect@, '<');
                }
                let e: usize = trim_end_char_at(effect, i + 1, n, '>');
                (i, Some(slice(effect, i + 1, e)))
            },
            None => (n, None),
        };
        let head: String = slice(effect, 0, head_end);
        proof {
            if index_of(effect@, '<') is None {
                assert(effect@.subrange(0, n as int) =~= effect@);
            }
        }
        match find_char(head.as_str(), '.') {
            Some(j) => {
                proof {
                    crate::text::lemma_index_of(head@, '.');
                }
                let hn: usize = head.as_str().unicode_len();
                Capability {
                    family: slice(head.as_str(), 0, j),
                    operation: slice(head.as_str(), j + 1, hn),
                    argument,
                }
            },
            None => Capability { family: head, operation: String::new(), argument },
        }
    }

    /// The canonical text form, and the one an import names.
    pub fn name(&self) -> (r: String)
        ensures
            r@ == name_spec(self@),
    {
        let mut out: String = self.family.clone();
        if self.operation.as_str().unicode_len() != 0 {
            out.append(".");
            out.append(self.operation.as_str());
        }
        match &self.argument {
            Some(a) => {
                out.append("<");
                out.append(a.as_str());
                out.append(">");
            },
            None => {},
        }
        proof {
            assert(out@ =~= name_spec(self@));
        }
        out
    }
}

/// A host function this component is allowed to import, and what authorises it.
#[derive(Debug, Clone, PartialEq, Eq, PartialOrd, Ord)]
pub struct Import {
    /// The interface, in the Wasm component naming the host will use.
    pub interface: String,
    /// The function within it.
    pub name: String,
    /// Which required capability makes this import legitimate, for a host
    /// import only.
    pub capability: String,
    /// What kind of dependency this is.
    pub kind: ImportKind,
}

/// Where an import's implementation comes from, and therefore what
/// constrains it.
#[derive(Debug, Clone, Copy, Default, PartialEq, Eq, PartialOrd, Ord, Structural)]
pub enum ImportKind {
    /// Supplied by the host or environment, and constrained by the
    /// contract's required capabilities.
    #[default]
    HostCapability,
    /// An export of another application component, constrained by that
    /// component's own contract.
    Component,
}

/// The wire form the audit compares: `interface#name`.
pub open spec fn key_spec(interface: Seq<char>, name: Seq<char>) -> Seq<char> {
    interface + "#"@ + name
}

impl Import {
    /// The wire form the audit compares: `interface#name`.
    pub fn key(&self) -> (r: String)
        ensures
            r@ == key_spec(self.interface@, self.name@),
    {
        let mut out: String = self.interface.clone();
        out.append("#");
        out.append(self.name.as_str());
        out
    }
}

/// Something the component provides to the host.
#[derive(Debug, Clone, PartialEq, Eq, PartialOrd, Ord)]
pub struct Export {
    pub name: String,
    /// The declaration kind it came from: `query`, `command`, `page`.
    pub kind: String,
    /// How this edge may be bound. Remote capability is a property of an
    /// interface edge, not of a component.
    pub binding: BindingSupport,
}

/// **What the compiler tells the host about one component.**
#[derive(Debug, Clone, PartialEq, Eq)]
pub struct ComponentContract {
    /// The component's semantic identity: its module path.
    pub component_id: String,
    /// Which capability→representation mapping produced this contract.
    pub capability_mapping: u32,
    /// A hash over the component's interface: its exports, their kinds, its
    /// capabilities and its placements.
    pub abi_schema: String,
    pub required_capabilities: Vec<Capability>,
    /// The worlds that can satisfy this component. Empty means nowhere.
    pub allowed_placements: Vec<String>,
    pub imports: Vec<Import>,
    pub exports: Vec<Export>,
}

/// The mapping version a contract that predates the field was written
/// under.
pub fn default_mapping() -> (r: u32)
    ensures
        r == CAPABILITY_MAPPING,
{
    CAPABILITY_MAPPING
}

/// What an audit of a built artifact concluded.
#[derive(Debug, Clone, PartialEq, Eq)]
pub enum Audit {
    /// Every actual import is in the allowed set.
    Satisfied,
    /// At least one is not. Carries all of them, sorted, each once.
    Undeclared(Vec<String>),
}

impl Audit {
    pub fn is_satisfied(&self) -> (r: bool)
        ensures
            r == (self is Satisfied),
    {
        match self {
            Audit::Satisfied => true,
            _ => false,
        }
    }
}

/// The keys a contract allows.
pub open spec fn allowed_keys(imports: Seq<Import>) -> Seq<Seq<char>> {
    imports.map_values(|i: Import| key_spec(i.interface@, i.name@))
}

/// The actual imports that are not allowed, in the order they appear.
pub open spec fn not_allowed(actual: Seq<Seq<char>>, allowed: Seq<Seq<char>>) -> Seq<Seq<char>>
    decreases actual.len(),
{
    if actual.len() == 0 {
        seq![]
    } else {
        let rest = not_allowed(actual.drop_last(), allowed);
        if allowed.contains(actual.last()) {
            rest
        } else {
            rest.push(actual.last())
        }
    }
}

/// **The rule.** Actual imports ⊆ allowed imports. The undeclared ones are
/// reported sorted, each once.
pub fn audit(contract: &ComponentContract, actual: &[String]) -> (r: Audit)
    ensures
        ({
            let undeclared = dedup_seq(
                sort_seq(not_allowed(views(actual@), allowed_keys(contract.imports@))),
            );
            match r {
                Audit::Satisfied => undeclared.len() == 0,
                Audit::Undeclared(v) => undeclared.len() > 0 && views(v@) == undeclared,
            }
        }),
{
    let mut allowed: Vec<String> = Vec::new();
    let m: usize = contract.imports.len();
    let mut j: usize = 0;
    while j < m
        invariant
            m == contract.imports@.len(),
            j <= m,
            views(allowed@) == allowed_keys(contract.imports@.subrange(0, j as int)),
        decreases m - j,
    {
        let k: String = contract.imports[j].key();
        let ghost prev = allowed@;
        allowed.push(k);
        proof {
            assert(views(allowed@) =~= views(prev).push(k@));
            assert(allowed_keys(contract.imports@.subrange(0, j + 1)) =~= allowed_keys(
                contract.imports@.subrange(0, j as int),
            ).push(k@));
        }
        j = j + 1;
    }
    assert(contract.imports@.subrange(0, m as int) =~= contract.imports@);
    let ghost keys = views(allowed@);

    let mut undeclared: Vec<String> = Vec::new();
    let n: usize = actual.len();
    let mut i: usize = 0;
    while i < n
        invariant
            n == actual@.len(),
            i <= n,
            keys == views(allowed@),
            keys == allowed_keys(contract.imports@),
            views(undeclared@) == not_allowed(views(actual@.subrange(0, i as int)), keys),
        decreases n - i,
    {
        let ghost before = views(actual@.subrange(0, i as int));
        let ghost after = views(actual@.subrange(0, i + 1));
        proof {
            assert(after.drop_last() =~= before);
            assert(after.last() == actual@[i as int]@);
        }
        let mut found: bool = false;
        let mut k: usize = 0;
        while k < allowed.len()
            invariant
                k <= allowed@.len(),
                n == actual@.len(),
                i < n,
                keys == views(allowed@),
                found == exists|q: int| 0 <= q < k && keys[q] == actual@[i as int]@,
            decreases allowed@.len() - k,
        {
            if str_eq(allowed[k].as_str(), actual[i].as_str()) {
                assert(keys[k as int] == actual@[i as int]@);
                found = true;
            }
            k = k + 1;
        }
        proof {
            if found {
                let q = choose|q: int| 0 <= q < allowed@.len() && keys[q] == actual@[i as int]@;
                assert(keys.contains(actual@[i as int]@));
            } else {
                assert(!keys.contains(actual@[i as int]@));
            }
        }
        if !found {
            let ghost prev = undeclared@;
            undeclared.push(actual[i].clone());
            proof {
                assert(views(undeclared@) =~= views(prev).push(actual@[i as int]@));
            }
        }
        i = i + 1;
    }
    assert(actual@.subrange(0, n as int) =~= actual@);
    let undeclared: Vec<String> = dedup_strings(sort_strings(undeclared));
    if undeclared.len() == 0 {
        Audit::Satisfied
    } else {
        Audit::Undeclared(undeclared)
    }
}

// --- what a host runs, and what it is told ----------------------------------

/// The word a contract uses for a declaration a host runs. A type or an
/// import declaration has no authority to describe, and a plain `fn` is
/// compiled into its callers rather than instantiated on its own.
pub open spec fn component_kind_spec(kind: DeclKind) -> Option<Seq<char>> {
    match kind {
        DeclKind::Query => Some("query"@),
        DeclKind::Command => Some("command"@),
        DeclKind::Page => Some("page"@),
        DeclKind::Component => Some("component"@),
        _ => None,
    }
}

/// Is this declaration something a host runs, and under which word?
pub fn component_kind(kind: DeclKind) -> (r: Option<&'static str>)
    ensures
        match r {
            Some(s) => component_kind_spec(kind) == Some(s@),
            None => component_kind_spec(kind) is None,
        },
{
    match kind {
        DeclKind::Query => Some("query"),
        DeclKind::Command => Some("command"),
        DeclKind::Page => Some("page"),
        DeclKind::Component => Some("component"),
        _ => None,
    }
}

/// The host interface and function a capability is served by: from the
/// effect's `host` clause where its declaration writes one
/// (`interface#function`, or the whole clause and `use`), and otherwise by
/// convention, `pw:host/<family>` and the operation (`use` for a bare
/// family).
pub open spec fn interface_spec(c: CapabilityView, host: Option<Seq<char>>) -> (Seq<char>, Seq<char>) {
    match host {
        Some(h) => match index_of(h, '#') {
            Some(i) => (h.subrange(0, i), h.subrange(i + 1, h.len() as int)),
            None => (h, "use"@),
        },
        None => (
            "pw:host/"@ + c.family,
            if c.operation.len() == 0 {
                "use"@
            } else {
                c.operation
            },
        ),
    }
}

/// The `host` clause of an effect's declaration, when there is one.
pub open spec fn host_view(d: Option<&EffectDeclaration>) -> Option<Seq<char>> {
    match d {
        Some(decl) => match decl.host {
            Some(h) => Some(h@),
            None => None,
        },
        None => None,
    }
}

/// The host interface and function `capability` is served by.
/// `declaration` is what the program declares for the capability's effect,
/// when it declares anything.
pub fn interface_for(capability: &Capability, declaration: Option<&EffectDeclaration>) -> (r: (
    String,
    String,
))
    ensures
        (r.0@, r.1@) == interface_spec(capability@, host_view(declaration)),
{
    let host: Option<&String> = match declaration {
        Some(d) => match &d.host {
            Some(h) => Some(h),
            None => None,
        },
        None => None,
    };
    match host {
        Some(h) => {
            let hs: &str = h.as_str();
            match find_char(hs, '#') {
                Some(i) => {
                    proof {
                        crate::text::lemma_index_of(hs@, '#');
                    }
                    let n: usize = hs.unicode_len();
                    (slice(hs, 0, i), slice(hs, i + 1, n))
                },
                None => (h.clone(), String::from_str("use")),
            }
        },
        None => {
            let mut interface: String = String::from_str("pw:host/");
            interface.append(capability.family.as_str());
            let function: String = if capability.operation.as_str().unicode_len() == 0 {
                String::from_str("use")
            } else {
                capability.operation.clone()
            };
            (interface, function)
        },
    }
}

/// The FNV-1a offset basis, 64-bit.
pub const FNV_OFFSET: u64 = 0xcbf2_9ce4_8422_2325;

/// The FNV-1a prime, 64-bit.
pub const FNV_PRIME: u64 = 0x0000_0100_0000_01b3;

/// FNV-1a over `bytes`: from the offset basis, each byte XORed in and the
/// result multiplied by the prime, modulo 2^64.
pub open spec fn fnv1a(bytes: Seq<u8>) -> u64
    decreases bytes.len(),
{
    if bytes.len() == 0 {
        FNV_OFFSET
    } else {
        (fnv1a(bytes.drop_last()) ^ (bytes.last() as u64)).wrapping_mul(FNV_PRIME)
    }
}

/// A hexadecimal digit, lower case.
pub open spec fn hex_digit_text(d: nat) -> Seq<char> {
    if d == 0 {
        "0"@
    } else if d == 1 {
        "1"@
    } else if d == 2 {
        "2"@
    } else if d == 3 {
        "3"@
    } else if d == 4 {
        "4"@
    } else if d == 5 {
        "5"@
    } else if d == 6 {
        "6"@
    } else if d == 7 {
        "7"@
    } else if d == 8 {
        "8"@
    } else if d == 9 {
        "9"@
    } else if d == 10 {
        "a"@
    } else if d == 11 {
        "b"@
    } else if d == 12 {
        "c"@
    } else if d == 13 {
        "d"@
    } else if d == 14 {
        "e"@
    } else {
        "f"@
    }
}

/// The last `width` hexadecimal digits of `x`, zero-padded.
pub open spec fn hex(x: nat, width: nat) -> Seq<char>
    decreases width,
{
    if width == 0 {
        seq![]
    } else {
        hex(x / 16, (width - 1) as nat) + hex_digit_text(x % 16)
    }
}

fn hex_digit(d: u64) -> (r: &'static str)
    requires
        d < 16,
    ensures
        r@ == hex_digit_text(d as nat),
{
    if d == 0 {
        "0"
    } else if d == 1 {
        "1"
    } else if d == 2 {
        "2"
    } else if d == 3 {
        "3"
    } else if d == 4 {
        "4"
    } else if d == 5 {
        "5"
    } else if d == 6 {
        "6"
    } else if d == 7 {
        "7"
    } else if d == 8 {
        "8"
    } else if d == 9 {
        "9"
    } else if d == 10 {
        "a"
    } else if d == 11 {
        "b"
    } else if d == 12 {
        "c"
    } else if d == 13 {
        "d"
    } else if d == 14 {
        "e"
    } else {
        "f"
    }
}

/// The last `width` hexadecimal digits of `x`, zero-padded.
fn hex_text(x: u64, width: usize) -> (r: String)
    ensures
        r@ == hex(x as nat, width as nat),
    decreases width,
{
    if width == 0 {
        String::new()
    } else {
        let mut s: String = hex_text(x / 16, width - 1);
        s.append(hex_digit(x % 16));
        s
    }
}

/// A content hash: FNV-1a over the text's UTF-8 bytes, as sixteen
/// lower-case hexadecimal digits.
pub fn hash(content: &str) -> (r: String)
    ensures
        r@ == hex(fnv1a(content.spec_bytes()) as nat, 16),
{
    let bytes: &[u8] = content.as_bytes();
    let n: usize = bytes.len();
    let mut h: u64 = FNV_OFFSET;
    let mut i: usize = 0;
    while i < n
        invariant
            n == bytes@.len(),
            bytes@ == content.spec_bytes(),
            i <= n,
            h == fnv1a(bytes@.subrange(0, i as int)),
        decreases n - i,
    {
        proof {
            let next = bytes@.subrange(0, i + 1);
            assert(next.drop_last() =~= bytes@.subrange(0, i as int));
            assert(next.last() == bytes@[i as int]);
        }
        h = (h ^ (bytes[i] as u64)).wrapping_mul(FNV_PRIME);
        i = i + 1;
    }
    assert(bytes@.subrange(0, n as int) =~= bytes@);
    hex_text(h, 16)
}

/// Each export as the schema text writes it: `|kind:name`.
pub open spec fn export_parts(es: Seq<Export>) -> Seq<char>
    decreases es.len(),
{
    if es.len() == 0 {
        seq![]
    } else {
        export_parts(es.drop_last()) + ("|"@ + es.last().kind@ + ":"@ + es.last().name@)
    }
}

/// Each capability as the schema text writes it: `|cap:name`.
pub open spec fn capability_parts(cs: Seq<Capability>) -> Seq<char>
    decreases cs.len(),
{
    if cs.len() == 0 {
        seq![]
    } else {
        capability_parts(cs.drop_last()) + ("|cap:"@ + name_spec(cs.last()@))
    }
}

/// Each placement as the schema text writes it: `|at:world`.
pub open spec fn placement_parts(ps: Seq<String>) -> Seq<char>
    decreases ps.len(),
{
    if ps.len() == 0 {
        seq![]
    } else {
        placement_parts(ps.drop_last()) + ("|at:"@ + ps.last()@)
    }
}

/// The text a component's schema hash is taken over: its module, then its
/// exports, its capabilities and its placements, in order.
pub open spec fn schema_text(
    module: Seq<char>,
    exports: Seq<Export>,
    capabilities: Seq<Capability>,
    placements: Seq<String>,
) -> Seq<char> {
    module + export_parts(exports) + capability_parts(capabilities) + placement_parts(placements)
}

/// **A hash over the interface, and over nothing else**: the exports and
/// their kinds, the capabilities and the placements. Not the bodies: a
/// component whose implementation changed but whose authority and interface
/// did not is the same contract.
pub fn schema_of(
    module: &str,
    exports: &[Export],
    capabilities: &[Capability],
    placements: &[String],
) -> (r: String)
    ensures
        r@ == hex(
            fnv1a(vstd::utf8::encode_utf8(schema_text(module@, exports@, capabilities@, placements@))) as nat,
            16,
        ),
{
    let mut text: String = String::from_str(module);
    let mut i: usize = 0;
    while i < exports.len()
        invariant
            i <= exports@.len(),
            text@ == module@ + export_parts(exports@.subrange(0, i as int)),
        decreases exports@.len() - i,
    {
        let ghost before = text@;
        text.append("|");
        text.append(exports[i].kind.as_str());
        text.append(":");
        text.append(exports[i].name.as_str());
        proof {
            let s = exports@.subrange(0, i + 1);
            assert(s.drop_last() =~= exports@.subrange(0, i as int));
            assert(text@ =~= before + ("|"@ + s.last().kind@ + ":"@ + s.last().name@));
        }
        i = i + 1;
    }
    assert(exports@.subrange(0, exports@.len() as int) =~= exports@);
    let ghost after_exports = text@;
    let mut j: usize = 0;
    while j < capabilities.len()
        invariant
            j <= capabilities@.len(),
            text@ == after_exports + capability_parts(capabilities@.subrange(0, j as int)),
        decreases capabilities@.len() - j,
    {
        let ghost before = text@;
        let name: String = capabilities[j].name();
        text.append("|cap:");
        text.append(name.as_str());
        proof {
            let s = capabilities@.subrange(0, j + 1);
            assert(s.drop_last() =~= capabilities@.subrange(0, j as int));
            assert(text@ =~= before + ("|cap:"@ + name_spec(s.last()@)));
        }
        j = j + 1;
    }
    assert(capabilities@.subrange(0, capabilities@.len() as int) =~= capabilities@);
    let ghost after_capabilities = text@;
    let mut k: usize = 0;
    while k < placements.len()
        invariant
            k <= placements@.len(),
            text@ == after_capabilities + placement_parts(placements@.subrange(0, k as int)),
        decreases placements@.len() - k,
    {
        let ghost before = text@;
        text.append("|at:");
        text.append(placements[k].as_str());
        proof {
            let s = placements@.subrange(0, k + 1);
            assert(s.drop_last() =~= placements@.subrange(0, k as int));
            assert(text@ =~= before + ("|at:"@ + s.last()@));
        }
        k = k + 1;
    }
    assert(placements@.subrange(0, placements@.len() as int) =~= placements@);
    hash(text.as_str())
}

// --- the laws of the contract --------------------------------------------------

/// The head of a capability's canonical text: its family and, when it has
/// one, its operation.
pub open spec fn head_text(c: CapabilityView) -> Seq<char> {
    c.family + (if c.operation.len() == 0 {
        Seq::<char>::empty()
    } else {
        "."@ + c.operation
    })
}

/// **A host can recover a capability from its canonical text.** Parsing
/// what `name` writes gives back the family, the operation and the
/// argument, for every capability whose family holds no `.` or `<`, whose
/// operation holds no `<`, and whose argument does not end in `>`.
pub proof fn parse_recovers_name(c: CapabilityView)
    requires
        !c.family.contains('.'),
        !c.family.contains('<'),
        !c.operation.contains('<'),
        c.argument matches Some(a) ==> a.len() == 0 || a.last() != '>',
    ensures
        parse_spec(name_spec(c)) == c,
{
    reveal_strlit(".");
    reveal_strlit("<");
    reveal_strlit(">");
    let h = head_text(c);
    let e = name_spec(c);
    let tail = if c.operation.len() == 0 {
        Seq::<char>::empty()
    } else {
        "."@ + c.operation
    };
    assert(h == c.family + tail);
    // The head holds no `<`.
    assert(!tail.contains('<')) by {
        if tail.contains('<') {
            let k = choose|k: int| 0 <= k < tail.len() && tail[k] == '<';
            if k > 0 {
                assert(c.operation[k - 1] == '<');
            }
        }
    }
    assert(!h.contains('<')) by {
        if h.contains('<') {
            let k = choose|k: int| 0 <= k < h.len() && h[k] == '<';
            if k < c.family.len() {
                assert(c.family[k] == '<');
            } else {
                assert(tail[k - c.family.len()] == '<');
            }
        }
    }
    // The head splits at its first `.` exactly where the operation starts.
    crate::text::lemma_index_of_append(c.family, tail, '.');
    if c.operation.len() > 0 {
        assert(tail[0] == '.');
        assert(index_of(tail, '.') == Some(0int));
        assert(h.subrange(0, c.family.len() as int) =~= c.family);
        assert(h.subrange(c.family.len() + 1int, h.len() as int) =~= c.operation);
    } else {
        assert(tail.len() == 0);
        assert(index_of(tail, '.') is None);
        assert(h =~= c.family);
    }
    match c.argument {
        Some(a) => {
            let rest = "<"@ + a + ">"@;
            assert(e =~= h + rest);
            assert(rest[0] == '<');
            assert(index_of(rest, '<') == Some(0int));
            crate::text::lemma_index_of_append(h, rest, '<');
            assert(e.subrange(0, h.len() as int) =~= h);
            let after = e.subrange(h.len() + 1int, e.len() as int);
            assert(after =~= a.push('>'));
            assert(after.drop_last() =~= a);
            assert(trim_end_char(after, '>') == trim_end_char(a, '>'));
            assert(trim_end_char(a, '>') == a);
            assert(index_of(e, '<') == Some(h.len() as int));
            let p = parse_spec(e);
            assert(p.argument == Some(a));
            assert(p.family == c.family);
            assert(p.operation == c.operation);
            assert(p.argument == c.argument);
            assert(p == c);
        },
        None => {
            assert(e =~= h);
            crate::text::lemma_index_of(h, '<');
            if index_of(h, '<') is Some {
                let i = index_of(h, '<')->0;
                assert(h[i] == '<');
            }
            assert(index_of(e, '<') is None);
            let p = parse_spec(e);
            assert(p.family == c.family);
            assert(p.operation == c.operation);
            assert(p.argument == c.argument);
        },
    }
}

proof fn lemma_not_allowed_contains(actual: Seq<Seq<char>>, allowed: Seq<Seq<char>>)
    ensures
        forall|x: Seq<char>|
            #[trigger] not_allowed(actual, allowed).contains(x) <==> actual.contains(x) && !allowed.contains(x),
    decreases actual.len(),
{
    if actual.len() > 0 {
        let init = actual.drop_last();
        lemma_not_allowed_contains(init, allowed);
        let r = not_allowed(init, allowed);
        assert forall|x: Seq<char>|
            #[trigger] not_allowed(actual, allowed).contains(x) <==> actual.contains(x) && !allowed.contains(x) by {
            assert(actual.contains(x) <==> init.contains(x) || x == actual.last()) by {
                if actual.contains(x) {
                    let k = choose|k: int| 0 <= k < actual.len() && actual[k] == x;
                    if k < actual.len() - 1 {
                        assert(init[k] == x);
                    }
                }
                if init.contains(x) {
                    let k = choose|k: int| 0 <= k < init.len() && init[k] == x;
                    assert(actual[k] == x);
                }
            }
            if !allowed.contains(actual.last()) {
                assert(r.push(actual.last()).contains(x) <==> r.contains(x) || x == actual.last()) by {
                    if r.push(actual.last()).contains(x) {
                        let k = choose|k: int| 0 <= k < r.len() + 1 && r.push(actual.last())[k] == x;
                        if k < r.len() {
                            assert(r[k] == x);
                        }
                    }
                    if r.contains(x) {
                        let k = choose|k: int| 0 <= k < r.len() && r[k] == x;
                        assert(r.push(actual.last())[k] == x);
                    }
                    if x == actual.last() {
                        assert(r.push(actual.last())[r.len() as int] == x);
                    }
                }
            }
        }
    }
}

/// **The audit is fail-closed.** What it reports undeclared is exactly the
/// actual imports the contract does not allow, sorted, each once; so it is
/// satisfied exactly when every actual import is one the contract allows.
pub proof fn the_audit_is_fail_closed(actual: Seq<Seq<char>>, imports: Seq<Import>)
    ensures
        ({
            let undeclared = dedup_seq(sort_seq(not_allowed(actual, allowed_keys(imports))));
            &&& forall|x: Seq<char>|
                #[trigger] undeclared.contains(x) <==> actual.contains(x) && !allowed_keys(imports).contains(x)
            &&& undeclared.len() == 0 <==> forall|k: int|
                0 <= k < actual.len() ==> allowed_keys(imports).contains(#[trigger] actual[k])
            &&& crate::ordered::strictly_sorted(undeclared)
        }),
{
    let allowed = allowed_keys(imports);
    let na = not_allowed(actual, allowed);
    let undeclared = dedup_seq(sort_seq(na));
    lemma_not_allowed_contains(actual, allowed);
    crate::ordered::lemma_sort_seq_contains(na);
    crate::ordered::lemma_sort_seq_sorted(na);
    crate::ordered::lemma_dedup_sorted_strict(sort_seq(na));
    crate::ordered::lemma_dedup_contains(sort_seq(na));
    assert forall|x: Seq<char>| #[trigger] undeclared.contains(x) <==> actual.contains(x) && !allowed.contains(x) by {
        assert(undeclared.contains(x) <==> sort_seq(na).contains(x));
        assert(sort_seq(na).contains(x) <==> na.contains(x));
        assert(na.contains(x) <==> actual.contains(x) && !allowed.contains(x));
    }
    if undeclared.len() == 0 {
        assert forall|k: int| 0 <= k < actual.len() implies allowed.contains(#[trigger] actual[k]) by {
            assert(actual.contains(actual[k]));
            if !allowed.contains(actual[k]) {
                assert(undeclared.contains(actual[k]));
            }
        }
    } else {
        let x = undeclared[0];
        assert(undeclared.contains(x));
        assert(actual.contains(x) && !allowed.contains(x));
        let k = choose|k: int| 0 <= k < actual.len() && actual[k] == x;
        assert(!allowed.contains(actual[k]));
    }
}

// --- the order a contract lists capabilities and imports in ---------------------

/// An absent argument sorts first; present ones by their text.
pub open spec fn opt_lt(a: Option<Seq<char>>, b: Option<Seq<char>>) -> bool {
    match (a, b) {
        (None, Some(_)) => true,
        (Some(x), Some(y)) => seq_lt(x, y),
        _ => false,
    }
}

/// Capabilities in order: by family, then operation, then argument.
pub open spec fn cap_lt(a: CapabilityView, b: CapabilityView) -> bool {
    seq_lt(a.family, b.family) || (a.family == b.family && (seq_lt(a.operation, b.operation) || (
    a.operation == b.operation && opt_lt(a.argument, b.argument))))
}

proof fn lemma_seq_order(a: Seq<char>, b: Seq<char>, c: Seq<char>)
    ensures
        !seq_lt(a, a),
        seq_lt(a, b) ==> !seq_lt(b, a),
        seq_lt(a, b) && seq_lt(b, c) ==> seq_lt(a, c),
        a != b ==> seq_lt(a, b) || seq_lt(b, a),
{
    lemma_lt_irreflexive(a);
    lemma_lt_asymmetric(a, b);
    lemma_lt_transitive(a, b, c);
    lemma_lt_total(a, b);
}

proof fn lemma_opt_order(a: Option<Seq<char>>, b: Option<Seq<char>>, c: Option<Seq<char>>)
    ensures
        !opt_lt(a, a),
        opt_lt(a, b) ==> !opt_lt(b, a),
        opt_lt(a, b) && opt_lt(b, c) ==> opt_lt(a, c),
        a != b ==> opt_lt(a, b) || opt_lt(b, a),
{
    match (a, b, c) {
        (Some(x), Some(y), Some(z)) => lemma_seq_order(x, y, z),
        (Some(x), Some(y), None) => lemma_seq_order(x, y, x),
        (Some(x), None, _) => lemma_seq_order(x, x, x),
        (None, Some(y), _) => lemma_seq_order(y, y, y),
        _ => {},
    }
}

/// The capability order is a strict total order.
pub proof fn lemma_cap_order(a: CapabilityView, b: CapabilityView, c: CapabilityView)
    ensures
        !cap_lt(a, a),
        cap_lt(a, b) ==> !cap_lt(b, a),
        cap_lt(a, b) && cap_lt(b, c) ==> cap_lt(a, c),
        a != b ==> cap_lt(a, b) || cap_lt(b, a),
{
    lemma_seq_order(a.family, b.family, c.family);
    lemma_seq_order(a.operation, b.operation, c.operation);
    lemma_opt_order(a.argument, b.argument, c.argument);
    lemma_seq_order(b.family, a.family, c.family);
    lemma_seq_order(a.family, c.family, b.family);
    lemma_seq_order(b.operation, a.operation, c.operation);
    lemma_seq_order(a.operation, c.operation, b.operation);
    if a.family == b.family && a.operation == b.operation && a.argument == b.argument {
        assert(a == b);
    }
}

/// Each capability, as text.
pub open spec fn capability_views(v: Seq<Capability>) -> Seq<CapabilityView> {
    v.map_values(|c: Capability| c@)
}

/// In strictly increasing capability order, so each occurs once.
pub open spec fn caps_ordered(s: Seq<CapabilityView>) -> bool {
    forall|i: int, j: int| 0 <= i < j < s.len() ==> cap_lt(#[trigger] s[i], #[trigger] s[j])
}

fn opt_str_lt(a: &Option<String>, b: &Option<String>) -> (r: bool)
    ensures
        r == opt_lt(
            match a {
                Some(x) => Some(x@),
                None => None,
            },
            match b {
                Some(x) => Some(x@),
                None => None,
            },
        ),
{
    match (a, b) {
        (None, Some(_)) => true,
        (Some(x), Some(y)) => crate::text::str_lt(x.as_str(), y.as_str()),
        _ => false,
    }
}

fn opt_str_eq(a: &Option<String>, b: &Option<String>) -> (r: bool)
    ensures
        r == (match a {
            Some(x) => Some(x@),
            None => None::<Seq<char>>,
        } == match b {
            Some(x) => Some(x@),
            None => None::<Seq<char>>,
        }),
{
    match (a, b) {
        (None, None) => true,
        (Some(x), Some(y)) => str_eq(x.as_str(), y.as_str()),
        _ => false,
    }
}

fn capability_lt(a: &Capability, b: &Capability) -> (r: bool)
    ensures
        r == cap_lt(a@, b@),
{
    if crate::text::str_lt(a.family.as_str(), b.family.as_str()) {
        return true;
    }
    if !str_eq(a.family.as_str(), b.family.as_str()) {
        return false;
    }
    if crate::text::str_lt(a.operation.as_str(), b.operation.as_str()) {
        return true;
    }
    if !str_eq(a.operation.as_str(), b.operation.as_str()) {
        return false;
    }
    opt_str_lt(&a.argument, &b.argument)
}

fn capability_eq(a: &Capability, b: &Capability) -> (r: bool)
    ensures
        r == (a@ == b@),
{
    str_eq(a.family.as_str(), b.family.as_str()) && str_eq(a.operation.as_str(), b.operation.as_str())
        && opt_str_eq(&a.argument, &b.argument)
}

/// Add `c` to a set of capabilities kept in order, unless it is there.
fn insert_capability(v: &mut Vec<Capability>, c: Capability)
    requires
        caps_ordered(capability_views(old(v)@)),
    ensures
        caps_ordered(capability_views(final(v)@)),
        forall|x: CapabilityView|
            #[trigger] capability_views(final(v)@).contains(x) <==> capability_views(old(v)@).contains(x) || x
                == c@,
{
    let ghost old_v = capability_views(v@);
    let n: usize = v.len();
    let mut p: usize = 0;
    while p < n && capability_lt(&v[p], &c)
        invariant
            n == v@.len(),
            p <= n,
            old_v == capability_views(v@),
            forall|k: int| 0 <= k < p ==> cap_lt(#[trigger] old_v[k], c@),
        decreases n - p,
    {
        p = p + 1;
    }
    if p < n && capability_eq(&v[p], &c) {
        proof {
            assert(old_v[p as int] == c@);
            assert forall|x: CapabilityView| old_v.contains(x) || x == c@ implies old_v.contains(x) by {
                if x == c@ {
                    assert(old_v[p as int] == x);
                }
            }
        }
        return;
    }
    proof {
        if p < n {
            lemma_cap_order(old_v[p as int], c@, c@);
            assert(cap_lt(c@, old_v[p as int]));
        }
    }
    let ghost cv = c@;
    v.insert(p, c);
    proof {
        let nv = capability_views(v@);
        assert(nv =~= old_v.insert(p as int, cv));
        assert forall|i: int, j: int| 0 <= i < j < nv.len() implies cap_lt(#[trigger] nv[i], #[trigger] nv[j]) by {
            if j < p {
                assert(nv[i] == old_v[i] && nv[j] == old_v[j]);
            } else if j == p {
                assert(nv[i] == old_v[i]);
            } else if i < p {
                assert(nv[i] == old_v[i] && nv[j] == old_v[j - 1]);
                assert(cap_lt(old_v[i], cv));
                assert(p < n);
                if j - 1 > p {
                    assert(cap_lt(old_v[p as int], old_v[j - 1]));
                    lemma_cap_order(cv, old_v[p as int], old_v[j - 1]);
                }
                lemma_cap_order(old_v[i], cv, old_v[j - 1]);
            } else if i == p {
                assert(nv[j] == old_v[j - 1]);
                if j - 1 > p {
                    assert(cap_lt(old_v[p as int], old_v[j - 1]));
                    lemma_cap_order(cv, old_v[p as int], old_v[j - 1]);
                }
            } else {
                assert(nv[i] == old_v[i - 1] && nv[j] == old_v[j - 1]);
            }
        }
        assert forall|x: CapabilityView| #[trigger] nv.contains(x) <==> old_v.contains(x) || x == cv by {
            if nv.contains(x) {
                let k = choose|k: int| 0 <= k < nv.len() && nv[k] == x;
                if k < p {
                    assert(old_v[k] == x);
                } else if k > p {
                    assert(old_v[k - 1] == x);
                }
            }
            if old_v.contains(x) {
                let k = choose|k: int| 0 <= k < old_v.len() && old_v[k] == x;
                if k < p {
                    assert(nv[k] == x);
                } else {
                    assert(nv[k + 1] == x);
                }
            }
            if x == cv {
                assert(nv[p as int] == x);
            }
        }
    }
}

/// An import, as text.
pub struct ImportView {
    pub interface: Seq<char>,
    pub name: Seq<char>,
    pub capability: Seq<char>,
    pub kind: ImportKind,
}

impl View for Import {
    type V = ImportView;

    open spec fn view(&self) -> ImportView {
        ImportView {
            interface: self.interface@,
            name: self.name@,
            capability: self.capability@,
            kind: self.kind,
        }
    }
}

/// A host capability sorts before a component dependency.
pub open spec fn kind_lt(a: ImportKind, b: ImportKind) -> bool {
    a == ImportKind::HostCapability && b == ImportKind::Component
}

/// Imports in order: by interface, then name, then capability, then kind.
pub open spec fn import_lt(a: ImportView, b: ImportView) -> bool {
    seq_lt(a.interface, b.interface) || (a.interface == b.interface && (seq_lt(a.name, b.name) || (a.name
        == b.name && (seq_lt(a.capability, b.capability) || (a.capability == b.capability && kind_lt(
        a.kind,
        b.kind,
    ))))))
}

/// The import order is a strict total order.
pub proof fn lemma_import_order(a: ImportView, b: ImportView, c: ImportView)
    ensures
        !import_lt(a, a),
        import_lt(a, b) ==> !import_lt(b, a),
        import_lt(a, b) && import_lt(b, c) ==> import_lt(a, c),
        a != b ==> import_lt(a, b) || import_lt(b, a),
{
    lemma_seq_order(a.interface, b.interface, c.interface);
    lemma_seq_order(b.interface, a.interface, c.interface);
    lemma_seq_order(a.interface, c.interface, b.interface);
    lemma_seq_order(a.name, b.name, c.name);
    lemma_seq_order(b.name, a.name, c.name);
    lemma_seq_order(a.name, c.name, b.name);
    lemma_seq_order(a.capability, b.capability, c.capability);
    lemma_seq_order(b.capability, a.capability, c.capability);
    lemma_seq_order(a.capability, c.capability, b.capability);
    if a.interface == b.interface && a.name == b.name && a.capability == b.capability && a.kind == b.kind {
        assert(a == b);
    }
}

/// Each import, as text.
pub open spec fn import_views(v: Seq<Import>) -> Seq<ImportView> {
    v.map_values(|i: Import| i@)
}

/// In strictly increasing import order, so each occurs once.
pub open spec fn imports_ordered(s: Seq<ImportView>) -> bool {
    forall|i: int, j: int| 0 <= i < j < s.len() ==> import_lt(#[trigger] s[i], #[trigger] s[j])
}

fn import_lt_exec(a: &Import, b: &Import) -> (r: bool)
    ensures
        r == import_lt(a@, b@),
{
    if crate::text::str_lt(a.interface.as_str(), b.interface.as_str()) {
        return true;
    }
    if !str_eq(a.interface.as_str(), b.interface.as_str()) {
        return false;
    }
    if crate::text::str_lt(a.name.as_str(), b.name.as_str()) {
        return true;
    }
    if !str_eq(a.name.as_str(), b.name.as_str()) {
        return false;
    }
    if crate::text::str_lt(a.capability.as_str(), b.capability.as_str()) {
        return true;
    }
    if !str_eq(a.capability.as_str(), b.capability.as_str()) {
        return false;
    }
    a.kind == ImportKind::HostCapability && b.kind == ImportKind::Component
}

fn import_eq(a: &Import, b: &Import) -> (r: bool)
    ensures
        r == (a@ == b@),
{
    str_eq(a.interface.as_str(), b.interface.as_str()) && str_eq(a.name.as_str(), b.name.as_str()) && str_eq(
        a.capability.as_str(),
        b.capability.as_str(),
    ) && a.kind == b.kind
}

/// The same import, as a new value.
fn copy_import(i: &Import) -> (r: Import)
    ensures
        r@ == i@,
{
    Import { interface: i.interface.clone(), name: i.name.clone(), capability: i.capability.clone(), kind: i.kind }
}

/// Add `x` to a set of imports kept in order, unless it is there.
fn insert_import(v: &mut Vec<Import>, x: Import)
    requires
        imports_ordered(import_views(old(v)@)),
    ensures
        imports_ordered(import_views(final(v)@)),
        forall|y: ImportView|
            #[trigger] import_views(final(v)@).contains(y) <==> import_views(old(v)@).contains(y) || y == x@,
{
    let ghost old_v = import_views(v@);
    let n: usize = v.len();
    let mut p: usize = 0;
    while p < n && import_lt_exec(&v[p], &x)
        invariant
            n == v@.len(),
            p <= n,
            old_v == import_views(v@),
            forall|k: int| 0 <= k < p ==> import_lt(#[trigger] old_v[k], x@),
        decreases n - p,
    {
        p = p + 1;
    }
    if p < n && import_eq(&v[p], &x) {
        proof {
            assert(old_v[p as int] == x@);
            assert forall|y: ImportView| old_v.contains(y) || y == x@ implies old_v.contains(y) by {
                if y == x@ {
                    assert(old_v[p as int] == y);
                }
            }
        }
        return;
    }
    proof {
        if p < n {
            lemma_import_order(old_v[p as int], x@, x@);
            assert(import_lt(x@, old_v[p as int]));
        }
    }
    let ghost xv = x@;
    v.insert(p, x);
    proof {
        let nv = import_views(v@);
        assert(nv =~= old_v.insert(p as int, xv));
        assert forall|i: int, j: int| 0 <= i < j < nv.len() implies import_lt(#[trigger] nv[i], #[trigger] nv[j]) by {
            if j < p {
                assert(nv[i] == old_v[i] && nv[j] == old_v[j]);
            } else if j == p {
                assert(nv[i] == old_v[i]);
            } else if i < p {
                assert(nv[i] == old_v[i] && nv[j] == old_v[j - 1]);
                if j - 1 > p {
                    assert(import_lt(old_v[p as int], old_v[j - 1]));
                    lemma_import_order(xv, old_v[p as int], old_v[j - 1]);
                }
                lemma_import_order(old_v[i], xv, old_v[j - 1]);
            } else if i == p {
                assert(nv[j] == old_v[j - 1]);
                if j - 1 > p {
                    assert(import_lt(old_v[p as int], old_v[j - 1]));
                    lemma_import_order(xv, old_v[p as int], old_v[j - 1]);
                }
            } else {
                assert(nv[i] == old_v[i - 1] && nv[j] == old_v[j - 1]);
            }
        }
        assert forall|y: ImportView| #[trigger] nv.contains(y) <==> old_v.contains(y) || y == xv by {
            if nv.contains(y) {
                let k = choose|k: int| 0 <= k < nv.len() && nv[k] == y;
                if k < p {
                    assert(old_v[k] == y);
                } else if k > p {
                    assert(old_v[k - 1] == y);
                }
            }
            if old_v.contains(y) {
                let k = choose|k: int| 0 <= k < old_v.len() && old_v[k] == y;
                if k < p {
                    assert(nv[k] == y);
                } else {
                    assert(nv[k + 1] == y);
                }
            }
            if y == xv {
                assert(nv[p as int] == y);
            }
        }
    }
}

// --- one component's contract ----------------------------------------------------

/// The capability an effect leaves behind. Every effect keeps its
/// capability but an unrestricted one: an argument that names nothing, or
/// an effect nothing declares, keeps it too, parsed as written, because
/// dropping it would remove authority the program asked for.
pub open spec fn kept_capability(
    effect: Seq<char>,
    declared_types: Seq<Seq<char>>,
    declaration: Option<Option<Seq<char>>>,
) -> Option<CapabilityView> {
    match resolve_spec(effect, declared_types, declaration) {
        Resolution::Capability(c) => Some(c),
        Resolution::Unrestricted(_) => None,
        _ => Some(parse_spec(effect)),
    }
}

/// **Only an unrestricted effect leaves no capability behind**, and what an
/// effect leaves is its capability as written: an argument that names
/// nothing, or an effect nothing declares, never silently drops authority.
pub proof fn only_an_unrestricted_effect_leaves_no_capability(
    effect: Seq<char>,
    declared_types: Seq<Seq<char>>,
    declaration: Option<Option<Seq<char>>>,
)
    ensures
        kept_capability(effect, declared_types, declaration) is None <==> declaration == Some(
            None::<Seq<char>>,
        ),
        kept_capability(effect, declared_types, declaration) matches Some(c) ==> c == parse_spec(effect),
{
}

/// What the program declares for an effect, as `resolve` reads it.
pub open spec fn owned_declaration_view(d: Option<EffectDeclaration>) -> Option<Option<Seq<char>>> {
    match d {
        None => None,
        Some(decl) => Some(
            match decl.capability {
                Some(c) => Some(c@),
                None => None,
            },
        ),
    }
}

/// Whether some effect of a component keeps the capability `x`.
pub open spec fn keeps(
    effects: Seq<(String, Option<EffectDeclaration>)>,
    declared_types: Seq<Seq<char>>,
    x: CapabilityView,
) -> bool {
    exists|k: int|
        0 <= k < effects.len() && #[trigger] kept_capability(
            effects[k].0@,
            declared_types,
            owned_declaration_view(effects[k].1),
        ) == Some(x)
}

/// The `host` clause of the first declaration the table holds for `name`.
pub open spec fn host_for(table: Seq<(String, EffectDeclaration)>, name: Seq<char>) -> Option<Seq<char>>
    decreases table.len(),
{
    if table.len() == 0 {
        None
    } else if table[0].0@ == name {
        match table[0].1.host {
            Some(h) => Some(h@),
            None => None,
        }
    } else {
        host_for(table.drop_first(), name)
    }
}

/// The host import a capability is served by.
pub open spec fn host_import(c: CapabilityView, table: Seq<(String, EffectDeclaration)>) -> ImportView {
    let (interface, function) = interface_spec(c, host_for(table, name_spec(c)));
    ImportView { interface, name: function, capability: name_spec(c), kind: ImportKind::HostCapability }
}

/// The first declaration the table holds for `name`.
fn declared_for<'a>(table: &'a [(String, EffectDeclaration)], name: &str) -> (r: Option<&'a EffectDeclaration>)
    ensures
        host_view(r) == host_for(table@, name@),
{
    let n: usize = table.len();
    let mut i: usize = 0;
    assert(table@.subrange(0, n as int) =~= table@);
    while i < n
        invariant
            n == table@.len(),
            i <= n,
            host_for(table@, name@) == host_for(table@.subrange(i as int, n as int), name@),
        decreases n - i,
    {
        proof {
            let t = table@.subrange(i as int, n as int);
            assert(t[0] == table@[i as int]);
            assert(t.drop_first() =~= table@.subrange(i + 1, n as int));
        }
        if str_eq(table[i].0.as_str(), name) {
            return Some(&table[i].1);
        }
        i = i + 1;
    }
    None
}

/// **One component's contract**, from what the program says about it:
/// `effects` are the effects it performs, each with what the program
/// declares for it, outside its resumable handlers; `declared_for` is what
/// the program declares for each capability, by its canonical text;
/// `allowed_placements` are the worlds that can satisfy it; `dependencies`
/// the other components its body calls.
///
/// Its capabilities and its imports are each kept in order, each once. A
/// host capability and a component dependency share the import list and
/// never its class: a page that calls a privileged query depends on it and
/// does not acquire its authority.
pub fn component_contract(
    component_id: &str,
    kind: &str,
    name: &str,
    effects: &[(String, Option<EffectDeclaration>)],
    declared_types: &NameSet,
    declared_for_capability: &[(String, EffectDeclaration)],
    allowed_placements: Vec<String>,
    dependencies: &[Import],
    binding: BindingSupport,
) -> (r: ComponentContract)
    ensures
        r.component_id@ == component_id@,
        r.capability_mapping == CAPABILITY_MAPPING,
        caps_ordered(capability_views(r.required_capabilities@)),
        forall|x: CapabilityView|
            #[trigger] capability_views(r.required_capabilities@).contains(x) <==> keeps(
                effects@,
                declared_types@,
                x,
            ),
        r.allowed_placements@ == allowed_placements@,
        imports_ordered(import_views(r.imports@)),
        forall|y: ImportView|
            #[trigger] import_views(r.imports@).contains(y) <==> (exists|k: int|
                0 <= k < r.required_capabilities@.len() && y == host_import(
                    #[trigger] r.required_capabilities@[k]@,
                    declared_for_capability@,
                )) || import_views(dependencies@).contains(y),
        r.exports@.len() == 1,
        r.exports@[0].name@ == name@,
        r.exports@[0].kind@ == kind@,
        r.exports@[0].binding == binding,
        r.abi_schema@ == hex(
            fnv1a(
                vstd::utf8::encode_utf8(
                    schema_text(component_id@, r.exports@, r.required_capabilities@, r.allowed_placements@),
                ),
            ) as nat,
            16,
        ),
{
    let mut capabilities: Vec<Capability> = Vec::new();
    let n: usize = effects.len();
    let mut i: usize = 0;
    while i < n
        invariant
            n == effects@.len(),
            i <= n,
            caps_ordered(capability_views(capabilities@)),
            forall|x: CapabilityView|
                #[trigger] capability_views(capabilities@).contains(x) <==> keeps(
                    effects@.subrange(0, i as int),
                    declared_types@,
                    x,
                ),
        decreases n - i,
    {
        let ghost before = capabilities@;
        let effect: &str = effects[i].0.as_str();
        let declaration: Option<&EffectDeclaration> = effects[i].1.as_ref();
        proof {
            assert(declaration_view(declaration) == owned_declaration_view(effects@[i as int].1));
        }
        let kept: Option<Capability> = match Capability::resolve(effect, declared_types, declaration) {
            Ok(c) => Some(c),
            Err(NotACapability::Unrestricted { .. }) => None,
            Err(NotACapability::UnknownArgument { .. }) => Some(Capability::parse(effect)),
            Err(NotACapability::Undeclared { .. }) => Some(Capability::parse(effect)),
        };
        let ghost kv = kept_capability(effects@[i as int].0@, declared_types@, owned_declaration_view(effects@[i as int].1));
        proof {
            match &kept {
                Some(c) => assert(kv == Some(c@)),
                None => assert(kv is None),
            }
        }
        match kept {
            Some(c) => insert_capability(&mut capabilities, c),
            None => {},
        }
        proof {
            let pre = effects@.subrange(0, i as int);
            let post = effects@.subrange(0, i + 1);
            assert forall|x: CapabilityView|
                #[trigger] capability_views(capabilities@).contains(x) <==> keeps(post, declared_types@, x) by {
                if keeps(post, declared_types@, x) {
                    let k = choose|k: int|
                        0 <= k < post.len() && #[trigger] kept_capability(
                            post[k].0@,
                            declared_types@,
                            owned_declaration_view(post[k].1),
                        ) == Some(x);
                    if k < i {
                        assert(post[k] == pre[k]);
                        assert(keeps(pre, declared_types@, x));
                    } else {
                        assert(post[k] == effects@[i as int]);
                    }
                }
                if keeps(pre, declared_types@, x) {
                    let k = choose|k: int|
                        0 <= k < pre.len() && #[trigger] kept_capability(
                            pre[k].0@,
                            declared_types@,
                            owned_declaration_view(pre[k].1),
                        ) == Some(x);
                    assert(post[k] == pre[k]);
                }
                if kv == Some(x) {
                    assert(post[i as int] == effects@[i as int]);
                    assert(keeps(post, declared_types@, x));
                }
            }
        }
        i = i + 1;
    }
    assert(effects@.subrange(0, n as int) =~= effects@);

    let mut imports: Vec<Import> = Vec::new();
    let m: usize = capabilities.len();
    let mut j: usize = 0;
    while j < m
        invariant
            m == capabilities@.len(),
            j <= m,
            imports_ordered(import_views(imports@)),
            forall|y: ImportView|
                #[trigger] import_views(imports@).contains(y) <==> exists|k: int|
                    0 <= k < j && y == host_import(#[trigger] capabilities@[k]@, declared_for_capability@),
        decreases m - j,
    {
        let c: &Capability = &capabilities[j];
        let key: String = c.name();
        let (interface, function) = interface_for(c, declared_for(declared_for_capability, key.as_str()));
        let ghost before = import_views(imports@);
        let import = Import { interface, name: function, capability: key, kind: ImportKind::HostCapability };
        assert(import@ == host_import(capabilities@[j as int]@, declared_for_capability@));
        insert_import(&mut imports, import);
        proof {
            assert forall|y: ImportView|
                #[trigger] import_views(imports@).contains(y) <==> exists|k: int|
                    0 <= k < j + 1 && y == host_import(#[trigger] capabilities@[k]@, declared_for_capability@) by {
                if exists|k: int| 0 <= k < j + 1 && y == host_import(#[trigger] capabilities@[k]@, declared_for_capability@) {
                    let k = choose|k: int|
                        0 <= k < j + 1 && y == host_import(#[trigger] capabilities@[k]@, declared_for_capability@);
                    if k < j {
                        assert(before.contains(y));
                    }
                }
            }
        }
        j = j + 1;
    }
    let ghost host_imports = import_views(imports@);
    let d: usize = dependencies.len();
    let mut q: usize = 0;
    while q < d
        invariant
            d == dependencies@.len(),
            q <= d,
            imports_ordered(import_views(imports@)),
            forall|y: ImportView|
                #[trigger] import_views(imports@).contains(y) <==> host_imports.contains(y) || import_views(
                    dependencies@.subrange(0, q as int),
                ).contains(y),
        decreases d - q,
    {
        let ghost before = import_views(imports@);
        let dep: Import = copy_import(&dependencies[q]);
        insert_import(&mut imports, dep);
        proof {
            let pre = import_views(dependencies@.subrange(0, q as int));
            let post = import_views(dependencies@.subrange(0, q + 1));
            assert(post =~= pre.push(dependencies@[q as int]@));
            assert forall|y: ImportView| #[trigger] post.contains(y) <==> pre.contains(y) || y == dependencies@[q as int]@ by {
                if post.contains(y) {
                    let k = choose|k: int| 0 <= k < post.len() && post[k] == y;
                    if k < q {
                        assert(pre[k] == y);
                    }
                }
                if pre.contains(y) {
                    let k = choose|k: int| 0 <= k < pre.len() && pre[k] == y;
                    assert(post[k] == y);
                }
                if y == dependencies@[q as int]@ {
                    assert(post[q as int] == y);
                }
            }
        }
        q = q + 1;
    }
    proof {
        assert(dependencies@.subrange(0, d as int) =~= dependencies@);
    }
    let exports: Vec<Export> = vec![Export { name: String::from_str(name), kind: String::from_str(kind), binding }];
    let abi_schema: String = schema_of(component_id, exports.as_slice(), capabilities.as_slice(), allowed_placements.as_slice());
    ComponentContract {
        component_id: String::from_str(component_id),
        capability_mapping: CAPABILITY_MAPPING,
        abi_schema,
        required_capabilities: capabilities,
        allowed_placements,
        imports,
        exports,
    }
}

} // verus!
