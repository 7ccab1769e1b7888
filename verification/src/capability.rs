//! Capability compliance is checked against the final artifact: what a
//! component declares, against what the built component actually requests.
use vstd::prelude::*;
use vstd::string::*;

use crate::codes::{registry, unresolved_capability_argument};
use crate::diagnostics::{copy_span, Detector, Diagnostic, Related, Repair, Severity, Span};
use crate::hir::{Decl, DeclKind, Hir};
use crate::ordered::{set_insert, sort_seq, sort_strings, strictly_sorted, views, NameSet};
use crate::text::{
    chars_of, find_char, has_prefix, index_of, slice, starts_with, str_eq, trim, trim_bounds,
    trim_end_char, trim_end_char_at,
};

verus! {

/// What a component is permitted to import, and under which runtime profile.
#[derive(Debug, Clone, PartialEq, Eq)]
pub struct CapabilityManifest {
    pub component: String,
    /// Interfaces the compiler derived from the program's effects.
    pub declared: Vec<String>,
    pub profile: RuntimeProfile,
}

/// Ambient authority is denied by default. A richer runtime is allowed but
/// must be chosen explicitly, never inherited by accident.
#[derive(Debug, Clone, Copy, PartialEq, Eq, Structural)]
pub enum RuntimeProfile {
    /// Only declared interfaces may appear.
    Minimal,
    /// The component may additionally import the WASI CLI surface.
    WasiCli,
}

/// The interface prefixes a profile tolerates beyond the declared set.
pub open spec fn profile_allowance(p: RuntimeProfile) -> Seq<Seq<char>> {
    match p {
        RuntimeProfile::Minimal => seq![],
        RuntimeProfile::WasiCli => seq![
            "wasi:cli/"@,
            "wasi:clocks/"@,
            "wasi:io/"@,
            "wasi:random/"@,
            "wasi:filesystem/"@,
        ],
    }
}

pub open spec fn profile_name(p: RuntimeProfile) -> Seq<char> {
    match p {
        RuntimeProfile::Minimal => "minimal"@,
        RuntimeProfile::WasiCli => "wasi-cli"@,
    }
}

impl RuntimeProfile {
    /// Interfaces this profile tolerates beyond the declared set.
    fn allowance(self) -> (r: Vec<&'static str>)
        ensures
            r@.len() == profile_allowance(self).len(),
            forall|i: int| 0 <= i < r@.len() ==> #[trigger] r@[i]@ == profile_allowance(self)[i],
    {
        match self {
            RuntimeProfile::Minimal => vec![],
            RuntimeProfile::WasiCli => vec![
                "wasi:cli/",
                "wasi:clocks/",
                "wasi:io/",
                "wasi:random/",
                "wasi:filesystem/",
            ],
        }
    }

    pub fn name(self) -> (r: &'static str)
        ensures
            r@ == profile_name(self),
    {
        match self {
            RuntimeProfile::Minimal => "minimal",
            RuntimeProfile::WasiCli => "wasi-cli",
        }
    }
}

#[derive(Debug, Clone, PartialEq, Eq)]
pub struct CapabilityAudit {
    pub component: String,
    pub profile: RuntimeProfile,
    /// Declared and actually imported. The intended case.
    pub satisfied: Vec<String>,
    /// Imported but never declared: a build failure.
    pub undeclared: Vec<String>,
    /// Declared but not imported. Not an error, but worth surfacing.
    pub unused: Vec<String>,
    /// Undeclared, but tolerated by the chosen profile.
    pub allowed_by_profile: Vec<String>,
}

impl CapabilityAudit {
    pub fn is_compliant(&self) -> (r: bool)
        ensures
            r == (self.undeclared@.len() == 0),
    {
        self.undeclared.len() == 0
    }
}

/// An import is covered by a declared interface when it is that interface or
/// begins with it.
pub open spec fn covered_by(import: Seq<char>, declared: Seq<char>) -> bool {
    import == declared || has_prefix(import, declared)
}

pub open spec fn matches_declared(import: Seq<char>, declared: Seq<Seq<char>>) -> bool {
    exists|k: int| 0 <= k < declared.len() && covered_by(import, #[trigger] declared[k])
}

pub open spec fn allowed_by(import: Seq<char>, p: RuntimeProfile) -> bool {
    exists|k: int|
        0 <= k < profile_allowance(p).len() && has_prefix(import, #[trigger] profile_allowance(p)[k])
}

/// Where one actual import lands in an audit.
pub enum ImportClass {
    Satisfied,
    AllowedByProfile,
    Undeclared,
}

pub open spec fn classify(import: Seq<char>, declared: Seq<Seq<char>>, p: RuntimeProfile) -> ImportClass {
    if matches_declared(import, declared) {
        ImportClass::Satisfied
    } else if allowed_by(import, p) {
        ImportClass::AllowedByProfile
    } else {
        ImportClass::Undeclared
    }
}

/// The imports of `actual` that land in `class`, in the order they appear.
pub open spec fn of_class(
    actual: Seq<Seq<char>>,
    declared: Seq<Seq<char>>,
    p: RuntimeProfile,
    class: ImportClass,
) -> Seq<Seq<char>>
    decreases actual.len(),
{
    if actual.len() == 0 {
        seq![]
    } else {
        let rest = of_class(actual.drop_last(), declared, p, class);
        if classify(actual.last(), declared, p) == class {
            rest.push(actual.last())
        } else {
            rest
        }
    }
}

/// The declared interfaces no actual import is covered by, in declared order.
pub open spec fn unused_of(declared: Seq<Seq<char>>, actual: Seq<Seq<char>>) -> Seq<Seq<char>>
    decreases declared.len(),
{
    if declared.len() == 0 {
        seq![]
    } else {
        let rest = unused_of(declared.drop_last(), actual);
        if exists|k: int| 0 <= k < actual.len() && covered_by(#[trigger] actual[k], declared.last()) {
            rest
        } else {
            rest.push(declared.last())
        }
    }
}

fn covers(import: &str, declared: &str) -> (r: bool)
    ensures
        r == covered_by(import@, declared@),
{
    str_eq(import, declared) || starts_with(import, declared)
}

fn matches_any_declared(import: &str, declared: &Vec<String>) -> (r: bool)
    ensures
        r == matches_declared(import@, views(declared@)),
{
    let n: usize = declared.len();
    let mut k: usize = 0;
    while k < n
        invariant
            n == declared@.len(),
            k <= n,
            forall|j: int| 0 <= j < k ==> !covered_by(import@, #[trigger] views(declared@)[j]),
        decreases n - k,
    {
        if covers(import, declared[k].as_str()) {
            assert(covered_by(import@, views(declared@)[k as int]));
            return true;
        }
        k = k + 1;
    }
    false
}

fn allowed(import: &str, p: RuntimeProfile) -> (r: bool)
    ensures
        r == allowed_by(import@, p),
{
    let prefixes: Vec<&'static str> = p.allowance();
    let n: usize = prefixes.len();
    let mut k: usize = 0;
    while k < n
        invariant
            n == prefixes@.len(),
            n == profile_allowance(p).len(),
            forall|i: int| 0 <= i < n ==> #[trigger] prefixes@[i]@ == profile_allowance(p)[i],
            k <= n,
            forall|j: int| 0 <= j < k ==> !has_prefix(import@, #[trigger] profile_allowance(p)[j]),
        decreases n - k,
    {
        if starts_with(import, prefixes[k]) {
            assert(has_prefix(import@, profile_allowance(p)[k as int]));
            return true;
        }
        k = k + 1;
    }
    false
}

/// Compare what a component *declares* against what the built artifact
/// *requests*. `actual` comes from the compiled component, never from source.
pub fn audit(manifest: &CapabilityManifest, actual: &[String]) -> (r: CapabilityAudit)
    ensures
        r.component@ == manifest.component@,
        r.profile == manifest.profile,
        views(r.satisfied@) == sort_seq(
            of_class(views(actual@), views(manifest.declared@), manifest.profile, ImportClass::Satisfied),
        ),
        views(r.allowed_by_profile@) == sort_seq(
            of_class(
                views(actual@),
                views(manifest.declared@),
                manifest.profile,
                ImportClass::AllowedByProfile,
            ),
        ),
        views(r.undeclared@) == sort_seq(
            of_class(views(actual@), views(manifest.declared@), manifest.profile, ImportClass::Undeclared),
        ),
        views(r.unused@) == unused_of(views(manifest.declared@), views(actual@)),
{
    let ghost d = views(manifest.declared@);
    let ghost p = manifest.profile;
    let mut satisfied: Vec<String> = Vec::new();
    let mut undeclared: Vec<String> = Vec::new();
    let mut allowed_by_profile: Vec<String> = Vec::new();
    let n: usize = actual.len();
    let mut i: usize = 0;
    while i < n
        invariant
            n == actual@.len(),
            i <= n,
            d == views(manifest.declared@),
            p == manifest.profile,
            views(satisfied@) == of_class(views(actual@.subrange(0, i as int)), d, p, ImportClass::Satisfied),
            views(allowed_by_profile@) == of_class(
                views(actual@.subrange(0, i as int)),
                d,
                p,
                ImportClass::AllowedByProfile,
            ),
            views(undeclared@) == of_class(views(actual@.subrange(0, i as int)), d, p, ImportClass::Undeclared),
        decreases n - i,
    {
        let ghost before = views(actual@.subrange(0, i as int));
        let ghost after = views(actual@.subrange(0, i + 1));
        proof {
            assert(after.drop_last() =~= before);
            assert(after.last() == actual@[i as int]@);
        }
        let import: &String = &actual[i];
        if matches_any_declared(import.as_str(), &manifest.declared) {
            satisfied.push(import.clone());
            proof {
                assert(views(satisfied@) =~= views(satisfied@.drop_last()).push(import@));
            }
        } else if allowed(import.as_str(), manifest.profile) {
            allowed_by_profile.push(import.clone());
            proof {
                assert(views(allowed_by_profile@) =~= views(allowed_by_profile@.drop_last()).push(import@));
            }
        } else {
            undeclared.push(import.clone());
            proof {
                assert(views(undeclared@) =~= views(undeclared@.drop_last()).push(import@));
            }
        }
        i = i + 1;
    }
    assert(actual@.subrange(0, n as int) =~= actual@);

    let mut unused: Vec<String> = Vec::new();
    let m: usize = manifest.declared.len();
    let mut j: usize = 0;
    while j < m
        invariant
            m == manifest.declared@.len(),
            n == actual@.len(),
            j <= m,
            d == views(manifest.declared@),
            views(unused@) == unused_of(views(manifest.declared@.subrange(0, j as int)), views(actual@)),
        decreases m - j,
    {
        let ghost before = views(manifest.declared@.subrange(0, j as int));
        let ghost after = views(manifest.declared@.subrange(0, j + 1));
        proof {
            assert(after.drop_last() =~= before);
            assert(after.last() == manifest.declared@[j as int]@);
        }
        let dj: &String = &manifest.declared[j];
        let mut found: bool = false;
        let mut k: usize = 0;
        while k < n
            invariant
                n == actual@.len(),
                k <= n,
                found == exists|q: int| 0 <= q < k && covered_by(#[trigger] views(actual@)[q], dj@),
            decreases n - k,
        {
            if covers(actual[k].as_str(), dj.as_str()) {
                assert(covered_by(views(actual@)[k as int], dj@));
                found = true;
            }
            k = k + 1;
        }
        if !found {
            unused.push(dj.clone());
            proof {
                assert(views(unused@) =~= views(unused@.drop_last()).push(dj@));
            }
        }
        j = j + 1;
    }
    assert(manifest.declared@.subrange(0, m as int) =~= manifest.declared@);

    let satisfied: Vec<String> = sort_strings(satisfied);
    let undeclared: Vec<String> = sort_strings(undeclared);
    let allowed_by_profile: Vec<String> = sort_strings(allowed_by_profile);

    CapabilityAudit {
        component: manifest.component.clone(),
        profile: manifest.profile,
        satisfied,
        undeclared,
        unused,
        allowed_by_profile,
    }
}

/// `items` as an indented bullet list, one per line.
pub open spec fn bullet_list(items: Seq<Seq<char>>) -> Seq<char>
    decreases items.len(),
{
    if items.len() == 0 {
        seq![]
    } else if items.len() == 1 {
        "  - "@ + items[0]
    } else {
        bullet_list(items.drop_last()) + "\n"@ + "  - "@ + items.last()
    }
}

/// The text `PW4007` renders for a non-compliant audit.
pub open spec fn undeclared_imports_text(
    component: Seq<char>,
    satisfied: Seq<Seq<char>>,
    unused: Seq<Seq<char>>,
    undeclared: Seq<Seq<char>>,
    profile: RuntimeProfile,
) -> Seq<char> {
    let declared = if satisfied.len() == 0 && unused.len() == 0 {
        "  (none)"@
    } else {
        bullet_list(satisfied + unused)
    };
    "error: [PW4007] undeclared component import\n\nComponent `"@ + component + "` declared:\n"@
        + declared + "\n\nThe compiled artifact additionally imports:\n"@ + bullet_list(undeclared)
        + "\n\nnote: runtime profile is `"@ + profile_name(profile) + UNDECLARED_TAIL@
}

/// The fixed closing lines of `PW4007`.
pub const UNDECLARED_TAIL: &'static str = "`\nnote: these imports are a requested authority surface, not authority already held \u{2014}\n      the host still decides what to link. But a declared world that does not describe\n      what the artifact requests cannot be used as evidence of anything.\nhelp: use the generated minimal runtime, declare the capabilities explicitly, or\n      set `runtime_profile wasi-cli` for this component and accept the larger surface\n";

/// Append `items` to `out` as `bullet_list` writes them.
fn push_bullets(out: &mut String, items: &Vec<String>)
    ensures
        final(out)@ == old(out)@ + bullet_list(views(items@)),
{
    let ghost start = out@;
    let n: usize = items.len();
    let mut i: usize = 0;
    while i < n
        invariant
            n == items@.len(),
            i <= n,
            out@ == start + bullet_list(views(items@.subrange(0, i as int))),
        decreases n - i,
    {
        let ghost before = views(items@.subrange(0, i as int));
        let ghost after = views(items@.subrange(0, i + 1));
        let ghost x = items@[i as int]@;
        proof {
            assert(after.drop_last() =~= before);
            assert(after.last() == x);
        }
        if i > 0 {
            out.append("\n");
        }
        out.append("  - ");
        out.append(items[i].as_str());
        proof {
            if i == 0 {
                assert(before.len() == 0);
                assert(after.len() == 1);
                assert(after[0] == x);
                assert(out@ =~= start + ("  - "@ + x));
            } else {
                assert(out@ =~= start + (bullet_list(before) + "\n"@ + "  - "@ + x));
            }
        }
        i = i + 1;
    }
    assert(items@.subrange(0, n as int) =~= items@);
}

/// `PW4007`: the declared interfaces,
/// the ones the artifact additionally imports, and why that matters.
pub fn render_undeclared_imports(audit: &CapabilityAudit) -> (r: Option<String>)
    ensures
        r is None <==> audit.undeclared@.len() == 0,
        r matches Some(t) ==> t@ == undeclared_imports_text(
            audit.component@,
            views(audit.satisfied@),
            views(audit.unused@),
            views(audit.undeclared@),
            audit.profile,
        ),
{
    if audit.is_compliant() {
        return None;
    }
    let mut out: String = String::from_str("error: [PW4007] undeclared component import\n\nComponent `");
    out.append(audit.component.as_str());
    out.append("` declared:\n");
    let ghost after_header = out@;
    if audit.satisfied.len() == 0 && audit.unused.len() == 0 {
        out.append("  (none)");
    } else {
        let mut both: Vec<String> = Vec::new();
        let mut i: usize = 0;
        while i < audit.satisfied.len()
            invariant
                i <= audit.satisfied@.len(),
                views(both@) == views(audit.satisfied@.subrange(0, i as int)),
            decreases audit.satisfied@.len() - i,
        {
            let ghost old_both = both@;
            let x: String = audit.satisfied[i].clone();
            both.push(x);
            proof {
                assert(both@ == old_both.push(x));
                assert(x@ == audit.satisfied@[i as int]@);
                assert(views(both@) =~= views(old_both).push(x@));
                assert(views(audit.satisfied@.subrange(0, i + 1)) =~= views(
                    audit.satisfied@.subrange(0, i as int),
                ).push(x@));
            }
            i = i + 1;
        }
        let mut j: usize = 0;
        while j < audit.unused.len()
            invariant
                j <= audit.unused@.len(),
                views(both@) == views(audit.satisfied@) + views(audit.unused@.subrange(0, j as int)),
            decreases audit.unused@.len() - j,
        {
            let ghost old_both = both@;
            let x: String = audit.unused[j].clone();
            both.push(x);
            proof {
                assert(both@ == old_both.push(x));
                assert(x@ == audit.unused@[j as int]@);
                assert(views(both@) =~= views(old_both).push(x@));
                assert(views(audit.unused@.subrange(0, j + 1)) =~= views(
                    audit.unused@.subrange(0, j as int),
                ).push(x@));
                assert(views(both@) =~= views(audit.satisfied@) + views(audit.unused@.subrange(0, j + 1)));
            }
            j = j + 1;
        }
        proof {
            assert(audit.satisfied@.subrange(0, audit.satisfied@.len() as int) =~= audit.satisfied@);
            assert(audit.unused@.subrange(0, audit.unused@.len() as int) =~= audit.unused@);
        }
        push_bullets(&mut out, &both);
    }
    out.append("\n\nThe compiled artifact additionally imports:\n");
    push_bullets(&mut out, &audit.undeclared);
    out.append("\n\nnote: runtime profile is `");
    out.append(audit.profile.name());
    out.append(UNDECLARED_TAIL);
    proof {
        let declared = if audit.satisfied@.len() == 0 && audit.unused@.len() == 0 {
            "  (none)"@
        } else {
            bullet_list(views(audit.satisfied@) + views(audit.unused@))
        };
        assert(out@ =~= undeclared_imports_text(
            audit.component@,
            views(audit.satisfied@),
            views(audit.unused@),
            views(audit.undeclared@),
            audit.profile,
        ));
    }
    Some(out)
}

// --- the edit distance a typo suggestion is measured by ---------------------

pub open spec fn min3(x: nat, y: nat, z: nat) -> nat {
    if x <= y && x <= z {
        x
    } else if y <= z {
        y
    } else {
        z
    }
}

/// Levenshtein distance: the fewest single-character insertions, deletions
/// and substitutions that turn `a` into `b`.
pub open spec fn edit_distance(a: Seq<char>, b: Seq<char>) -> nat
    decreases a.len() + b.len(),
{
    if a.len() == 0 {
        b.len()
    } else if b.len() == 0 {
        a.len()
    } else {
        min3(
            edit_distance(a.drop_last(), b.drop_last()) + (if a.last() == b.last() {
                0nat
            } else {
                1nat
            }),
            edit_distance(a.drop_last(), b) + 1,
            edit_distance(a, b.drop_last()) + 1,
        )
    }
}

proof fn lemma_edit_distance_bounded(a: Seq<char>, b: Seq<char>)
    ensures
        edit_distance(a, b) <= if a.len() >= b.len() { a.len() } else { b.len() },
    decreases a.len() + b.len(),
{
    if a.len() > 0 && b.len() > 0 {
        lemma_edit_distance_bounded(a.drop_last(), b.drop_last());
    }
}

/// Levenshtein distance, iteratively, one row at a time.
fn distance(a: &str, b: &str) -> (d: usize)
    ensures
        d == edit_distance(a@, b@),
{
    let a: Vec<char> = chars_of(a);
    let b: Vec<char> = chars_of(b);
    let n: usize = a.len();
    let m: usize = b.len();
    let mut prev: Vec<usize> = Vec::new();
    let mut row: Vec<usize> = Vec::new();
    let mut j: usize = 0;
    while j < m
        invariant
            j <= m,
            m == b@.len(),
            prev@.len() == j,
            row@.len() == j,
            forall|k: int| 0 <= k < j ==> #[trigger] prev@[k] == k,
        decreases m - j,
    {
        prev.push(j);
        row.push(0);
        j = j + 1;
    }
    prev.push(m);
    row.push(0);
    assert forall|k: int| 0 <= k <= m implies #[trigger] prev@[k] == edit_distance(
        a@.subrange(0, 0),
        b@.subrange(0, k),
    ) by {
        assert(a@.subrange(0, 0).len() == 0);
    }
    let mut i: usize = 0;
    while i < n
        invariant
            n == a@.len(),
            m == b@.len(),
            i <= n,
            prev@.len() == m + 1,
            row@.len() == m + 1,
            forall|k: int|
                0 <= k <= m ==> #[trigger] prev@[k] == edit_distance(
                    a@.subrange(0, i as int),
                    b@.subrange(0, k),
                ),
        decreases n - i,
    {
        let ghost ai = a@.subrange(0, i as int);
        let ghost ai1 = a@.subrange(0, i + 1);
        assert(ai1.drop_last() =~= ai);
        assert(b@.subrange(0, 0) =~= Seq::<char>::empty());
        row.set(0, i + 1);
        let mut j: usize = 0;
        while j < m
            invariant
                n == a@.len(),
                m == b@.len(),
                i < n,
                j <= m,
                ai == a@.subrange(0, i as int),
                ai1 == a@.subrange(0, i + 1),
                ai1.drop_last() == ai,
                ai1.last() == a@[i as int],
                prev@.len() == m + 1,
                row@.len() == m + 1,
                forall|k: int|
                    0 <= k <= m ==> #[trigger] prev@[k] == edit_distance(ai, b@.subrange(0, k)),
                forall|k: int|
                    0 <= k <= j ==> #[trigger] row@[k] == edit_distance(ai1, b@.subrange(0, k)),
            decreases m - j,
        {
            let ghost bj = b@.subrange(0, j as int);
            let ghost bj1 = b@.subrange(0, j + 1);
            assert(bj1.drop_last() =~= bj);
            let cost: usize = if a[i] != b[j] {
                1
            } else {
                0
            };
            let sub: usize = prev[j].saturating_add(cost);
            let del: usize = prev[j + 1].saturating_add(1);
            let ins: usize = row[j].saturating_add(1);
            proof {
                lemma_edit_distance_bounded(ai1, bj1);
            }
            let mut best: usize = sub;
            if del < best {
                best = del;
            }
            if ins < best {
                best = ins;
            }
            row.set(j + 1, best);
            j = j + 1;
        }
        let tmp: Vec<usize> = prev;
        prev = row;
        row = tmp;
        i = i + 1;
    }
    assert(a@.subrange(0, n as int) =~= a@);
    assert(b@.subrange(0, m as int) =~= b@);
    prev[m]
}

// --- what a capability's type argument may name ----------------------------

/// `d` declares a type or an opaque type named `x`.
pub open spec fn declares_type_named(d: Decl, x: Seq<char>) -> bool {
    (d.kind == DeclKind::Type || d.kind == DeclKind::Opaque) && d.name@ == x
}

/// One of the first `j` declarations of `h` declares a type named `x`.
pub open spec fn types_among(h: Hir, j: int, x: Seq<char>) -> bool {
    exists|k: int| 0 <= k < j && declares_type_named(#[trigger] h.decls@[k], x)
}

/// The file's header names the module `x`, and the file declares something.
pub open spec fn module_named(h: Hir, x: Seq<char>) -> bool {
    h.decls@.len() > 0 && (h.module matches Some(m) && m@ == x)
}

/// The names a capability argument may legitimately name, from one file:
/// its types and opaque types, and, when it declares anything, its module.
pub open spec fn names_in(h: Hir, x: Seq<char>) -> bool {
    types_among(h, h.decls@.len() as int, x) || module_named(h, x)
}

/// One of the first `i` files offers the name `x`.
pub open spec fn names_among(hirs: Seq<&Hir>, i: int, x: Seq<char>) -> bool {
    exists|q: int| 0 <= q < i && names_in(*(#[trigger] hirs[q]), x)
}

/// Everything a capability argument may legitimately name: types, opaque
/// types **and modules**. `database.read<Stores>` names the module being
/// read, and a module is exactly the kind of declared contract an argument
/// may refer to.
pub fn capability_argument_names(hirs: &[&Hir]) -> (r: NameSet)
    ensures
        strictly_sorted(r@),
        forall|x: Seq<char>| r@.contains(x) <==> names_among(hirs@, hirs@.len() as int, x),
{
    let mut out: NameSet = NameSet::new();
    let n: usize = hirs.len();
    let mut i: usize = 0;
    while i < n
        invariant
            n == hirs@.len(),
            i <= n,
            strictly_sorted(out@),
            forall|x: Seq<char>|
                #![trigger out@.contains(x)]
                out@.contains(x) <==> names_among(hirs@, i as int, x),
        decreases n - i,
    {
        let h: &Hir = hirs[i];
        let ghost before = out@;
        let m: usize = h.decls.len();
        let mut j: usize = 0;
        while j < m
            invariant
                m == h.decls@.len(),
                j <= m,
                strictly_sorted(out@),
                forall|x: Seq<char>|
                    #![trigger out@.contains(x)]
                    out@.contains(x) <==> before.contains(x) || types_among(*h, j as int, x),
            decreases m - j,
        {
            let d: &Decl = &h.decls[j];
            let ghost prev = out@;
            let ghost is_type = d.kind == DeclKind::Type || d.kind == DeclKind::Opaque;
            if d.kind == DeclKind::Type || d.kind == DeclKind::Opaque {
                let name: String = d.name.clone();
                out.insert(name);
                proof {
                    lemma_set_insert_contains(prev, d.name@);
                    assert(forall|y: Seq<char>| out@.contains(y) <==> prev.contains(y) || y == d.name@);
                }
            }
            proof {
                assert(forall|y: Seq<char>|
                    out@.contains(y) <==> prev.contains(y) || (is_type && y == d.name@));
                assert forall|x: Seq<char>|
                    #![trigger out@.contains(x)]
                    out@.contains(x) <==> before.contains(x) || types_among(*h, j + 1, x) by {
                    assert(prev.contains(x) <==> before.contains(x) || types_among(*h, j as int, x));
                    assert(out@.contains(x) <==> prev.contains(x) || (is_type && x == d.name@));
                    if types_among(*h, j + 1, x) && !types_among(*h, j as int, x) {
                        let k = choose|k: int| 0 <= k < j + 1 && declares_type_named(#[trigger] h.decls@[k], x);
                        assert(k == j);
                    }
                    if is_type && x == d.name@ {
                        assert(declares_type_named(h.decls@[j as int], x));
                        assert(types_among(*h, j + 1, x));
                    }
                    if types_among(*h, j as int, x) {
                        let k = choose|k: int| 0 <= k < j && declares_type_named(#[trigger] h.decls@[k], x);
                        assert(types_among(*h, j + 1, x));
                    }
                }
            }
            j = j + 1;
        }
        let ghost with_types = out@;
        if m > 0 {
            match &h.module {
                Some(module) => {
                    out.insert(module.clone());
                    proof {
                        lemma_set_insert_contains(with_types, module@);
                    }
                },
                None => {},
            }
        }
        proof {
            assert forall|x: Seq<char>|
                #![trigger out@.contains(x)]
                out@.contains(x) <==> names_among(hirs@, i + 1, x) by {
                assert(with_types.contains(x) <==> before.contains(x) || types_among(*h, m as int, x));
                if names_among(hirs@, i + 1, x) && !names_among(hirs@, i as int, x) {
                    let q = choose|q: int| 0 <= q < i + 1 && names_in(*(#[trigger] hirs@[q]), x);
                    assert(q == i);
                }
                if names_in(*h, x) {
                    assert(names_in(*hirs@[i as int], x));
                }
                if names_among(hirs@, i as int, x) {
                    let q = choose|q: int| 0 <= q < i && names_in(*(#[trigger] hirs@[q]), x);
                    assert(names_in(*hirs@[q], x));
                }
            }
        }
        i = i + 1;
    }
    out
}

proof fn lemma_set_insert_contains(s: Seq<Seq<char>>, x: Seq<char>)
    ensures
        forall|y: Seq<char>| set_insert(s, x).contains(y) <==> s.contains(y) || y == x,
{
    crate::ordered::lemma_insert_contains(s, x);
}

/// The `<Argument>` of an effect as written, when it has one: what follows
/// the first `<`, with trailing `>` and surrounding white space removed.
pub open spec fn argument_spec(effect: Seq<char>) -> Option<Seq<char>> {
    match index_of(effect, '<') {
        None => None,
        Some(i) => {
            let a = trim(trim_end_char(effect.subrange(i + 1, effect.len() as int), '>'));
            if a.len() > 0 {
                Some(a)
            } else {
                None
            }
        },
    }
}

/// The `<Argument>` of an effect, if it has one.
fn argument_of(effect: &str) -> (r: Option<String>)
    ensures
        r matches Some(a) ==> argument_spec(effect@) == Some(a@),
        r is None ==> argument_spec(effect@) is None,
{
    proof {
        crate::text::lemma_index_of(effect@, '<');
    }
    let i: usize = match find_char(effect, '<') {
        Some(i) => i,
        None => return None,
    };
    let n: usize = effect.unicode_len();
    let e: usize = trim_end_char_at(effect, i + 1, n, '>');
    let (x, y) = trim_bounds(effect, i + 1, e);
    if x < y {
        Some(slice(effect, x, y))
    } else {
        None
    }
}

/// The byte length of text, as `str::len` counts it.
pub open spec fn byte_len(s: Seq<char>) -> nat {
    (vstd::utf8::encode_utf8(s).len() as usize) as nat
}

/// How far a suggestion may be from what was written: a third of its length,
/// and at least one.
pub open spec fn typo_budget(written: Seq<char>) -> nat {
    if byte_len(written) / 3 >= 1 {
        byte_len(written) / 3
    } else {
        1
    }
}

/// `(d1, l1)` sorts strictly before `(d2, l2)`.
pub open spec fn key_lt(d1: nat, l1: nat, d2: nat, l2: nat) -> bool {
    d1 < d2 || (d1 == d2 && l1 < l2)
}

/// The closest of `known` to `written` within `budget`, by distance and then
/// by length; among equals, the first.
pub open spec fn nearest_spec(written: Seq<char>, known: Seq<Seq<char>>, budget: nat) -> Option<
    Seq<char>,
>
    decreases known.len(),
{
    if known.len() == 0 {
        None
    } else {
        let rest = nearest_spec(written, known.drop_last(), budget);
        let t = known.last();
        let d = edit_distance(written, t);
        if d > budget {
            rest
        } else {
            match rest {
                None => Some(t),
                Some(b) => if key_lt(d, byte_len(t), edit_distance(written, b), byte_len(b)) {
                    Some(t)
                } else {
                    rest
                },
            }
        }
    }
}

/// The closest declared name, when one is close enough to be a typo.
///
/// A suggestion that is merely the alphabetically first type would be worse
/// than none, so the distance is bounded relative to what was written.
fn nearest(written: &str, known: &NameSet) -> (r: Option<String>)
    ensures
        r matches Some(t) ==> nearest_spec(written@, known@, typo_budget(written@)) == Some(t@),
        r is None ==> nearest_spec(written@, known@, typo_budget(written@)) is None,
{
    let third: usize = written.len() / 3;
    let budget: usize = if third >= 1 {
        third
    } else {
        1
    };
    let ghost w = written@;
    let ghost s = known@;
    let n: usize = known.len();
    let mut best: Option<(usize, usize, usize)> = None;
    let mut i: usize = 0;
    while i < n
        invariant
            n == s.len(),
            s == known@,
            w == written@,
            budget == typo_budget(w),
            i <= n,
            match best {
                None => nearest_spec(w, s.subrange(0, i as int), budget as nat) is None,
                Some((d, l, k)) => k < i && nearest_spec(w, s.subrange(0, i as int), budget as nat)
                    == Some(s[k as int]) && d == edit_distance(w, s[k as int]) && l == byte_len(
                    s[k as int],
                ),
            },
        decreases n - i,
    {
        let ghost before = s.subrange(0, i as int);
        let ghost after = s.subrange(0, i + 1);
        proof {
            assert(after.drop_last() =~= before);
            assert(after.last() == s[i as int]);
        }
        let t: &String = known.get(i);
        let d: usize = distance(written, t.as_str());
        let l: usize = t.as_str().len();
        if d <= budget {
            match best {
                None => {
                    best = Some((d, l, i));
                },
                Some((bd, bl, _)) => {
                    if d < bd || (d == bd && l < bl) {
                        best = Some((d, l, i));
                    }
                },
            }
        }
        i = i + 1;
    }
    assert(s.subrange(0, n as int) =~= s);
    match best {
        None => None,
        Some((_, _, k)) => Some(known.get(k).clone()),
    }
}

/// Why an argument naming nothing is refused at build time.
pub const ARGUMENT_EXPLANATION: &'static str = "A capability's type argument is part of its IDENTITY: `database.read<Stores>` and `database.read<Payments>` are different authority. An argument naming nothing produces a capability no deployment can ever grant, and without this rule the failure appears as `the node does not grant ..` at deployment \u{2014} describing the deployment rather than the declaration that caused it, and far from anyone who could repair it.";

/// The arguments of `effects` that name nothing in `known`, each with the
/// span of the effect that writes it, in row order.
pub open spec fn unresolved_arguments(effects: Seq<crate::hir::EffectRef>, known: Seq<Seq<char>>) -> Seq<
    (Seq<char>, Span),
>
    decreases effects.len(),
{
    if effects.len() == 0 {
        seq![]
    } else {
        let rest = unresolved_arguments(effects.drop_last(), known);
        let e = effects.last();
        match argument_spec(e.written@) {
            Some(a) => if known.contains(a) {
                rest
            } else {
                rest.push((a, e.span))
            },
            None => rest,
        }
    }
}

/// The diagnostic an unresolved argument `a`, written at `span`, is
/// reported with, `near` being the suggestion when there is one.
pub open spec fn is_unresolved_argument_report(
    d: Diagnostic,
    a: Seq<char>,
    near: Option<Seq<char>>,
    span: Span,
) -> bool {
    &&& d.code@ == registry()[34].0
    &&& d.invariant@ == registry()[34].1
    &&& d.reason@ == "capability_argument_names_no_type"@
    &&& d.detector == Detector::DeclarationRule
    &&& d.severity == Severity::Error
    &&& d.message@ == "unknown capability type argument `"@ + a + "`"@ + match near {
        Some(t) => "; did you mean `"@ + t + "`?"@,
        None => Seq::<char>::empty(),
    }
    &&& d.primary_span == span
    &&& d.related@.len() == 1
    &&& d.related@[0].span == span
    &&& d.related@[0].label@ == "`"@ + a + "` names nothing this program declares"@ + match near {
        Some(t) => "; `"@ + t + "` does"@,
        None => Seq::<char>::empty(),
    }
    &&& d.explanation matches Some(x) && x@ == ARGUMENT_EXPLANATION@
    &&& d.repairs@.len() == 1
    &&& d.repairs@[0].replacement is None
    &&& d.repairs@[0].description@ == match near {
        Some(t) => "did you mean `"@ + t + "`?"@,
        None => "declare `"@ + a + "`, or import the module that does"@,
    }
}

/// An effect argument that resolves to nothing is a capability nobody can
/// ever grant: reported here, with a precise span and a repair, rather than
/// as a deployment failure far from the declaration that caused it.
pub fn capability_arguments(hir: &Hir, decl: &Decl, known: &NameSet, out: &mut Vec<Diagnostic>)
    ensures
        decl.declared_effects is None ==> final(out)@ == old(out)@,
        decl.declared_effects matches Some(row) ==> {
            let found = unresolved_arguments(row@, known@);
            &&& final(out)@.len() == old(out)@.len() + found.len()
            &&& final(out)@.subrange(0, old(out)@.len() as int) == old(out)@
            &&& forall|k: int|
                0 <= k < found.len() ==> is_unresolved_argument_report(
                    #[trigger] final(out)@[old(out)@.len() + k],
                    found[k].0,
                    nearest_spec(found[k].0, known@, typo_budget(found[k].0)),
                    found[k].1,
                )
        },
{
    let row: &Vec<crate::hir::EffectRef> = match &decl.declared_effects {
        Some(row) => row,
        None => return,
    };
    let ghost start = out@;
    let n: usize = row.len();
    let mut i: usize = 0;
    while i < n
        invariant
            n == row@.len(),
            i <= n,
            decl.declared_effects == Some(*row),
            ({
                let found = unresolved_arguments(row@.subrange(0, i as int), known@);
                &&& out@.len() == start.len() + found.len()
                &&& out@.subrange(0, start.len() as int) == start
                &&& forall|k: int|
                    0 <= k < found.len() ==> is_unresolved_argument_report(
                        #[trigger] out@[start.len() + k],
                        found[k].0,
                        nearest_spec(found[k].0, known@, typo_budget(found[k].0)),
                        found[k].1,
                    )
            }),
        decreases n - i,
    {
        let ghost before = row@.subrange(0, i as int);
        let ghost after = row@.subrange(0, i + 1);
        proof {
            assert(after.drop_last() =~= before);
            assert(after.last() == row@[i as int]);
        }
        let effect: &crate::hir::EffectRef = &row[i];
        match argument_of(effect.written.as_str()) {
            None => {},
            Some(argument) => {
                if !known.contains(argument.as_str()) {
                    let suggestion: Option<String> = nearest(argument.as_str(), known);
                    let d: Diagnostic = unresolved_argument_report(&argument, &suggestion, &effect.span);
                    let ghost prev = out@;
                    out.push(d);
                    proof {
                        let found = unresolved_arguments(before, known@);
                        assert(out@.subrange(0, start.len() as int) =~= prev.subrange(0, start.len() as int));
                        assert forall|k: int| 0 <= k < found.len() implies #[trigger] out@[start.len() + k] == prev[start.len() + k] by {}
                    }
                }
            },
        }
        i = i + 1;
    }
    assert(row@.subrange(0, n as int) =~= row@);
}

/// The report for one unresolved argument.
fn unresolved_argument_report(argument: &String, suggestion: &Option<String>, span: &Span) -> (d: Diagnostic)
    ensures
        is_unresolved_argument_report(
            d,
            argument@,
            match suggestion {
                Some(t) => Some(t@),
                None => None,
            },
            *span,
        ),
{
    let code = unresolved_capability_argument();
    let mut message: String = String::from_str("unknown capability type argument `");
    message.append(argument.as_str());
    message.append("`");
    let mut label: String = String::from_str("`");
    label.append(argument.as_str());
    label.append("` names nothing this program declares");
    let mut description: String;
    match suggestion {
        Some(near) => {
            message.append("; did you mean `");
            message.append(near.as_str());
            message.append("`?");
            label.append("; `");
            label.append(near.as_str());
            label.append("` does");
            description = String::from_str("did you mean `");
            description.append(near.as_str());
            description.append("`?");
        },
        None => {
            description = String::from_str("declare `");
            description.append(argument.as_str());
            description.append("`, or import the module that does");
        },
    }
    let d = Diagnostic {
        code: code.id,
        invariant: code.invariant,
        reason: "capability_argument_names_no_type",
        detector: Detector::DeclarationRule,
        severity: Severity::Error,
        message,
        primary_span: copy_span(span),
        related: vec![Related { span: copy_span(span), label }],
        explanation: Some(String::from_str(ARGUMENT_EXPLANATION)),
        repairs: vec![Repair { description, replacement: None }],
    };
    proof {
        let near = match suggestion {
            Some(t) => Some(t@),
            None => None,
        };
        assert(d.message@ =~= "unknown capability type argument `"@ + argument@ + "`"@ + match near {
            Some(t) => "; did you mean `"@ + t + "`?"@,
            None => Seq::<char>::empty(),
        });
        assert(d.related@[0].label@ =~= "`"@ + argument@ + "` names nothing this program declares"@
            + match near {
            Some(t) => "; `"@ + t + "` does"@,
            None => Seq::<char>::empty(),
        });
    }
    d
}

// --- the laws of the compliance audit --------------------------------------------

/// The imports that land in a class, as the audit reports them: sorted.
pub open spec fn reported(
    actual: Seq<Seq<char>>,
    declared: Seq<Seq<char>>,
    p: RuntimeProfile,
    class: ImportClass,
) -> Seq<Seq<char>> {
    sort_seq(of_class(actual, declared, p, class))
}

proof fn lemma_of_class_empty(actual: Seq<Seq<char>>, declared: Seq<Seq<char>>, p: RuntimeProfile, class: ImportClass)
    ensures
        of_class(actual, declared, p, class).len() == 0 <==> forall|k: int|
            0 <= k < actual.len() ==> #[trigger] classify(actual[k], declared, p) != class,
    decreases actual.len(),
{
    if actual.len() > 0 {
        let init = actual.drop_last();
        lemma_of_class_empty(init, declared, p, class);
        assert forall|k: int| 0 <= k < init.len() implies init[k] == actual[k] by {}
        if !(forall|k: int| 0 <= k < actual.len() ==> #[trigger] classify(actual[k], declared, p) != class) {
            let k = choose|k: int| 0 <= k < actual.len() && #[trigger] classify(actual[k], declared, p) == class;
            if k < actual.len() - 1 {
                assert(classify(init[k], declared, p) == class);
            }
        }
    }
}

proof fn lemma_classes_count(actual: Seq<Seq<char>>, declared: Seq<Seq<char>>, p: RuntimeProfile)
    ensures
        of_class(actual, declared, p, ImportClass::Satisfied).len() + of_class(
            actual,
            declared,
            p,
            ImportClass::AllowedByProfile,
        ).len() + of_class(actual, declared, p, ImportClass::Undeclared).len() == actual.len(),
    decreases actual.len(),
{
    if actual.len() > 0 {
        lemma_classes_count(actual.drop_last(), declared, p);
    }
}

/// **Every import the artifact requests is reported exactly once**: as
/// satisfied, as tolerated by the profile, or as undeclared, each list
/// sorted. Choosing a profile never makes the requested surface invisible.
pub proof fn every_import_is_reported(actual: Seq<Seq<char>>, declared: Seq<Seq<char>>, p: RuntimeProfile)
    ensures
        crate::ordered::sorted(reported(actual, declared, p, ImportClass::Satisfied)),
        crate::ordered::sorted(reported(actual, declared, p, ImportClass::AllowedByProfile)),
        crate::ordered::sorted(reported(actual, declared, p, ImportClass::Undeclared)),
        reported(actual, declared, p, ImportClass::Satisfied).len() + reported(
            actual,
            declared,
            p,
            ImportClass::AllowedByProfile,
        ).len() + reported(actual, declared, p, ImportClass::Undeclared).len() == actual.len(),
{
    lemma_classes_count(actual, declared, p);
    crate::ordered::lemma_sort_seq_sorted(of_class(actual, declared, p, ImportClass::Satisfied));
    crate::ordered::lemma_sort_seq_sorted(of_class(actual, declared, p, ImportClass::AllowedByProfile));
    crate::ordered::lemma_sort_seq_sorted(of_class(actual, declared, p, ImportClass::Undeclared));
}

/// **A component is compliant exactly when each import it requests is
/// declared, or tolerated by the profile it chose.**
pub proof fn compliant_iff_every_import_is_covered(
    actual: Seq<Seq<char>>,
    declared: Seq<Seq<char>>,
    p: RuntimeProfile,
)
    ensures
        reported(actual, declared, p, ImportClass::Undeclared).len() == 0 <==> forall|k: int|
            0 <= k < actual.len() ==> matches_declared(#[trigger] actual[k], declared) || allowed_by(
                actual[k],
                p,
            ),
{
    lemma_of_class_empty(actual, declared, p, ImportClass::Undeclared);
    crate::ordered::lemma_sort_seq_sorted(of_class(actual, declared, p, ImportClass::Undeclared));
    if of_class(actual, declared, p, ImportClass::Undeclared).len() == 0 {
        assert forall|k: int| 0 <= k < actual.len() implies matches_declared(#[trigger] actual[k], declared)
            || allowed_by(actual[k], p) by {
            assert(classify(actual[k], declared, p) != ImportClass::Undeclared);
        }
    } else {
        let k = choose|k: int|
            0 <= k < actual.len() && #[trigger] classify(actual[k], declared, p) == ImportClass::Undeclared;
        assert(!(matches_declared(actual[k], declared) || allowed_by(actual[k], p)));
    }
}

/// **Ambient authority is denied by default**: under the minimal profile a
/// component is compliant exactly when every import it requests is covered
/// by a declared interface.
pub proof fn minimal_denies_ambient_authority(actual: Seq<Seq<char>>, declared: Seq<Seq<char>>)
    ensures
        reported(actual, declared, RuntimeProfile::Minimal, ImportClass::Undeclared).len() == 0 <==> forall|k: int|
            0 <= k < actual.len() ==> matches_declared(#[trigger] actual[k], declared),
{
    compliant_iff_every_import_is_covered(actual, declared, RuntimeProfile::Minimal);
    assert forall|k: int| 0 <= k < actual.len() implies !allowed_by(#[trigger] actual[k], RuntimeProfile::Minimal) by {}
}

/// **A richer runtime only ever tolerates more**: a component compliant
/// under the minimal profile is compliant under the WASI CLI profile too.
pub proof fn the_wasi_cli_profile_tolerates_more(actual: Seq<Seq<char>>, declared: Seq<Seq<char>>)
    ensures
        reported(actual, declared, RuntimeProfile::Minimal, ImportClass::Undeclared).len() == 0 ==> reported(
            actual,
            declared,
            RuntimeProfile::WasiCli,
            ImportClass::Undeclared,
        ).len() == 0,
{
    compliant_iff_every_import_is_covered(actual, declared, RuntimeProfile::Minimal);
    compliant_iff_every_import_is_covered(actual, declared, RuntimeProfile::WasiCli);
}

/// **Over-declaring is never a build failure**: declaring one more
/// interface never turns a compliant component into a failing one.
pub proof fn over_declaring_never_fails(
    actual: Seq<Seq<char>>,
    declared: Seq<Seq<char>>,
    extra: Seq<char>,
    p: RuntimeProfile,
)
    ensures
        reported(actual, declared, p, ImportClass::Undeclared).len() == 0 ==> reported(
            actual,
            declared.push(extra),
            p,
            ImportClass::Undeclared,
        ).len() == 0,
{
    compliant_iff_every_import_is_covered(actual, declared, p);
    compliant_iff_every_import_is_covered(actual, declared.push(extra), p);
    assert forall|k: int| 0 <= k < actual.len() && matches_declared(#[trigger] actual[k], declared) implies matches_declared(
        actual[k],
        declared.push(extra),
    ) by {
        let j = choose|j: int| 0 <= j < declared.len() && covered_by(actual[k], #[trigger] declared[j]);
        assert(declared.push(extra)[j] == declared[j]);
    }
}

proof fn lemma_of_class_contains(
    actual: Seq<Seq<char>>,
    declared: Seq<Seq<char>>,
    p: RuntimeProfile,
    class: ImportClass,
    k: int,
)
    requires
        0 <= k < actual.len(),
        classify(actual[k], declared, p) == class,
    ensures
        of_class(actual, declared, p, class).contains(actual[k]),
    decreases actual.len(),
{
    let rest = of_class(actual.drop_last(), declared, p, class);
    if k < actual.len() - 1 {
        assert(actual.drop_last()[k] == actual[k]);
        lemma_of_class_contains(actual.drop_last(), declared, p, class, k);
        let j = choose|j: int| 0 <= j < rest.len() && rest[j] == actual[k];
        if classify(actual.last(), declared, p) == class {
            assert(rest.push(actual.last())[j] == actual[k]);
        }
    } else {
        assert(rest.push(actual.last())[rest.len() as int] == actual[k]);
    }
}

/// **The WASI CLI profile tolerates exactly the WASI CLI surface**: an
/// import is tolerated by it exactly when it begins with `wasi:cli/`,
/// `wasi:clocks/`, `wasi:io/`, `wasi:random/` or `wasi:filesystem/`; the
/// minimal profile tolerates nothing. So an audit under the WASI CLI
/// profile lists each such import that no declared interface covers as
/// allowed by the profile, and never as undeclared.
pub proof fn the_wasi_cli_surface(actual: Seq<Seq<char>>, declared: Seq<Seq<char>>, import: Seq<char>)
    ensures
        allowed_by(import, RuntimeProfile::WasiCli) <==> {
            ||| has_prefix(import, "wasi:cli/"@)
            ||| has_prefix(import, "wasi:clocks/"@)
            ||| has_prefix(import, "wasi:io/"@)
            ||| has_prefix(import, "wasi:random/"@)
            ||| has_prefix(import, "wasi:filesystem/"@)
        },
        !allowed_by(import, RuntimeProfile::Minimal),
        forall|k: int|
            0 <= k < actual.len() && !matches_declared(#[trigger] actual[k], declared) && {
                ||| has_prefix(actual[k], "wasi:cli/"@)
                ||| has_prefix(actual[k], "wasi:clocks/"@)
                ||| has_prefix(actual[k], "wasi:io/"@)
                ||| has_prefix(actual[k], "wasi:random/"@)
                ||| has_prefix(actual[k], "wasi:filesystem/"@)
            } ==> reported(actual, declared, RuntimeProfile::WasiCli, ImportClass::AllowedByProfile).contains(
                actual[k],
            ) && !reported(actual, declared, RuntimeProfile::WasiCli, ImportClass::Undeclared).contains(actual[k]),
{
    let a = profile_allowance(RuntimeProfile::WasiCli);
    assert(a[0] == "wasi:cli/"@ && a[1] == "wasi:clocks/"@ && a[2] == "wasi:io/"@ && a[3] == "wasi:random/"@ && a[4]
        == "wasi:filesystem/"@);
    if allowed_by(import, RuntimeProfile::WasiCli) {
        let k = choose|k: int| 0 <= k < a.len() && has_prefix(import, #[trigger] a[k]);
    }
    let p = RuntimeProfile::WasiCli;
    crate::ordered::lemma_sort_seq_contains(of_class(actual, declared, p, ImportClass::AllowedByProfile));
    crate::ordered::lemma_sort_seq_contains(of_class(actual, declared, p, ImportClass::Undeclared));
    assert forall|k: int|
        0 <= k < actual.len() && !matches_declared(#[trigger] actual[k], declared) && {
            ||| has_prefix(actual[k], "wasi:cli/"@)
            ||| has_prefix(actual[k], "wasi:clocks/"@)
            ||| has_prefix(actual[k], "wasi:io/"@)
            ||| has_prefix(actual[k], "wasi:random/"@)
            ||| has_prefix(actual[k], "wasi:filesystem/"@)
        } implies reported(actual, declared, p, ImportClass::AllowedByProfile).contains(actual[k]) && !reported(
            actual,
            declared,
            p,
            ImportClass::Undeclared,
        ).contains(actual[k]) by {
        if has_prefix(actual[k], "wasi:cli/"@) {
            assert(has_prefix(actual[k], a[0]));
        } else if has_prefix(actual[k], "wasi:clocks/"@) {
            assert(has_prefix(actual[k], a[1]));
        } else if has_prefix(actual[k], "wasi:io/"@) {
            assert(has_prefix(actual[k], a[2]));
        } else if has_prefix(actual[k], "wasi:random/"@) {
            assert(has_prefix(actual[k], a[3]));
        } else {
            assert(has_prefix(actual[k], a[4]));
        }
        assert(classify(actual[k], declared, p) == ImportClass::AllowedByProfile);
        lemma_of_class_contains(actual, declared, p, ImportClass::AllowedByProfile, k);
        lemma_of_class_members(actual, declared, p, ImportClass::Undeclared);
    }
}

proof fn lemma_of_class_members(actual: Seq<Seq<char>>, declared: Seq<Seq<char>>, p: RuntimeProfile, class: ImportClass)
    ensures
        forall|x: Seq<char>| #[trigger] of_class(actual, declared, p, class).contains(x) ==> classify(x, declared, p) == class,
    decreases actual.len(),
{
    if actual.len() > 0 {
        lemma_of_class_members(actual.drop_last(), declared, p, class);
        let rest = of_class(actual.drop_last(), declared, p, class);
        assert forall|x: Seq<char>| #[trigger] of_class(actual, declared, p, class).contains(x) implies classify(x, declared, p) == class by {
            if classify(actual.last(), declared, p) == class {
                let j = choose|j: int| 0 <= j < rest.len() + 1 && rest.push(actual.last())[j] == x;
                if j < rest.len() {
                    assert(rest[j] == x);
                    assert(rest.contains(x));
                }
            } else {
                assert(rest.contains(x));
            }
        }
    }
}

} // verus!
