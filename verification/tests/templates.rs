use pw_core::diagnostics::Diagnostic;
use pw_core::hir::{Body, Decl, DeclKind, Expr, Hir, Node, TemplateArm};
use pw_core::templates::{template_blocks, SubjectType};

fn page() -> Decl {
    Decl {
        name: "Cart".to_string(),
        kind: DeclKind::Component,
        visibility: None,
        params: vec![],
        ret: None,
        ret_args: vec![],
        variants: None,
        declared_effects: None,
        body: Some(0),
        span: 0..500,
    }
}

fn block(d: &str, children: Vec<usize>, subject: Option<usize>, close: &str) -> Node {
    Node::Block { directive: d.to_string(), children, subject, close: close.to_string() }
}

fn marker(m: &str, condition: Option<usize>) -> Node {
    Node::Branch { marker: m.to_string(), condition, arm: None }
}

fn arm(m: &str, case: &str, bindings: &[&str]) -> Node {
    Node::Branch {
        marker: m.to_string(),
        condition: None,
        arm: Some(TemplateArm { case: case.to_string(), bindings: bindings.iter().map(|b| b.to_string()).collect() }),
    }
}

/// Expression 0 is the template over every node; expression 1 is `cart`.
fn run(nodes: Vec<(Node, std::ops::Range<usize>)>, subject: Option<SubjectType>, resolved: Vec<(String, usize)>) -> Vec<Diagnostic> {
    let ids: Vec<usize> = (0..nodes.len()).collect();
    let hir = Hir {
        module: None,
        decls: vec![page()],
        bodies: vec![Body {
            exprs: vec![(Expr::Template { nodes: ids }, 0..400), (Expr::Name("cart".to_string()), 5..9)],
            nodes,
        }],
    };
    let mut out = Vec::new();
    template_blocks(&hir, &hir.decls[0], &vec![None, subject], &resolved, &mut out);
    out
}

fn messages(out: &[Diagnostic]) -> Vec<&str> {
    out.iter().map(|d| d.message.as_str()).collect()
}

#[test]
fn a_well_formed_if_reports_nothing() {
    let out = run(
        vec![
            (block("{#if ready}", vec![1, 2], None, "{/if}"), 0..50),
            (marker("{:else if later}", Some(1)), 10..20),
            (marker(" {:else} ", None), 20..30),
        ],
        None,
        vec![],
    );
    assert!(out.is_empty());
}

#[test]
fn a_stray_closer_and_an_unknown_block_are_malformed() {
    let out = run(
        vec![(block(" {/if} ", vec![], None, ""), 0..10), (block("{#loop xs}", vec![], None, "{/loop}"), 10..30)],
        None,
        vec![],
    );
    assert_eq!(
        messages(&out),
        vec![
            "`{/if}` closes no block",
            "`{#loop xs}` is not a template block: the blocks are `{#if}`, `{#each}` and `{#match}`",
        ]
    );
    assert_eq!(out[0].code, "PW5017");
    assert_eq!(out[0].reason, "malformed_template_block");
    assert_eq!(out[0].related[0].span, 0..500);
    assert_eq!(out[0].related[0].label, "`Cart` renders this");
    assert!(out[0].explanation.as_ref().unwrap().starts_with("A block's markers decide what renders."));
}

#[test]
fn a_block_is_closed_by_its_own_closer() {
    let out = run(
        vec![(block("{#if a}", vec![], None, ""), 0..10), (block("{#each xs as x (x.id)}", vec![], None, " {/if} "), 10..30)],
        None,
        vec![],
    );
    assert_eq!(messages(&out), vec!["`{#if}` is never closed", "`{#each}` closes with `{/if}`, not `{/each}`"]);
}

#[test]
fn an_each_takes_no_marker_and_an_else_comes_last() {
    let out = run(
        vec![
            (block("{#each xs as x (x.id)}", vec![1], None, "{/each}"), 0..50),
            (marker("{:else}", None), 10..20),
            (block("{#if a}", vec![3, 4], None, "{/if}"), 60..120),
            (marker("{:else}", None), 70..80),
            (marker("{:else if b}", Some(1)), 80..90),
        ],
        None,
        vec![],
    );
    assert_eq!(
        messages(&out),
        vec![
            "`{#each}` takes no `{:else}`; `{#if xs}` around the list says what renders when it is empty",
            "an `{#if}` takes `{:else if c}` markers and one `{:else}`, last; not `{:else}` here",
        ]
    );
    assert_eq!(out[0].primary_span, 10..20);
}

#[test]
fn an_option_is_taken_apart_not_tested() {
    let out = run(vec![(block("{#if cart}", vec![], Some(1), "{/if}"), 0..30)], Some(SubjectType::Option), vec![]);
    assert_eq!(messages(&out), vec!["`{#if cart}` tests a value that may be absent; `{#match cart}` takes it apart"]);
    assert_eq!(out[0].code, "PW0308");
    assert_eq!(out[0].reason, "optional_tested_by_if");
    assert_eq!(out[0].repairs[0].description, "write `{#match cart}{:Some(x)} .. {:None} .. {/match}`");
}

#[test]
fn a_match_must_cover_every_case() {
    let out = run(
        vec![(block("{#match cart}", vec![1], Some(1), "{/match}"), 0..40), (arm("{:Some(c)}", "Some", &["c"]), 5..15)],
        Some(SubjectType::Option),
        vec![],
    );
    assert_eq!(messages(&out), vec!["`{#match cart}` does not cover `None`"]);
    assert_eq!(out[0].code, "PW0305");
    assert_eq!(out[0].invariant, "a match must cover every value its scrutinee can take");
    assert_eq!(out[0].repairs[0].description, "add a `{:None}` arm");
}

#[test]
fn a_declared_sum_types_arms_are_its_cases() {
    let shape = SubjectType::Declared {
        name: "Shape".to_string(),
        cases: vec![("Circle".to_string(), 1), ("Square".to_string(), 1), ("Dot".to_string(), 0)],
        def: 7,
    };
    let out = run(
        vec![
            (block("{#match cart}", vec![1, 2, 3, 4, 5], Some(1), "{/match}"), 0..100),
            (arm("{:Circle(r, s)}", "Circle", &["r", "s"]), 10..20),
            (arm("{:Shape.Square(x)}", "Shape.Square", &["x"]), 20..30),
            (arm("{:Other.Dot}", "Other.Dot", &[]), 30..40),
            (arm("{:Blob}", "Blob", &[]), 40..50),
            (arm("{:Circle}", "Circle", &[]), 50..60),
        ],
        Some(shape),
        vec![("Shape".to_string(), 7), ("Other".to_string(), 9)],
    );
    assert_eq!(
        messages(&out),
        vec![
            "`Circle` binds 2 field(s) but declares 1",
            "`Other.Dot` is not a constructor of `Shape`",
            "`Blob` is not a constructor of `Shape`",
            "a second `{:Circle}` arm can never render",
            "`{#match cart}` does not cover `Dot`",
        ]
    );
    assert_eq!(out[0].code, "PW0307");
    assert_eq!(out[1].code, "PW0306");
    assert_eq!(out[1].repairs[0].description, "`Shape`'s constructors are `Circle`, `Square`, `Dot`");
}

#[test]
fn a_match_holds_only_arms_and_a_marker_stands_in_a_block() {
    let out = run(
        vec![
            (block("{#match cart}", vec![1, 2, 3], None, "{/match}"), 0..60),
            (Node::Text("  ".to_string()), 5..7),
            (Node::Text("hello".to_string()), 7..12),
            (arm("{:Ok(v)}", "Ok", &["v"]), 12..20),
            (marker(" {:else} ", None), 80..90),
        ],
        None,
        vec![],
    );
    assert_eq!(
        messages(&out),
        vec![
            "a `{#match}` holds only its arms: nothing may come before the first",
            "`{#match cart}` does not cover `Err`",
            "`{:else}` stands outside any block",
        ]
    );
    assert_eq!(out[2].primary_span, 80..90);
}

#[test]
fn a_match_on_a_type_that_is_no_sum_is_malformed() {
    let out = run(
        vec![(block("{#match cart}", vec![1], Some(1), "{/match}"), 0..40), (arm("{:Some(c)}", "Some", &["c"]), 5..15)],
        Some(SubjectType::Other("Int".to_string())),
        vec![],
    );
    assert_eq!(
        messages(&out),
        vec!["a `{#match}` takes an `Option`, a `Result` or a sum type apart, and its subject is `Int`"]
    );
}
