use pw_core::contexts::{at_render_time, context_of, effects_belong_here, elsewhere, Context, Elsewhere};
use pw_core::hir::{Attr, AttrValue, Body, Expr, Node};

#[test]
fn a_later_time_is_not_another_declaration() {
    assert!(Context::Query.belongs_to_another_declaration());
    assert!(!Context::Query.runs_later());

    assert!(!Context::FramePhase.belongs_to_another_declaration());
    assert!(Context::FramePhase.runs_later());

    assert!(!Context::Interaction.belongs_to_another_declaration());
    assert!(Context::Interaction.runs_later());

    assert!(!Context::Render.belongs_to_another_declaration());
    assert!(!Context::Render.runs_later());
}

#[test]
fn only_the_contexts_that_produce_a_value_yield_one() {
    for c in [Context::Query, Context::Command, Context::Subscription, Context::StreamTask] {
        assert!(c.yields_value(), "{c:?} produces a value for this body");
    }
    for c in [Context::Render, Context::Interaction, Context::FramePhase, Context::NamedDeclaration] {
        assert!(!c.yields_value(), "{c:?} does not");
    }
}

/// The span of the first occurrence of `needle` in `src`, from `from` on.
fn span_of(src: &str, needle: &str, from: usize) -> std::ops::Range<usize> {
    let at = from + src[from..].find(needle).expect("present");
    at..at + needle.len()
}

#[test]
fn naming_a_declaration_is_foreign_but_calling_one_is_not() {
    let src = "module m\n\
               \n\
               materialize F(id: Int) {\n\
                   placement edge\n\
                   depends_on Store(id)\n\
                   view { Store(id) }\n\
               }\n";
    // The body, as lowered: its block's statements, the view's block, and the
    // names and calls inside them.
    let view_at = src.find("view").expect("view clause");
    let body = Body {
        exprs: vec![
            (Expr::Block { stmts: vec![1, 2, 3, 5, 6] }, 0..src.len()),
            (Expr::Name("placement".to_string()), span_of(src, "placement", 0)),
            (Expr::Name("edge".to_string()), span_of(src, "edge", 0)),
            (Expr::Name("depends_on".to_string()), span_of(src, "depends_on", 0)),
            (Expr::Name("Store".to_string()), span_of(src, "Store", 0)),
            (Expr::Call { callee: 4, args: vec![] }, span_of(src, "Store(id)", 0)),
            (Expr::Keyword { keyword: "view".to_string(), justification: None, attribution: None }, view_at..src.len() - 2),
            (Expr::Block { stmts: vec![9] }, span_of(src, "{ Store(id) }", view_at)),
            (Expr::Name("Store".to_string()), span_of(src, "Store", view_at)),
            (Expr::Call { callee: 8, args: vec![] }, span_of(src, "Store(id)", view_at)),
        ],
        nodes: vec![],
    };
    let regions = elsewhere(&body);
    let named: Vec<&Elsewhere> = regions.iter().filter(|r| r.context == Context::NamedDeclaration).collect();

    assert_eq!(named.len(), 1, "only the `depends_on` member");
    assert_eq!(&src[named[0].span.start..named[0].span.end], "Store(id)");
    assert!(
        named[0].span.start < view_at,
        "the foreign span is the one in `depends_on`, not the one in `view`"
    );
}

#[test]
fn a_handler_inside_a_frame_is_an_interaction() {
    let src = "module m\n\
               \n\
               component C() {\n\
                   frame {\n\
                       measure { self.height() }\n\
                   }\n\
               }\n";
    let frame = src.find("frame").expect("frame");
    let body = Body {
        exprs: vec![
            (Expr::Keyword { keyword: "frame".to_string(), justification: None, attribution: None }, frame..src.len() - 2),
            (Expr::Keyword { keyword: "measure".to_string(), justification: None, attribution: None }, span_of(src, "measure { self.height() }", 0)),
            (Expr::Call { callee: 3, args: vec![] }, span_of(src, "self.height()", 0)),
            (Expr::Name("self.height".to_string()), span_of(src, "self.height", 0)),
        ],
        nodes: vec![],
    };
    let regions = elsewhere(&body);
    let inner = src.find("self.height()").expect("the call");
    let span = inner..inner + "self.height()".len();
    assert_eq!(context_of(&regions, &span), Context::FramePhase);
    assert!(!at_render_time(&regions, &span));
    assert!(effects_belong_here(&regions, &span), "a frame phase's effects are still this declaration's");
}

#[test]
fn the_innermost_region_wins() {
    let regions = vec![
        Elsewhere { span: 0..100, context: Context::FramePhase },
        Elsewhere { span: 10..20, context: Context::Interaction },
        Elsewhere { span: 10..20, context: Context::Query },
        Elsewhere { span: 50..60, context: Context::Command },
    ];
    assert_eq!(context_of(&regions, &(12..15)), Context::Interaction);
    assert_eq!(context_of(&regions, &(30..40)), Context::FramePhase);
    assert_eq!(context_of(&regions, &(200..201)), Context::Render);
    assert!(!effects_belong_here(&regions, &(55..56)));
    assert!(at_render_time(&regions, &(55..56)));
    assert!(at_render_time(&[], &(0..0)));
}

#[test]
fn handlers_streams_and_keywords_run_elsewhere() {
    let body = Body {
        exprs: vec![
            (Expr::Template { nodes: vec![0, 1, 2] }, 0..100),
            (Expr::Lambda { body: 2 }, 10..20),
            (Expr::Other, 12..18),
            (Expr::Keyword { keyword: "query".to_string(), justification: None, attribution: None }, 30..40),
            (Expr::Keyword { keyword: "subscribe".to_string(), justification: None, attribution: None }, 41..45),
            (Expr::Keyword { keyword: "unsafe.partial_match".to_string(), justification: Some("why".to_string()), attribution: None }, 46..50),
            (Expr::Other, 60..70),
        ],
        nodes: vec![
            (Node::Element { tag: "button".to_string(), attrs: vec![Attr { name: "on:press".to_string(), value: AttrValue::Expr(1), span: 0..0 }], children: vec![] }, 5..25),
            (Node::Element { tag: "stream".to_string(), attrs: vec![
                Attr { name: "query".to_string(), value: AttrValue::Expr(6), span: 0..0 },
                Attr { name: "class".to_string(), value: AttrValue::Static("x".to_string()), span: 0..0 },
            ], children: vec![] }, 55..75),
            (Node::Text("hi".to_string()), 80..82),
        ],
    };
    let regions = elsewhere(&body);
    let got: Vec<(std::ops::Range<usize>, Context)> = regions.iter().map(|r| (r.span.clone(), r.context)).collect();
    assert_eq!(
        got,
        vec![
            (10..20, Context::Interaction),
            (60..70, Context::StreamTask),
            (30..40, Context::Query),
            (41..45, Context::Subscription),
        ]
    );
    assert_eq!(Context::StreamTask.describe(), "a streamed region, after the shell is sent");
}
