use pw_core::diagnostics::{Detector, Diagnostic};
use pw_core::findings::settle;

fn d(code: &'static str, start: usize, end: usize, message: &str) -> Diagnostic {
    Diagnostic::error(code, "an invariant", Detector::DeclarationRule, message, start..end)
}

#[test]
fn one_finding_keeps_its_first_diagnostic() {
    let out = settle(vec![
        d("PW0600", 10, 20, "from annotations"),
        d("PW0600", 10, 20, "from the member relation"),
        d("PW0600", 10, 21, "another span"),
        d("PW0601", 10, 20, "another code"),
    ]);
    let messages: Vec<&str> = out.iter().map(|x| x.message.as_str()).collect();
    assert_eq!(messages, vec!["from annotations", "another span", "another code"]);
}

#[test]
fn settled_diagnostics_are_in_source_order_and_stable() {
    let out = settle(vec![
        d("PW0001", 30, 31, "c"),
        d("PW0002", 5, 9, "a"),
        d("PW0003", 30, 40, "d"),
        d("PW0004", 5, 6, "b"),
        d("PW0005", 0, 1, "first"),
    ]);
    let messages: Vec<&str> = out.iter().map(|x| x.message.as_str()).collect();
    assert_eq!(messages, vec!["first", "a", "b", "c", "d"]);
}

#[test]
fn nothing_to_settle_is_nothing() {
    assert!(settle(Vec::new()).is_empty());
}
