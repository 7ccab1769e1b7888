use pw_core::backend::plan::{module_plan, ImportCall};
use pw_core::backend::wasm::Encoding;

fn call(id: usize, q: &str, in_world: bool) -> ImportCall {
    ImportCall { id, qualified: q.to_string(), in_world }
}

#[test]
fn the_imports_come_in_order_of_first_use_each_once() {
    let calls = vec![call(2, "store.get", true), call(0, "log.info", true), call(2, "store.get", true)];
    let r = module_plan("app", "export", Some(1), "checkout", 1, true, 1, &calls, &vec![0, 1, 2]);
    assert_eq!(r, Encoding::Encoded(vec![2, 0]));
}

#[test]
fn a_world_without_the_export_blocks() {
    let r = module_plan("app", "export", None, "checkout", 1, true, 1, &vec![], &vec![]);
    assert_eq!(r, Encoding::Blocked { why: "the world `app` exports no function `export`".to_string() });
}

#[test]
fn the_parameter_counts_must_agree() {
    let r = module_plan("app", "export", Some(2), "checkout", 3, true, 1, &vec![], &vec![]);
    assert_eq!(r, Encoding::Blocked { why: "`checkout` has 3 parameters and the world's `export` has 2".to_string() });
}

#[test]
fn a_function_needs_one_entry_block() {
    let r = module_plan("app", "export", Some(0), "checkout", 0, false, 0, &vec![], &vec![]);
    assert_eq!(r, Encoding::Blocked { why: "`checkout` has no entry block".to_string() });
    let r = module_plan("app", "export", Some(0), "checkout", 0, true, 3, &vec![], &vec![]);
    assert_eq!(
        r,
        Encoding::Unsupported {
            construct: "a function with more than one block",
            reason: "`checkout` has 3 blocks; the component backend encodes straight-line bodies".to_string(),
        }
    );
}

#[test]
fn an_import_must_be_declared_and_imported_by_the_world() {
    let r = module_plan("app", "export", Some(0), "checkout", 0, true, 1, &vec![call(5, "mail.send", true)], &vec![0]);
    assert_eq!(r, Encoding::Blocked { why: "`checkout` calls `mail.send` and the program declares no such callable".to_string() });
    let r = module_plan("app", "export", Some(0), "checkout", 0, true, 1, &vec![call(0, "mail.send", false)], &vec![0]);
    assert_eq!(r, Encoding::Blocked { why: "`checkout` calls `mail.send` and the world `app` does not import it".to_string() });
}
