use surrealdb_jni::error::{check_exception, return_exception, Exception, SurrealError};
use surrealdb_jni::hashing::hash_code;
use surrealdb_jni::kind::JniTypes;
use surrealdb_jni::query::{
    collect_single_rows, convert_up_type, create_query, create_targets_query, delete_target_query,
    delete_things_query, insert_query, insert_relation_query, insert_relations_query, join,
    not_a_table, param_name, param_names_of, relate_content_query, relate_query, select_query,
    single_row, unexpected_result, up_query,
};

fn surfaced(e: SurrealError) -> (String, String) {
    let x = e.into_exception();
    (x.class, x.msg)
}

#[test]
fn exception_classes_and_messages() {
    assert_eq!(
        surfaced(SurrealError::Exception("jvm broke".to_string())),
        ("java/lang/Exception".to_string(), "jvm broke".to_string())
    );
    assert_eq!(
        surfaced(SurrealError::NullPointerException(JniTypes::Value)),
        ("java/lang/NullPointerException".to_string(), "Value instance not found".to_string())
    );
    assert_eq!(
        surfaced(SurrealError::WrongType { expected: JniTypes::ArrayIter, found: JniTypes::Response }),
        (
            "com/surrealdb/SurrealException".to_string(),
            "Wrong type. Expected ArrayIterator but got Response".to_string()
        )
    );
    assert_eq!(
        surfaced(SurrealError::NoSuchElementException),
        ("java/util/NoSuchElementException".to_string(), "No more elements".to_string())
    );
    assert_eq!(
        surfaced(SurrealError::SurrealDB("engine said no".to_string())),
        ("com/surrealdb/SurrealException".to_string(), "engine said no".to_string())
    );
    assert_eq!(
        surfaced(SurrealError::SurrealDBJni("odd".to_string())),
        ("com/surrealdb/SurrealException".to_string(), "odd".to_string())
    );
}

#[test]
fn pending_exception_is_not_masked() {
    let (out, thrown) = SurrealError::NoSuchElementException.exception(Some(true), 0i64);
    assert_eq!(out, 0);
    assert!(thrown.is_none());
    let (out, thrown) = SurrealError::NoSuchElementException.exception(None, false);
    assert!(!out);
    assert!(thrown.is_none());
    let (out, thrown) = SurrealError::NoSuchElementException.exception(Some(false), -1i32);
    assert_eq!(out, -1);
    let x = thrown.unwrap();
    assert_eq!(x.class, "java/util/NoSuchElementException");
}

#[test]
fn check_exception_decisions() {
    let t = || Some(Exception { class: "c".to_string(), msg: "m".to_string() });
    let (failed, thrown) = check_exception(Some(true), t());
    assert!(failed && thrown.is_none());
    let (failed, thrown) = check_exception(Some(false), t());
    assert!(failed);
    assert_eq!(thrown.unwrap().msg, "m");
    let (failed, thrown) = check_exception(Some(false), None);
    assert!(!failed && thrown.is_none());
    let (failed, thrown) = check_exception(None, t());
    assert!(!failed && thrown.is_none());
    assert!(return_exception(Some(true), t()).is_none());
    assert_eq!(return_exception(Some(false), t()).unwrap().class, "c");
}

#[test]
fn up_type_keywords() {
    assert_eq!(convert_up_type(1), Ok("CONTENT"));
    assert_eq!(convert_up_type(2), Ok("MERGE"));
    assert_eq!(convert_up_type(3), Ok("PATCH"));
    assert_eq!(convert_up_type(7), Err(SurrealError::SurrealDBJni("Unexpected up type: 7".to_string())));
    assert_eq!(convert_up_type(-12), Err(SurrealError::SurrealDBJni("Unexpected up type: -12".to_string())));
    assert_eq!(
        convert_up_type(i32::MIN),
        Err(SurrealError::SurrealDBJni("Unexpected up type: -2147483648".to_string()))
    );
    assert_eq!(convert_up_type(0), Err(SurrealError::SurrealDBJni("Unexpected up type: 0".to_string())));
}

#[test]
fn query_texts() {
    let targets = vec!["person".to_string(), "company:1".to_string()];
    assert_eq!(select_query(&targets), "SELECT * FROM person,company:1");
    assert_eq!(create_query("person:1"), "CREATE person:1 CONTENT $val");
    assert_eq!(
        create_targets_query("person", 2),
        "CREATE person CONTENT $i0;\nCREATE person CONTENT $i1"
    );
    assert_eq!(create_targets_query("person", 0), "");
    assert_eq!(up_query("update", "person:1", "MERGE"), "update person:1 MERGE $val");
    let recs = vec!["{a:1}".to_string(), "{b:2}".to_string()];
    assert_eq!(insert_query("t", &recs), "INSERT INTO t [ {a:1} , {b:2} ]");
    assert_eq!(insert_relations_query("likes", &recs), "INSERT RELATION INTO likes [ {a:1} , {b:2} ]");
    assert_eq!(insert_relation_query("likes"), "INSERT RELATION INTO likes $val");
    assert_eq!(relate_query("likes"), "RELATE $from->likes->$to");
    assert_eq!(relate_content_query("likes", "{w:1}"), "RELATE $from->likes->$to CONTENT {w:1}");
    assert_eq!(delete_target_query("person"), "DELETE FROM person");
    assert_eq!(delete_things_query(3), "DELETE $t0,$t1,$t2");
    assert_eq!(param_name("i", 12), "i12");
    assert_eq!(param_name("t", 0), "t0");
    assert_eq!(param_name("t", 1_000_000_007), "t1000000007");
    assert_eq!(param_names_of("t", 2), vec!["t0".to_string(), "t1".to_string()]);
    assert_eq!(join(&Vec::new(), ","), "");
    assert_eq!(join(&vec!["a".to_string()], ","), "a");
}

#[test]
fn failure_messages_carry_rendering() {
    assert_eq!(unexpected_result("[]"), SurrealError::SurrealDBJni("Unexpected result: []".to_string()));
    assert_eq!(
        not_a_table("1 + 1"),
        SurrealError::SurrealDBJni("The expression is not a table: 1 + 1".to_string())
    );
}

#[test]
fn single_row_rules() {
    assert_eq!(single_row(Some(vec![4])), Some(4));
    assert_eq!(single_row::<i32>(Some(vec![])), None);
    assert_eq!(single_row(Some(vec![1, 2])), None);
    assert_eq!(single_row::<i32>(None), None);
    assert_eq!(collect_single_rows(vec![Some(vec![1]), None, Some(vec![3])]), Ok(vec![1, 3]));
    assert_eq!(collect_single_rows(vec![Some(vec![1]), Some(vec![2, 2]), Some(vec![])]), Err((1, vec![2, 2])));
    assert_eq!(collect_single_rows::<i32>(vec![]), Ok(vec![]));
}

#[test]
fn hash_codes_fold_to_low_word() {
    assert_eq!(hash_code(0), 0);
    assert_eq!(hash_code(5), 5);
    assert_eq!(hash_code(0xFFFF_FFFF), -1);
    assert_eq!(hash_code(0x1_8000_0000), i32::MIN);
    assert_eq!(hash_code(0x1234_5678_7FFF_FFFF), i32::MAX);
}
