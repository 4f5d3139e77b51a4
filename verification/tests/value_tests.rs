use cljtrans::ast::{clone_val, val_eq, AstVal};

#[test]
fn nil_equals_empty_collections() {
    assert!(val_eq(&AstVal::AstNil, &AstVal::new_list()));
    assert!(val_eq(&AstVal::new_vec(), &AstVal::AstNil));
    assert!(val_eq(&AstVal::new_map(), &AstVal::AstNil));
    assert!(val_eq(&AstVal::new_meta(), &AstVal::AstNil));
    assert!(val_eq(&AstVal::AstNil, &AstVal::AstNil));
}

#[test]
fn atoms_compare_by_value() {
    assert!(val_eq(&AstVal::AstInt(3), &AstVal::AstInt(3)));
    assert!(!val_eq(&AstVal::AstInt(3), &AstVal::AstInt(4)));
    assert!(val_eq(
        &AstVal::AstSymbol("a".to_string()),
        &AstVal::AstSymbol("a".to_string())
    ));
    assert!(!val_eq(
        &AstVal::AstString("a".to_string()),
        &AstVal::AstSymbol("a".to_string())
    ));
    assert!(val_eq(&AstVal::AstBool(true), &AstVal::AstBool(true)));
    assert!(val_eq(
        &AstVal::AstFloat("1.5".to_string()),
        &AstVal::AstFloat("1.5".to_string())
    ));
}

#[test]
fn nonempty_list_is_not_nil() {
    let mut l = AstVal::new_list();
    l.push(AstVal::AstInt(1));
    assert!(!val_eq(&l, &AstVal::AstNil));
}

#[test]
fn push_pop_len() {
    let mut l = AstVal::new_list();
    l.push(AstVal::AstInt(1));
    l.push(AstVal::AstInt(2));
    assert_eq!(l.len(), 2);
    assert!(matches!(l.pop(), AstVal::AstInt(2)));
    assert_eq!(l.len(), 1);
    assert!(matches!(l.pop(), AstVal::AstInt(1)));
    assert!(matches!(l.pop(), AstVal::AstNil));
}

#[test]
fn first_and_rest() {
    let mut l = AstVal::new_list();
    l.push(AstVal::AstInt(1));
    l.push(AstVal::AstInt(2));
    l.push(AstVal::AstInt(3));
    assert!(matches!(l.first(), AstVal::AstInt(1)));
    match l.rest() {
        AstVal::AstList(v) => {
            assert_eq!(v.len(), 2);
            assert!(matches!(v[0], AstVal::AstInt(2)));
        }
        v => panic!("unexpected: {:?}", v),
    }
    let one = {
        let mut m = AstVal::new_list();
        m.push(AstVal::AstInt(9));
        m
    };
    assert!(matches!(one.rest(), AstVal::AstNil));
    assert!(matches!(AstVal::new_list().first(), AstVal::AstNil));
}

#[test]
fn cons_prepends() {
    let mut l = AstVal::new_list();
    l.push(AstVal::AstInt(2));
    let c = l.cons(AstVal::AstInt(1));
    match c {
        AstVal::AstList(v) => {
            assert_eq!(v.len(), 2);
            assert!(matches!(v[0], AstVal::AstInt(1)));
            assert!(matches!(v[1], AstVal::AstInt(2)));
        }
        v => panic!("unexpected: {:?}", v),
    }
    let mut m = AstVal::new_list();
    m.push(AstVal::AstInt(2));
    m.cons_mut(AstVal::AstInt(1));
    assert!(matches!(m.first(), AstVal::AstInt(1)));
}

#[test]
fn list_type_reads_head_symbol() {
    let mut l = AstVal::new_list();
    l.push(AstVal::AstSymbol("f".to_string()));
    l.push(AstVal::AstInt(1));
    assert_eq!(l.list_type(), Some("f".to_string()));
    assert_eq!(AstVal::AstInt(1).list_type(), None);
    assert_eq!(AstVal::new_list().list_type(), None);
    let mut bad = AstVal::new_list();
    bad.push(AstVal::AstInt(1));
    assert_eq!(bad.list_type(), None);
}

#[test]
fn map_to_meta_keeps_entries() {
    let mut m = AstVal::new_map();
    m.insert(AstVal::AstKeyword("a".to_string()), AstVal::AstInt(1));
    match m.map_to_meta() {
        AstVal::AstMeta(entries) => assert_eq!(entries.len(), 1),
        v => panic!("unexpected: {:?}", v),
    }
}

#[test]
fn leaf_predicates() {
    assert!(AstVal::AstInt(1).is_leaf());
    assert!(!AstVal::AstInt(1).is_leaf_list());
    assert!(AstVal::AstInt(1).is_leaf() && !AstVal::AstInt(1).is_list());

    let mut quoted = AstVal::new_list();
    quoted.push(AstVal::AstSymbol("'".to_string()));
    quoted.push(AstVal::AstInt(1));
    let mut outer = AstVal::new_list();
    outer.push(AstVal::AstInt(1));
    outer.push(quoted);
    assert!(outer.is_leaf_list());
    assert!(outer.is_leaf());
    assert!(outer.is_list());

    let mut inner_plain = AstVal::new_list();
    inner_plain.push(AstVal::AstInt(2));
    let mut outer2 = AstVal::new_list();
    outer2.push(inner_plain);
    assert!(!outer2.is_leaf_list());
    assert!(!outer2.is_leaf());
}

#[test]
fn text_of_atoms() {
    assert_eq!(AstVal::AstBool(true).text(), "true");
    assert_eq!(AstVal::AstBool(false).text(), "false");
    assert_eq!(AstVal::AstInt(42).text(), "42");
    assert_eq!(AstVal::AstInt(-5).text(), "-5");
    assert_eq!(AstVal::AstInt(i32::MIN).text(), "-2147483648");
    assert_eq!(AstVal::AstFloat("1.5".to_string()).text(), "1.5");
    assert_eq!(AstVal::AstSymbol("s".to_string()).text(), "s");
    assert_eq!(AstVal::AstKeyword("k".to_string()).text(), "k");
    assert_eq!(AstVal::AstCommentLine("c".to_string()).text(), "c");
}

#[test]
fn clone_is_deep() {
    let mut l = AstVal::new_list();
    l.push(AstVal::AstSymbol("a".to_string()));
    let c = clone_val(&l);
    match (&l, &c) {
        (AstVal::AstList(v1), AstVal::AstList(v2)) => {
            assert_eq!(v1.len(), v2.len());
            assert!(val_eq(&v1[0], &v2[0]));
        }
        _ => panic!("clone changed the shape"),
    }
    let c2 = l.clone();
    assert!(matches!(c2, AstVal::AstList(_)));
}
