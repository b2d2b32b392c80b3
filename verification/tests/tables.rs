use felisp::data::FelispExp;
use felisp::data::Row;
use felisp::data::Table;
use felisp::env::default_env;
use felisp::eval::eval;
use felisp::eval::parse_eval;
use felisp::table::execute_insert;
use felisp::table::execute_select;
use felisp::table::table_wf_check;

fn empty_table() -> Table {
    Table {
        name: String::from("mytable1"),
        num_rows: 0,
        num_pages: 0,
        pages: Vec::new(),
    }
}

fn sample_row(id: i32) -> Row {
    Row {
        id,
        username: format!("user{}", id),
        email: format!("email{}", id),
    }
}

#[test]
fn test_paging_after_22_inserts() {
    let mut t = empty_table();
    for i in 0..22 {
        execute_insert(&mut t, i + 1, format!("user{}", i), format!("email{}", i));
    }
    assert_eq!(t.num_rows, 22);
    assert_eq!(t.num_pages, 3);
    assert_eq!(t.pages.len(), 3);
    // rows 0-9 on page 0, 10-19 on page 1, 20-21 on page 2
    assert!(t.pages[0].iter().all(|s| s.is_some()));
    assert!(t.pages[1].iter().all(|s| s.is_some()));
    assert_eq!(t.pages[2].iter().filter(|s| s.is_some()).count(), 2);
    // the row with logical index 13 sits at page 1, slot 3
    let row = t.pages[1][3].as_ref().unwrap();
    assert_eq!(row.username, "user13");
    assert!(table_wf_check(&t));
}

#[test]
fn test_select_lists_occupied_slots_in_order() {
    let mut page: Vec<Option<Row>> = vec![None; 10];
    page[0] = Some(sample_row(1));
    page[5] = Some(sample_row(2));
    page[9] = Some(sample_row(3));
    let t = Table {
        name: String::from("mytable1"),
        num_rows: 3,
        num_pages: 1,
        pages: vec![page],
    };
    let rows = execute_select(&t);
    assert_eq!(rows.len(), 3);
    assert_eq!(rows[0].id, 1);
    assert_eq!(rows[1].id, 2);
    assert_eq!(rows[2].id, 3);
}

#[test]
fn test_select_does_not_mutate() {
    let mut t = empty_table();
    for i in 0..13 {
        execute_insert(&mut t, i + 1, format!("user{}", i), format!("email{}", i));
    }
    let rows_before = execute_select(&t);
    let num_rows = t.num_rows;
    let num_pages = t.num_pages;
    let rows_after = execute_select(&t);
    assert_eq!(t.num_rows, num_rows);
    assert_eq!(t.num_pages, num_pages);
    assert_eq!(rows_before.len(), rows_after.len());
    for (a, b) in rows_before.iter().zip(rows_after.iter()) {
        assert_eq!(a.id, b.id);
        assert_eq!(a.username, b.username);
        assert_eq!(a.email, b.email);
    }
}

#[test]
fn test_insert_form_stringifies_unevaluated_forms() {
    let mut arena = default_env();
    let mut shown: Vec<Row> = Vec::new();
    let r = parse_eval(
        "(insert mytable1 foo bar)".to_string(),
        &mut arena,
        0,
        100,
        &mut shown,
    )
        .unwrap();
    assert!(matches!(r, FelispExp::Symbol(s) if s == "mytable1"));
    // the freshly inserted row is displayed: fixed id 1, forms as text
    assert_eq!(shown.len(), 1);
    assert_eq!(shown[0].id, 1);
    assert_eq!(shown[0].username, "foo");
    assert_eq!(shown[0].email, "bar");
    // the grown table was re-bound under its name
    let t = parse_eval("mytable1".to_string(), &mut arena, 0, 100, &mut shown).unwrap();
    match t {
        FelispExp::Table(t) => {
            assert_eq!(t.num_rows, 1);
            assert_eq!(t.num_pages, 1);
        }
        _ => panic!("expected the table"),
    }
}

#[test]
fn test_insert_form_evaluates_forms_as_text_even_for_lists() {
    let mut arena = default_env();
    let mut shown: Vec<Row> = Vec::new();
    parse_eval(
        "(insert mytable1 (+ 1 2) 9)".to_string(),
        &mut arena,
        0,
        100,
        &mut shown,
    )
        .unwrap();
    assert_eq!(shown.len(), 1);
    assert_eq!(shown[0].username, "(+,1,2)");
    assert_eq!(shown[0].email, "9");
}

#[test]
fn test_select_form_displays_rows() {
    let mut arena = default_env();
    let mut shown: Vec<Row> = Vec::new();
    parse_eval("(insert mytable1 a b)".to_string(), &mut arena, 0, 100, &mut shown).unwrap();
    parse_eval("(insert mytable1 c d)".to_string(), &mut arena, 0, 100, &mut shown).unwrap();
    shown.clear();
    let r = parse_eval("(select mytable1)".to_string(), &mut arena, 0, 100, &mut shown)
        .unwrap();
    assert!(matches!(r, FelispExp::Symbol(s) if s == "mytable1"));
    assert_eq!(shown.len(), 2);
    assert_eq!(shown[0].username, "a");
    assert_eq!(shown[1].username, "c");
}

#[test]
fn test_select_form_on_non_table_is_a_no_op() {
    let mut arena = default_env();
    let mut shown: Vec<Row> = Vec::new();
    let r = parse_eval("(select 5)".to_string(), &mut arena, 0, 100, &mut shown).unwrap();
    assert!(matches!(r, FelispExp::Number(5)));
    assert!(shown.is_empty());
}

#[test]
fn test_insert_shape_errors() {
    let mut arena = default_env();
    let mut shown: Vec<Row> = Vec::new();
    let e1 = parse_eval("(insert)".to_string(), &mut arena, 0, 100, &mut shown).unwrap_err();
    assert_eq!(e1.message(), "expected first form");
    let e2 = parse_eval("(insert mytable1)".to_string(), &mut arena, 0, 100, &mut shown)
        .unwrap_err();
    assert_eq!(e2.message(), "expected second form");
    let e3 = parse_eval("(insert mytable1 a)".to_string(), &mut arena, 0, 100, &mut shown)
        .unwrap_err();
    assert_eq!(e3.message(), "expected second form");
    let e4 = parse_eval("(select)".to_string(), &mut arena, 0, 100, &mut shown).unwrap_err();
    assert_eq!(e4.message(), "expected first form");
}

#[test]
fn test_table_value_is_terminal() {
    // a table expression evaluates to itself, bound anywhere or not
    let mut arena = default_env();
    let mut shown: Vec<Row> = Vec::new();
    let mut t = empty_table();
    t.name = String::from("unbound");
    execute_insert(&mut t, 2, String::from("u"), String::from("e"));
    let r = eval(&FelispExp::Table(t), &mut arena, 0, 10, &mut shown).unwrap();
    match r {
        FelispExp::Table(rt) => {
            assert_eq!(rt.name, "unbound");
            assert_eq!(rt.num_rows, 1);
        }
        _ => panic!("expected the table back"),
    }
    assert!(shown.is_empty());
}

#[test]
fn test_table_wf_check_rejects_bad_geometry() {
    let mut t = empty_table();
    assert!(table_wf_check(&t));
    t.num_pages = 1;
    assert!(!table_wf_check(&t));
    t.num_pages = 0;
    t.pages.push(vec![None; 9]);
    t.num_pages = 1;
    assert!(!table_wf_check(&t));
    let mut t2 = empty_table();
    t2.num_rows = -1;
    assert!(!table_wf_check(&t2));
}

#[test]
fn test_table_display_header() {
    let mut t = empty_table();
    execute_insert(&mut t, 4, String::from("u"), String::from("e"));
    let exp = FelispExp::Table(t);
    assert_eq!(exp.display_string(), "Table: Name: mytable1 Rows: 1");
}
