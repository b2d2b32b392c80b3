use felisp::data::Row;
use felisp::data::Table;
use felisp::table::execute_insert;
use felisp::table::execute_select;

fn create_dummy_table() -> Table {
    let xs: Vec<Option<Row>> = vec![None; 10];
    let mut t = Table {
        name: String::from("mytable1"),
        num_rows: 0,
        num_pages: 0,
        pages: vec![xs],
    };
    for i in 0..21 {
        execute_insert(
            &mut t,
            i,
            String::from(format!("apple{}", i)),
            String::from(format!("apple{}@orange{}", i, i)),
        );
    }
    println!("dummy table: rows: {}, num_pages: {}", t.num_rows, t.num_pages);
    t
}

#[test]
fn it_works() {
    assert_eq!(2 + 2, 4);
}

#[test]
fn serialize_it_works() {
    assert_eq!(2 + 2, 4);
}

#[test]
fn test_env_cccc() {
    assert_eq!(2, 2);
    println!("yay test11 ++++++++++");
}

#[test]
fn test_db_open() {
    // db open means we find a file and in a struct, store the open file
    // descriptor in our struct
}

#[test]
fn test_dummy_table() {
    let t = create_dummy_table();
    println!("{:?}", t);
}

#[test]
fn test_execute_insert() {
    let xs: Vec<Option<Row>> = vec![None; 10];
    let mut t = Table {
        name: String::from("mytable1"),
        num_rows: 0,
        num_pages: 0,
        pages: vec![xs],
    };
    for i in 0..22 {
        execute_insert(
            &mut t,
            i + 1,
            String::from(format!("apple{}", i + 1)),
            String::from(format!("apple{}@orange{}", i + 1, i + 1)),
        );
    }
}

#[test]
fn test_execute_select() {
    let t = create_dummy_table();
    let rows = execute_select(&t);
    assert_eq!(rows.len(), 21);
}

#[test]
fn test_basic_paging() {
    let row = Row {
        id: 10,
        email: String::from("email1"),
        username: String::from("user1"),
    };

    let xs: Vec<Option<Row>> = vec![None; 10];
    let mut t = Table {
        name: String::from("mytable1"),
        num_rows: 0,
        num_pages: 0,
        pages: vec![xs],
    };
    println!("t.rows: {:?}", t.pages[0]);
    for i in 0..10 {
        t.pages[0][i] = Some(row.clone());
        println!("i: {} row: {:?}", i, t.pages[0][i]);
    }
}
