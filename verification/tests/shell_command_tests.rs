use kirin::shell::classify;
use kirin::text::to_chars;
use kirin::{Column, Database, LineKind, MemoryStorage, Outcome, Shell, Table, ValueType};

fn shell() -> Shell {
    let columns = vec![
        Column { name: "id".into(), col_type: ValueType::Int },
        Column { name: "name".into(), col_type: ValueType::Text },
    ];
    let mut db = Database::new();
    db.add_table("users", Table::new(columns, MemoryStorage::new()));
    db.add_table("empty", Table::new(vec![], MemoryStorage::new()));
    Shell::new(db)
}

#[test]
fn help_lists_the_commands() {
    let mut shell = shell();
    assert_eq!(
        shell.execute_command(".help"),
        "Available commands: .help, .exit, .tables, .backend, .schema\n"
    );
    assert_eq!(
        shell.execute_command("  .help me  "),
        "Available commands: .help, .exit, .tables, .backend, .schema\n"
    );
}

#[test]
fn tables_lists_the_names() {
    let mut shell = shell();
    assert_eq!(shell.execute_command(".tables"), "Active Tables:  users empty\n");
    let mut none = Shell::new(Database::new());
    assert_eq!(none.execute_command(".tables"), "Active Tables: \n");
}

#[test]
fn backend_names_the_storage() {
    let mut shell = shell();
    assert_eq!(shell.execute_command(".backend"), "Currently using in-memory storage\n");
}

#[test]
fn schema_writes_the_columns() {
    let mut shell = shell();
    assert_eq!(shell.execute_command(".schema users"), "| id <Integer> | name <Text> |\n");
    assert_eq!(shell.execute_command(".schema users more"), "| id <Integer> | name <Text> |\n");
    assert_eq!(shell.execute_command(".schema empty"), "|\n");
}

#[test]
fn schema_without_a_name_gets_the_expected_form() {
    let mut shell = shell();
    assert_eq!(shell.execute_command(".schema"), "Expected format: .schema {table}\n");
    assert_eq!(shell.execute_command(" .schema  "), "Expected format: .schema {table}\n");
}

#[test]
fn schema_of_an_unknown_table_names_it() {
    let mut shell = shell();
    assert_eq!(shell.execute_command(".schema ghost"), "Table (ghost) not found\n");
}

#[test]
fn any_other_directive_is_unknown() {
    let mut shell = shell();
    for input in [".nope", ".", "", ".exit", ".HELP", ".schemas users", "help"] {
        assert_eq!(shell.execute_command(input), "Unknown command, type .help\n", "{:?}", input);
    }
}

#[test]
fn a_vertical_tab_does_not_split_the_words_of_a_directive() {
    let mut shell = shell();
    assert_eq!(shell.execute_command(".schema\u{0B}users"), "Unknown command, type .help\n");
    assert_eq!(shell.execute_command(".schema\tusers"), "| id <Integer> | name <Text> |\n");
}

#[test]
fn lines_are_told_apart_by_how_they_begin() {
    let kind = |line: &str| classify(&to_chars(line), &to_chars(&line.to_uppercase()));
    assert_eq!(kind(".exit"), LineKind::Exit);
    assert_eq!(kind(".exit now"), LineKind::Directive);
    assert_eq!(kind(".help"), LineKind::Directive);
    assert_eq!(kind("."), LineKind::Directive);
    assert_eq!(kind("SELECT * FROM users"), LineKind::Select);
    assert_eq!(kind("select"), LineKind::Select);
    assert_eq!(kind("INSERT INTO users VALUES (1)"), LineKind::Insert);
    assert_eq!(kind("insert into"), LineKind::Insert);
    assert_eq!(kind("INSERT users"), LineKind::Other);
    assert_eq!(kind(""), LineKind::Other);
    assert_eq!(kind("hello"), LineKind::Other);
    assert_eq!(kind("exit"), LineKind::Other);
}

#[test]
fn exit_ends_the_session() {
    let mut shell = shell();
    assert_eq!(shell.process_line(".exit"), Outcome::Exit);
    assert_eq!(shell.process_line("  .exit \n"), Outcome::Exit);
}

#[test]
fn other_lines_are_passed_over_without_a_word() {
    let mut shell = shell();
    assert_eq!(shell.process_line(""), Outcome::Ignored);
    assert_eq!(shell.process_line("hello there"), Outcome::Ignored);
    assert_eq!(shell.process_line("DELETE FROM users"), Outcome::Ignored);
    assert_eq!(shell.process_line("exit"), Outcome::Ignored);
}

#[test]
fn a_line_is_carried_out_by_its_kind() {
    let mut shell = shell();
    assert_eq!(
        shell.process_line(".backend\n"),
        Outcome::Reply("Currently using in-memory storage\n".into())
    );
    assert_eq!(
        shell.process_line(".bogus"),
        Outcome::Reply("Unknown command, type .help\n".into())
    );
    assert_eq!(
        shell.process_line("INSERT INTO users VALUES (1, Alice)\n"),
        Outcome::Reply("Inserted row with id 0\n".into())
    );
    assert_eq!(
        shell.process_line("insert into users VALUES (2, Bob)\n"),
        Outcome::Reply("Inserted row with id 1\n".into())
    );
    assert_eq!(
        shell.process_line("INSERT INTO users VALUES (3)"),
        Outcome::Reply("Insert failed: type mismatch or column count mismatch\n".into())
    );
    match shell.process_line("select * FROM users") {
        Outcome::Reply(text) => {
            assert!(text.starts_with("(2 rows)\n| id <Integer> | name <Text> |\n"));
            assert!(text.contains("| 1 | Alice |\n"));
            assert!(text.contains("| 2 | Bob |\n"));
        }
        other => panic!("a reply was expected, not {:?}", other),
    }
    assert_eq!(
        shell.process_line("SELECT * FRM users"),
        Outcome::Reply("Missing FROM clause\n".into())
    );
}

#[test]
fn the_database_can_be_had_back() {
    let mut shell = shell();
    shell.handle_insert("INSERT INTO users VALUES (1, Alice)");
    assert_eq!(shell.database().get_table_names().len(), 2);
    assert!(shell.database().check_room());
    let mut db = shell.into_database();
    assert_eq!(db.get_table("users").unwrap().iter().len(), 1);
}
