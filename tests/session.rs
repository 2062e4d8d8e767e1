use minidb::meta::{do_meta_command, MetaCommandResult};
use minidb::session::{process_line, LineOutcome};
use minidb::statement::{
    classify_keyword, execute_insert, execute_select, execute_statement, format_row,
    prepare_statement, ExecuteResult, PrepareResult, Statement, StatementType,
};
use minidb::table::Table;
use minidb::text::{split_tokens, trim_ws};

fn run(table: &mut Table, line: &str) -> (LineOutcome, Vec<String>) {
    let mut out: Vec<String> = Vec::new();
    let r = process_line(line, table, &mut out);
    (r, out)
}

fn sorted(mut v: Vec<String>) -> Vec<String> {
    v.sort();
    v
}

#[test]
fn insert_then_select_prints_the_row() {
    let mut t = Table::new();
    let (r, out) = run(&mut t, "INSERT 7 alice wonderland");
    assert_eq!(r, LineOutcome::Continue);
    assert_eq!(out, vec!["Executed".to_string()]);
    let (_, out) = run(&mut t, "SELECT");
    assert_eq!(out, vec!["7  | alice | wonderland".to_string(), "Executed".to_string()]);
}

#[test]
fn reinsert_overwrites_the_row() {
    let mut t = Table::new();
    run(&mut t, "INSERT 1 alice x");
    run(&mut t, "INSERT 1 bob y");
    let (_, out) = run(&mut t, "SELECT");
    assert_eq!(out, vec!["1  | bob | y".to_string(), "Executed".to_string()]);
    assert_eq!(t.select_all().len(), 1);
}

#[test]
fn insert_with_two_arguments_fails_and_keeps_table() {
    let mut t = Table::new();
    run(&mut t, "INSERT 1 alice x");
    let (r, out) = run(&mut t, "INSERT x y");
    assert_eq!(r, LineOutcome::Continue);
    assert_eq!(out, vec!["Not enough arguments".to_string(), "Failed to Execute".to_string()]);
    let (_, out) = run(&mut t, "SELECT");
    assert_eq!(out, vec!["1  | alice | x".to_string(), "Executed".to_string()]);
}

#[test]
fn unknown_keyword_is_a_syntax_error() {
    let mut t = Table::new();
    let (r, out) = run(&mut t, "DELETE foo");
    assert_eq!(r, LineOutcome::Continue);
    assert_eq!(out, vec!["Syntax Error Near 'DELETE foo'".to_string()]);
    assert!(t.select_all().is_empty());
}

#[test]
fn empty_line_is_a_syntax_error() {
    let mut t = Table::new();
    let (_, out) = run(&mut t, "   \n");
    assert_eq!(out, vec!["Syntax Error Near ''".to_string()]);
}

#[test]
fn keyword_prefix_is_not_a_keyword() {
    let mut t = Table::new();
    let (_, out) = run(&mut t, "SELECTALL");
    assert_eq!(out, vec!["Syntax Error Near 'SELECTALL'".to_string()]);
}

#[test]
fn exit_ends_the_session() {
    let mut t = Table::new();
    run(&mut t, "INSERT 1 a b");
    let (r, out) = run(&mut t, "  .exit\n");
    assert_eq!(r, LineOutcome::Exit);
    assert!(out.is_empty());
}

#[test]
fn other_meta_command_is_unrecognized() {
    let mut t = Table::new();
    let (r, out) = run(&mut t, ".help");
    assert_eq!(r, LineOutcome::Continue);
    assert_eq!(out, vec!["Unrecognized command '.help'.".to_string()]);
    let (r, _) = run(&mut t, ".EXIT");
    assert_eq!(r, LineOutcome::Continue);
}

#[test]
fn select_on_empty_table() {
    let mut t = Table::new();
    let (r, out) = run(&mut t, "SELECT");
    assert_eq!(r, LineOutcome::Continue);
    assert_eq!(out, vec!["Executed".to_string()]);
}

#[test]
fn two_inserts_then_select_then_exit() {
    let mut t = Table::new();
    let (_, out) = run(&mut t, "INSERT 1 alice x");
    assert_eq!(out, vec!["Executed".to_string()]);
    let (_, out) = run(&mut t, "INSERT 2 bob y");
    assert_eq!(out, vec!["Executed".to_string()]);
    let (r, out) = run(&mut t, "SELECT");
    assert_eq!(r, LineOutcome::Continue);
    assert_eq!(out.len(), 3);
    assert_eq!(out[2], "Executed");
    assert_eq!(
        sorted(out[..2].to_vec()),
        vec!["1  | alice | x".to_string(), "2  | bob | y".to_string()]
    );
    let (r, _) = run(&mut t, ".exit");
    assert_eq!(r, LineOutcome::Exit);
}

#[test]
fn keywords_ignore_case_and_extra_tokens() {
    let mut t = Table::new();
    let (_, out) = run(&mut t, "iNsErT 5 x y z w");
    assert_eq!(out, vec!["Executed".to_string()]);
    let (_, out) = run(&mut t, "select everything please");
    assert_eq!(out, vec!["5  | x | y".to_string(), "Executed".to_string()]);
}

#[test]
fn tokens_split_on_any_whitespace() {
    let mut t = Table::new();
    let (_, out) = run(&mut t, "INSERT\t9   nine \u{3000}ix");
    assert_eq!(out, vec!["Executed".to_string()]);
    let rows = t.select_all();
    assert_eq!(rows, vec![("9".to_string(), ("nine".to_string(), "ix".to_string()))]);
}

#[test]
fn prepare_uses_unicode_uppercase() {
    let mut st = Statement { statement_type: StatementType::StatementUnknown };
    assert_eq!(prepare_statement("select", &mut st), PrepareResult::PrepareSuccess);
    assert_eq!(st.statement_type, StatementType::StatementSelect);
    // dotless i uppercases to I
    assert_eq!(prepare_statement("\u{131}nsert a b c", &mut st), PrepareResult::PrepareSuccess);
    assert_eq!(st.statement_type, StatementType::StatementInsert);
    assert_eq!(prepare_statement("update", &mut st), PrepareResult::PrepareUnrecognizedCommand);
    assert_eq!(st.statement_type, StatementType::StatementUnknown);
    assert_eq!(prepare_statement("", &mut st), PrepareResult::PrepareUnrecognizedCommand);
}

#[test]
fn classify_keyword_is_exact() {
    assert_eq!(classify_keyword("SELECT"), StatementType::StatementSelect);
    assert_eq!(classify_keyword(" INSERT\n"), StatementType::StatementInsert);
    assert_eq!(classify_keyword("select"), StatementType::StatementUnknown);
    assert_eq!(classify_keyword("INSERTS"), StatementType::StatementUnknown);
    assert_eq!(classify_keyword(""), StatementType::StatementUnknown);
}

#[test]
fn execute_insert_reports_missing_arguments() {
    let mut t = Table::new();
    let mut out: Vec<String> = Vec::new();
    assert_eq!(execute_insert("INSERT 1 a", &mut t, &mut out), ExecuteResult::ExecuteFailed);
    assert_eq!(out, vec!["Not enough arguments".to_string()]);
    assert!(t.select_all().is_empty());
    out.clear();
    assert_eq!(execute_insert("INSERT 1 a b", &mut t, &mut out), ExecuteResult::ExecuteSuccess);
    assert!(out.is_empty());
    assert_eq!(t.select_all().len(), 1);
}

#[test]
fn execute_select_lists_every_row() {
    let mut t = Table::new();
    t.insert("k".to_string(), ("v".to_string(), "w".to_string()));
    t.insert("j".to_string(), ("p".to_string(), "q".to_string()));
    let mut out: Vec<String> = Vec::new();
    assert_eq!(execute_select("SELECT", &t, &mut out), ExecuteResult::ExecuteSuccess);
    assert_eq!(sorted(out), vec!["j  | p | q".to_string(), "k  | v | w".to_string()]);
}

#[test]
fn execute_statement_dispatches_on_kind() {
    let mut t = Table::new();
    let mut out: Vec<String> = Vec::new();
    let ins = Statement { statement_type: StatementType::StatementInsert };
    assert_eq!(execute_statement(&ins, "INSERT a b c", &mut t, &mut out), ExecuteResult::ExecuteSuccess);
    let sel = Statement { statement_type: StatementType::StatementSelect };
    assert_eq!(execute_statement(&sel, "SELECT", &mut t, &mut out), ExecuteResult::ExecuteSuccess);
    assert_eq!(out, vec!["a  | b | c".to_string()]);
}

#[test]
fn meta_command_dispatch() {
    assert_eq!(do_meta_command(".exit"), MetaCommandResult::MetaCommandExit);
    assert_eq!(do_meta_command(".exit "), MetaCommandResult::MetaCommandUnrecognizedCommand);
    assert_eq!(do_meta_command(".tables"), MetaCommandResult::MetaCommandUnrecognizedCommand);
}

#[test]
fn format_row_layout() {
    let row = ("alice".to_string(), "x".to_string());
    assert_eq!(format_row(&"1".to_string(), &row), "1  | alice | x");
}

#[test]
fn split_and_trim() {
    assert_eq!(split_tokens("  a\tb  c "), vec!["a".to_string(), "b".to_string(), "c".to_string()]);
    assert!(split_tokens(" \n ").is_empty());
    assert_eq!(trim_ws("\u{a0} x y \r\n"), "x y");
    assert_eq!(trim_ws("   "), "");
}

#[test]
fn table_insert_and_select_all() {
    let mut t = Table::new();
    assert!(t.select_all().is_empty());
    t.insert("id".to_string(), ("a".to_string(), "b".to_string()));
    t.insert("id".to_string(), ("c".to_string(), "d".to_string()));
    t.insert("other".to_string(), ("e".to_string(), "f".to_string()));
    let mut rows = t.select_all();
    rows.sort();
    assert_eq!(
        rows,
        vec![
            ("id".to_string(), ("c".to_string(), "d".to_string())),
            ("other".to_string(), ("e".to_string(), "f".to_string())),
        ]
    );
}
