//! Statements: classifying a line as `SELECT` or `INSERT`, and executing it
//! against the table.
use vstd::prelude::*;
use vstd::string::StringExecFns;
use crate::table::{Record, Row, RowView, Table, record_views};
use crate::text::{split_tokens, tokens, trim_ws, trimmed, views};

verus! {

/// The kind of a statement.
#[derive(Clone, Copy, Debug, PartialEq, Eq, Structural)]
pub enum StatementType {
    StatementUnknown,
    StatementSelect,
    StatementInsert,
}

/// A classified line.
#[derive(Clone, Copy, Debug, PartialEq, Eq, Structural)]
pub struct Statement {
    pub statement_type: StatementType,
}

/// How classifying a line ended.
#[derive(Clone, Copy, Debug, PartialEq, Eq, Structural)]
pub enum PrepareResult {
    PrepareSuccess,
    PrepareUnrecognizedCommand,
}

/// How executing a statement ended.
#[derive(Clone, Copy, Debug, PartialEq, Eq, Structural)]
pub enum ExecuteResult {
    ExecuteSuccess,
    ExecuteFailed,
}

/// The uppercase form of `s` by the Unicode case mapping.
pub uninterp spec fn upper_of(s: Seq<char>) -> Seq<char>;

/// Relies on `str::to_uppercase`: the uppercase form of a string, which depends
/// on its characters alone.
#[verifier::external_body]
fn to_upper(s: &str) -> (r: String)
    ensures
        r@ == upper_of(s@),
{
    s.to_uppercase()
}

/// The statement kind named by a keyword that is already in uppercase and trimmed.
pub open spec fn keyword_type(k: Seq<char>) -> StatementType {
    if k == "SELECT"@ {
        StatementType::StatementSelect
    } else if k == "INSERT"@ {
        StatementType::StatementInsert
    } else {
        StatementType::StatementUnknown
    }
}

/// The statement kind of a line: its first token, in uppercase and trimmed,
/// must be exactly `SELECT` or `INSERT`.
pub open spec fn statement_type_of(line: Seq<char>) -> StatementType {
    let t = tokens(line);
    if t.len() == 0 {
        StatementType::StatementUnknown
    } else {
        keyword_type(trimmed(upper_of(t[0])))
    }
}

/// The outcome of classifying a line of the given kind.
pub open spec fn prepare_result_of(t: StatementType) -> PrepareResult {
    if t == StatementType::StatementUnknown {
        PrepareResult::PrepareUnrecognizedCommand
    } else {
        PrepareResult::PrepareSuccess
    }
}

/// Classifies an uppercased keyword: it is trimmed and compared exactly with
/// `SELECT` and `INSERT`.
pub fn classify_keyword(upper: &str) -> (r: StatementType)
    ensures
        r == keyword_type(trimmed(upper@)),
{
    let k = String::from_str(trim_ws(upper));
    if k == String::from_str("SELECT") {
        StatementType::StatementSelect
    } else if k == String::from_str("INSERT") {
        StatementType::StatementInsert
    } else {
        StatementType::StatementUnknown
    }
}

/// Classifies `user_command` by its first whitespace-separated token, compared
/// without regard to case.
pub fn prepare_statement(user_command: &str, statement: &mut Statement) -> (r: PrepareResult)
    ensures
        final(statement).statement_type == statement_type_of(user_command@),
        r == prepare_result_of(statement_type_of(user_command@)),
{
    let parts = split_tokens(user_command);
    let kind = if parts.len() == 0 {
        StatementType::StatementUnknown
    } else {
        assert(parts@[0]@ == tokens(user_command@)[0]);
        let upper = to_upper(parts[0].as_str());
        classify_keyword(upper.as_str())
    };
    statement.statement_type = kind;
    match kind {
        StatementType::StatementUnknown => PrepareResult::PrepareUnrecognizedCommand,
        _ => PrepareResult::PrepareSuccess,
    }
}

/// The line printed for a record: the identifier, then the two fields.
pub open spec fn row_line(id: Seq<char>, row: RowView) -> Seq<char> {
    id + "  | "@ + row.0 + " | "@ + row.1
}

/// The lines printed for the records `r`, one for each, in their order.
pub open spec fn select_lines(r: Seq<Record>) -> Seq<Seq<char>> {
    r.map_values(|e: Record| row_line(e.0, e.1))
}

/// The line printed when an insertion has too few arguments.
pub open spec fn not_enough_line() -> Seq<char> {
    "Not enough arguments"@
}

/// The table after an insertion with the tokens `t`: the second token becomes
/// the identifier and the third and fourth the row, when there are at least four.
pub open spec fn insert_into(m: Map<Seq<char>, RowView>, t: Seq<Seq<char>>) -> Map<Seq<char>, RowView> {
    if t.len() < 4 {
        m
    } else {
        m.insert(t[1], (t[2], t[3]))
    }
}

/// Formats the line printed for a record.
pub fn format_row(id: &String, row: &Row) -> (r: String)
    ensures
        r@ == row_line(id@, row@),
{
    let mut line = String::from_str(id.as_str());
    line.append("  | ");
    line.append(row.0.as_str());
    line.append(" | ");
    line.append(row.1.as_str());
    line
}

/// Inserts the record that `statement` gives: `INSERT <id> <field1> <field2>`,
/// with any further tokens ignored. With fewer than four tokens it reports
/// that and leaves the table as it is.
pub fn execute_insert(statement: &str, table: &mut Table, out: &mut Vec<String>) -> (r: ExecuteResult)
    requires
        old(table).wf(),
    ensures
        final(table).wf(),
        final(table)@ == insert_into(old(table)@, tokens(statement@)),
        tokens(statement@).len() < 4 ==> {
            &&& r == ExecuteResult::ExecuteFailed
            &&& *final(table) == *old(table)
            &&& views(final(out)@) == views(old(out)@).push(not_enough_line())
        },
        tokens(statement@).len() >= 4 ==> {
            &&& r == ExecuteResult::ExecuteSuccess
            &&& final(out)@ == old(out)@
        },
{
    let arguments = split_tokens(statement);
    if arguments.len() < 4 {
        let ghost before = out@;
        out.push(String::from_str("Not enough arguments"));
        assert(views(out@) =~= views(before).push(not_enough_line()));
        return ExecuteResult::ExecuteFailed;
    }
    let id = arguments[1].clone();
    let row = (arguments[2].clone(), arguments[3].clone());
    assert(id@ == tokens(statement@)[1]);
    assert(row@ == (tokens(statement@)[2], tokens(statement@)[3]));
    table.insert(id, row);
    ExecuteResult::ExecuteSuccess
}

/// Prints every record of the table, one line each, in the order in which the
/// table keeps them. Whatever follows the keyword is ignored.
pub fn execute_select(_statement: &str, table: &Table, out: &mut Vec<String>) -> (r: ExecuteResult)
    ensures
        r == ExecuteResult::ExecuteSuccess,
        views(final(out)@) == views(old(out)@) + select_lines(table.records()),
{
    let records = table.select_all();
    let n = records.len();
    let ghost start = out@;
    let mut i: usize = 0;
    while i < n
        invariant
            i <= n,
            n == records@.len(),
            record_views(records@) == table.records(),
            views(out@) == views(start) + select_lines(table.records()).take(i as int),
        decreases n - i,
    {
        let line = format_row(&records[i].0, &records[i].1);
        assert(line@ == select_lines(table.records())[i as int]);
        let ghost before = out@;
        out.push(line);
        assert(views(out@) =~= views(before).push(line@));
        assert(select_lines(table.records()).take(i + 1) =~= select_lines(table.records()).take(
            i as int,
        ).push(line@));
        i = i + 1;
    }
    assert(select_lines(table.records()).take(n as int) =~= select_lines(table.records()));
    ExecuteResult::ExecuteSuccess
}

/// Executes a classified statement. A statement of unknown kind is never
/// handed here: classification stops it first.
pub fn execute_statement(statement: &Statement, user_input: &str, table: &mut Table, out: &mut Vec<String>) -> (r: ExecuteResult)
    requires
        statement.statement_type != StatementType::StatementUnknown,
        old(table).wf(),
    ensures
        final(table).wf(),
        statement.statement_type == StatementType::StatementInsert ==> {
            &&& final(table)@ == insert_into(old(table)@, tokens(user_input@))
            &&& tokens(user_input@).len() < 4 ==> {
                &&& r == ExecuteResult::ExecuteFailed
                &&& *final(table) == *old(table)
                &&& views(final(out)@) == views(old(out)@).push(not_enough_line())
            }
            &&& tokens(user_input@).len() >= 4 ==> {
                &&& r == ExecuteResult::ExecuteSuccess
                &&& final(out)@ == old(out)@
            }
        },
        statement.statement_type == StatementType::StatementSelect ==> {
            &&& r == ExecuteResult::ExecuteSuccess
            &&& *final(table) == *old(table)
            &&& views(final(out)@) == views(old(out)@) + select_lines(old(table).records())
        },
{
    match statement.statement_type {
        StatementType::StatementInsert => execute_insert(user_input, table, out),
        StatementType::StatementSelect => execute_select(user_input, table, out),
        StatementType::StatementUnknown => {
            assert(false);
            ExecuteResult::ExecuteFailed
        },
    }
}

} // verus!
