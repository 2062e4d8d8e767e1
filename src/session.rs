//! One command cycle: a line from the operator, routed to the meta-command
//! dispatcher or through classification and execution, and the lines to print.
use vstd::prelude::*;
use vstd::string::{StrSliceExecFns, StringExecFns};
use crate::meta::{MetaCommandResult, do_meta_command, exit_command};
use crate::statement::{
    ExecuteResult, PrepareResult, Statement, StatementType, execute_statement, insert_into,
    not_enough_line, prepare_statement, select_lines, statement_type_of,
};
use crate::table::Table;
use crate::text::{tokens, trim_ws, trimmed, views};

verus! {

/// Whether the session goes on after a line.
#[derive(Clone, Copy, Debug, PartialEq, Eq, Structural)]
pub enum LineOutcome {
    Continue,
    /// The operator asked to end the session: exit with status 0.
    Exit,
}

/// The line starts with the meta-command marker `.`.
pub open spec fn is_meta(l: Seq<char>) -> bool {
    l.len() > 0 && l[0] == '.'
}

/// The report of a meta-command that is not known.
pub open spec fn unrecognized_line(l: Seq<char>) -> Seq<char> {
    "Unrecognized command '"@ + l + "'."@
}

/// The report of a line whose first token is no statement keyword.
pub open spec fn syntax_error_line(l: Seq<char>) -> Seq<char> {
    "Syntax Error Near '"@ + l + "'"@
}

/// The report of a statement that was carried out.
pub open spec fn executed_line() -> Seq<char> {
    "Executed"@
}

/// The report of a statement that could not be carried out.
pub open spec fn failed_line() -> Seq<char> {
    "Failed to Execute"@
}

/// Handles one line from the operator against the table, appending to `out`
/// the lines to print. The line is trimmed first; a line that starts with `.`
/// is a meta-command, any other is a statement.
pub fn process_line(input: &str, table: &mut Table, out: &mut Vec<String>) -> (r: LineOutcome)
    requires
        old(table).wf(),
    ensures
        final(table).wf(),
        ({
            let l = trimmed(input@);
            &&& is_meta(l) ==> {
                &&& *final(table) == *old(table)
                &&& l == exit_command() ==> r == LineOutcome::Exit && final(out)@ == old(out)@
                &&& l != exit_command() ==> r == LineOutcome::Continue && views(final(out)@)
                    == views(old(out)@).push(unrecognized_line(l))
            }
            &&& !is_meta(l) ==> r == LineOutcome::Continue
            &&& !is_meta(l) && statement_type_of(l) == StatementType::StatementUnknown ==> {
                &&& *final(table) == *old(table)
                &&& views(final(out)@) == views(old(out)@).push(syntax_error_line(l))
            }
            &&& !is_meta(l) && statement_type_of(l) == StatementType::StatementInsert ==> {
                &&& final(table)@ == insert_into(old(table)@, tokens(l))
                &&& tokens(l).len() < 4 ==> *final(table) == *old(table) && views(final(out)@)
                    == views(old(out)@).push(not_enough_line()).push(failed_line())
                &&& tokens(l).len() >= 4 ==> views(final(out)@) == views(old(out)@).push(
                    executed_line(),
                )
            }
            &&& !is_meta(l) && statement_type_of(l) == StatementType::StatementSelect ==> {
                &&& *final(table) == *old(table)
                &&& views(final(out)@) == (views(old(out)@) + select_lines(old(table).records())).push(
                    executed_line(),
                )
            }
        }),
{
    let line = trim_ws(input);
    if line.unicode_len() > 0 && line.get_char(0) == '.' {
        match do_meta_command(line) {
            MetaCommandResult::MetaCommandExit => {
                return LineOutcome::Exit;
            },
            MetaCommandResult::MetaCommandUnrecognizedCommand => {
                let mut msg = String::from_str("Unrecognized command '");
                msg.append(line);
                msg.append("'.");
                let ghost before = out@;
                out.push(msg);
                assert(views(out@) =~= views(before).push(unrecognized_line(line@)));
                return LineOutcome::Continue;
            },
        }
    }
    let mut statement = Statement { statement_type: StatementType::StatementUnknown };
    match prepare_statement(line, &mut statement) {
        PrepareResult::PrepareSuccess => {
            let done = execute_statement(&statement, line, table, out);
            let ghost middle = out@;
            match done {
                ExecuteResult::ExecuteSuccess => {
                    out.push(String::from_str("Executed"));
                },
                ExecuteResult::ExecuteFailed => {
                    out.push(String::from_str("Failed to Execute"));
                },
            }
            assert(views(out@) =~= views(middle).push(out@.last()@));
        },
        PrepareResult::PrepareUnrecognizedCommand => {
            let mut msg = String::from_str("Syntax Error Near '");
            msg.append(line);
            msg.append("'");
            let ghost before = out@;
            out.push(msg);
            assert(views(out@) =~= views(before).push(syntax_error_line(line@)));
        },
    }
    LineOutcome::Continue
}

} // verus!
