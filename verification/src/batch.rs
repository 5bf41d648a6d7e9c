//! The textual batch for a command with output parameters. Such a command
//! cannot bind its parameters to slots: each output parameter needs a variable
//! declared on the server, so every value is written into the text as a
//! literal.

use vstd::prelude::*;
use crate::codec::{sql_literal, sql_value_to_literal};
use crate::command::{SerializedCommand, SerializedParam};
use crate::error::MssqlError;
use crate::query::{
    bind_batch, declare_type, is_bind_outcome, is_declare_outcome, is_param_outcome, opt_text,
    param_to_sql_value, param_value, row_count_probe, sql_type_for_declare, BoundStatement,
};
use crate::rewrite::{strip_markers, texts};
use crate::text::{lowercase, push_text, str_eq, trim_start};
use crate::value::JsonView;

verus! {

/// The name of a parameter without its leading markers.
pub open spec fn clean_name(p: SerializedParam) -> Seq<char> {
    trim_start(p.name@, '@')
}

/// The type with which an output parameter is declared: the one its hint maps
/// to, or unbounded national text where it has no hint.
pub open spec fn declared_type(p: SerializedParam) -> Option<Seq<char>> {
    match p.param_type {
        Some(t) => declare_type(lowercase(t@)),
        None => Some("NVARCHAR(MAX)"@),
    }
}

/// The literal that stands for a parameter's value, where the value converts.
pub open spec fn literal_of(p: SerializedParam) -> Option<Seq<char>> {
    match param_value(p.value@, opt_text(p.param_type)) {
        Some(v) => Some(sql_literal(v)),
        None => None,
    }
}

/// The statements that prepare one parameter: none for an input parameter; for
/// an output parameter its declaration and, where it has a value, the
/// assignment of that value.
pub open spec fn declaration(p: SerializedParam) -> Option<Seq<char>> {
    if !p.output {
        Some(Seq::empty())
    } else {
        match declared_type(p) {
            None => None,
            Some(ty) => {
                let declare = "DECLARE @"@ + clean_name(p) + " "@ + ty + ";\n"@;
                if p.value@ == JsonView::Null {
                    Some(declare)
                } else {
                    match literal_of(p) {
                        None => None,
                        Some(lit) => Some(
                            declare + "SET @"@ + clean_name(p) + " = "@ + lit + ";\n"@,
                        ),
                    }
                }
            },
        }
    }
}

/// The statements that prepare all parameters, in declaration order.
pub open spec fn declarations(params: Seq<SerializedParam>) -> Option<Seq<char>>
    decreases params.len(),
{
    if params.len() == 0 {
        Some(Seq::empty())
    } else {
        match (declarations(params.drop_last()), declaration(params.last())) {
            (Some(before), Some(this)) => Some(before + this),
            _ => None,
        }
    }
}

/// The names of the output parameters, in declaration order.
pub open spec fn output_names(params: Seq<SerializedParam>) -> Seq<Seq<char>>
    decreases params.len(),
{
    if params.len() == 0 {
        Seq::empty()
    } else if params.last().output {
        output_names(params.drop_last()).push(clean_name(params.last()))
    } else {
        output_names(params.drop_last())
    }
}

/// One argument of a procedure call: an output parameter passes its variable,
/// an input parameter its literal.
pub open spec fn call_argument(p: SerializedParam) -> Option<Seq<char>> {
    if p.output {
        Some("@"@ + clean_name(p) + " = @"@ + clean_name(p) + " OUTPUT"@)
    } else {
        match literal_of(p) {
            Some(lit) => Some("@"@ + clean_name(p) + " = "@ + lit),
            None => None,
        }
    }
}

/// The arguments of a procedure call, separated by a comma and a space.
pub open spec fn call_arguments(params: Seq<SerializedParam>) -> Option<Seq<char>>
    decreases params.len(),
{
    if params.len() == 0 {
        Some(Seq::empty())
    } else {
        match (call_arguments(params.drop_last()), call_argument(params.last())) {
            (Some(before), Some(this)) => Some(
                if params.len() == 1 {
                    this
                } else {
                    before + ", "@ + this
                },
            ),
            _ => None,
        }
    }
}

/// The projection of one declared variable under its own name.
pub open spec fn projection(name: Seq<char>) -> Seq<char> {
    "@"@ + name + " AS ["@ + name + "]"@
}

/// The projections of the declared variables, separated by a comma and a
/// space.
pub open spec fn projections(names: Seq<Seq<char>>) -> Seq<char>
    decreases names.len(),
{
    if names.len() == 0 {
        Seq::empty()
    } else if names.len() == 1 {
        projection(names.last())
    } else {
        projections(names.drop_last()) + ", "@ + projection(names.last())
    }
}

/// The statement that reads the declared variables back; nothing where none
/// was declared.
pub open spec fn output_selection(names: Seq<Seq<char>>) -> Seq<char> {
    if names.len() == 0 {
        Seq::empty()
    } else {
        "SELECT "@ + projections(names) + ";\n"@
    }
}

/// Whether a command calls a stored procedure.
pub open spec fn is_procedure_call(cmd: SerializedCommand) -> bool {
    cmd.command_type@ == "stored_procedure"@
}

/// The call itself: for a stored procedure its name with the arguments, for
/// any other command its own text.
pub open spec fn call_text(cmd: SerializedCommand) -> Option<Seq<char>> {
    if is_procedure_call(cmd) {
        match call_arguments(cmd.params@) {
            Some(args) => Some("EXEC "@ + cmd.sql@ + " "@ + args + ";\n"@),
            None => None,
        }
    } else {
        Some(cmd.sql@ + ";\n"@)
    }
}

/// The whole batch: declarations, call, selection of the declared variables,
/// and the row-count probe. `None` where a hint is unknown or a value does not
/// convert.
pub open spec fn output_batch(cmd: SerializedCommand) -> Option<Seq<char>> {
    match (declarations(cmd.params@), call_text(cmd)) {
        (Some(decls), Some(call)) => Some(
            decls + call + output_selection(output_names(cmd.params@))
                + "SELECT @@ROWCOUNT AS __rc;\n"@,
        ),
        _ => None,
    }
}

/// Whether `e` is the error that declaring the output parameter `p` reports:
/// that its hint is unknown or, where the hint is known, that its value does
/// not convert.
pub open spec fn is_declaration_error(e: MssqlError, p: SerializedParam) -> bool {
    if p.param_type is Some && declare_type(lowercase(p.param_type.unwrap()@)) is None {
        is_declare_outcome(Err(e), lowercase(p.param_type.unwrap()@))
    } else {
        is_param_outcome(Err(e), p)
    }
}

/// Whether `k` is the first parameter that cannot be prepared.
pub open spec fn declarations_fail_at(params: Seq<SerializedParam>, k: int) -> bool {
    0 <= k < params.len() && declarations(params.take(k)) is Some && declaration(params[k]) is None
}

/// Whether `k` is the first parameter that cannot be written as an argument.
pub open spec fn call_arguments_fail_at(params: Seq<SerializedParam>, k: int) -> bool {
    0 <= k < params.len() && call_arguments(params.take(k)) is Some && call_argument(params[k])
        is None
}

/// Whether `e` is the error of the first parameter that cannot be prepared.
pub open spec fn is_declarations_error(e: MssqlError, params: Seq<SerializedParam>) -> bool {
    exists|k: int| #[trigger] declarations_fail_at(params, k) && is_declaration_error(e, params[k])
}

/// Whether `e` is the error of the first parameter that cannot be written as
/// an argument.
pub open spec fn is_call_error(e: MssqlError, params: Seq<SerializedParam>) -> bool {
    exists|k: int| #[trigger] call_arguments_fail_at(params, k) && is_param_outcome(Err(e), params[k])
}

/// Whether `e` is the error that building the batch for `cmd` reports: that
/// of the first parameter that cannot be prepared or, where all can, that of
/// the first parameter that cannot be written as an argument of the call.
pub open spec fn is_batch_error(e: MssqlError, cmd: SerializedCommand) -> bool {
    if declarations(cmd.params@) is None {
        is_declarations_error(e, cmd.params@)
    } else {
        is_call_error(e, cmd.params@)
    }
}

/// A batch for a command with output parameters: its text, and the names of
/// the variables it declares.
#[derive(Debug)]
pub struct OutputBatch {
    pub sql: String,
    pub output_names: Vec<String>,
}

fn push_declaration(out: &mut String, p: &SerializedParam) -> (r: Result<(), MssqlError>)
    ensures
        match r {
            Ok(_) => declaration(*p) matches Some(t) && final(out)@ == old(out)@ + t,
            Err(e) => declaration(*p) is None && is_declaration_error(e, *p),
        },
{
    if !p.output {
        assert(out@ == out@ + Seq::<char>::empty());
        return Ok(());
    }
    let sql_type: &str = match &p.param_type {
        Some(t) => match sql_type_for_declare(t.as_str()) {
            Ok(ty) => ty,
            Err(e) => {
                return Err(e);
            },
        },
        None => "NVARCHAR(MAX)",
    };
    let clean = strip_markers(p.name.as_str());
    let literal = if p.value.is_null() {
        None
    } else {
        match param_to_sql_value(p) {
            Ok(v) => Some(sql_value_to_literal(&v)),
            Err(e) => {
                return Err(e);
            },
        }
    };
    push_text(out, "DECLARE @");
    push_text(out, clean.as_str());
    push_text(out, " ");
    push_text(out, sql_type);
    push_text(out, ";\n");
    let ghost declare = "DECLARE @"@ + clean_name(*p) + " "@ + sql_type@ + ";\n"@;
    assert(out@ == old(out)@ + declare);
    match literal {
        Some(lit) => {
            push_text(out, "SET @");
            push_text(out, clean.as_str());
            push_text(out, " = ");
            push_text(out, lit.as_str());
            push_text(out, ";\n");
            assert(out@ == old(out)@ + (declare + "SET @"@ + clean_name(*p) + " = "@ + lit@ + ";\n"@));
        },
        None => {},
    }
    Ok(())
}

fn push_declarations(out: &mut String, params: &Vec<SerializedParam>) -> (r: Result<
    Vec<String>,
    MssqlError,
>)
    ensures
        match r {
            Ok(names) => declarations(params@) matches Some(t) && final(out)@ == old(out)@ + t
                && texts(names@) == output_names(params@),
            Err(e) => declarations(params@) is None && is_declarations_error(e, params@),
        },
{
    let mut names: Vec<String> = Vec::new();
    let mut i: usize = 0;
    while i < params.len()
        invariant
            i <= params.len(),
            declarations(params@.take(i as int)) matches Some(t) && out@ == old(out)@ + t,
            texts(names@) == output_names(params@.take(i as int)),
        decreases params.len() - i,
    {
        let p = &params[i];
        proof {
            let next = params@.take(i + 1);
            assert(next.drop_last() == params@.take(i as int));
            assert(next.last() == *p);
        }
        match push_declaration(out, p) {
            Ok(_) => {},
            Err(e) => {
                proof {
                    lemma_declarations_fail(params@, i as int);
                    assert(declarations_fail_at(params@, i as int));
                }
                return Err(e);
            },
        }
        if p.output {
            names.push(strip_markers(p.name.as_str()));
            assert(texts(names@) =~= output_names(params@.take(i + 1)));
        }
        i += 1;
    }
    assert(params@.take(params.len() as int) == params@);
    Ok(names)
}

/// Once a parameter cannot be prepared, neither can any longer list.
pub proof fn lemma_declarations_fail(params: Seq<SerializedParam>, k: int)
    requires
        0 <= k < params.len(),
        declaration(params[k]) is None,
    ensures
        declarations(params) is None,
    decreases params.len(),
{
    if k < params.len() - 1 {
        lemma_declarations_fail(params.drop_last(), k);
    }
}

/// Once an argument cannot be written, neither can any longer list.
pub proof fn lemma_call_arguments_fail(params: Seq<SerializedParam>, k: int)
    requires
        0 <= k < params.len(),
        call_argument(params[k]) is None,
    ensures
        call_arguments(params) is None,
    decreases params.len(),
{
    if k < params.len() - 1 {
        lemma_call_arguments_fail(params.drop_last(), k);
    }
}

fn push_call_argument(out: &mut String, p: &SerializedParam) -> (r: Result<(), MssqlError>)
    ensures
        match r {
            Ok(_) => call_argument(*p) matches Some(t) && final(out)@ == old(out)@ + t,
            Err(e) => call_argument(*p) is None && is_param_outcome(Err(e), *p),
        },
{
    let clean = strip_markers(p.name.as_str());
    if p.output {
        push_text(out, "@");
        push_text(out, clean.as_str());
        push_text(out, " = @");
        push_text(out, clean.as_str());
        push_text(out, " OUTPUT");
        assert(out@ == old(out)@ + ("@"@ + clean_name(*p) + " = @"@ + clean_name(*p) + " OUTPUT"@));
    } else {
        let lit = match param_to_sql_value(p) {
            Ok(v) => sql_value_to_literal(&v),
            Err(e) => {
                return Err(e);
            },
        };
        push_text(out, "@");
        push_text(out, clean.as_str());
        push_text(out, " = ");
        push_text(out, lit.as_str());
        assert(out@ == old(out)@ + ("@"@ + clean_name(*p) + " = "@ + lit@));
    }
    Ok(())
}

fn push_call_arguments(out: &mut String, params: &Vec<SerializedParam>) -> (r: Result<
    (),
    MssqlError,
>)
    ensures
        match r {
            Ok(_) => call_arguments(params@) matches Some(t) && final(out)@ == old(out)@ + t,
            Err(e) => call_arguments(params@) is None && is_call_error(e, params@),
        },
{
    let mut i: usize = 0;
    assert(out@ == out@ + Seq::<char>::empty());
    while i < params.len()
        invariant
            i <= params.len(),
            call_arguments(params@.take(i as int)) matches Some(t) && out@ == old(out)@ + t,
        decreases params.len() - i,
    {
        let p = &params[i];
        let ghost before = call_arguments(params@.take(i as int)).unwrap();
        proof {
            let next = params@.take(i + 1);
            assert(next.drop_last() == params@.take(i as int));
            assert(next.last() == *p);
        }
        if i > 0 {
            push_text(out, ", ");
        }
        match push_call_argument(out, p) {
            Ok(_) => {},
            Err(e) => {
                proof {
                    lemma_call_arguments_fail(params@, i as int);
                    assert(call_arguments_fail_at(params@, i as int));
                }
                return Err(e);
            },
        }
        proof {
            let this = call_argument(*p).unwrap();
            if i > 0 {
                assert(out@ == old(out)@ + (before + ", "@ + this));
            } else {
                assert(before =~= Seq::<char>::empty());
                assert(out@ == old(out)@ + this);
            }
        }
        i += 1;
    }
    assert(params@.take(params.len() as int) == params@);
    Ok(())
}

fn push_projections(out: &mut String, names: &Vec<String>)
    ensures
        final(out)@ == old(out)@ + projections(texts(names@)),
{
    let mut i: usize = 0;
    assert(out@ == out@ + Seq::<char>::empty());
    while i < names.len()
        invariant
            i <= names.len(),
            out@ == old(out)@ + projections(texts(names@).take(i as int)),
        decreases names.len() - i,
    {
        let ghost before = projections(texts(names@).take(i as int));
        let ghost name = names@[i as int]@;
        proof {
            let next = texts(names@).take(i + 1);
            assert(next.drop_last() == texts(names@).take(i as int));
            assert(next.last() == name);
        }
        if i > 0 {
            push_text(out, ", ");
        }
        push_text(out, "@");
        push_text(out, names[i].as_str());
        push_text(out, " AS [");
        push_text(out, names[i].as_str());
        push_text(out, "]");
        proof {
            if i > 0 {
                assert(out@ == old(out)@ + (before + ", "@ + projection(name)));
            } else {
                assert(before =~= Seq::<char>::empty());
                assert(out@ == old(out)@ + projection(name));
            }
        }
        i += 1;
    }
    assert(texts(names@).take(names.len() as int) == texts(names@));
}

/// Whether any parameter of the command is an output parameter.
pub fn has_output_params(cmd: &SerializedCommand) -> (r: bool)
    ensures
        r == wants_output(*cmd),
{
    let mut i: usize = 0;
    while i < cmd.params.len()
        invariant
            i <= cmd.params.len(),
            forall|k: int| 0 <= k < i ==> !(#[trigger] cmd.params[k]).output,
        decreases cmd.params.len() - i,
    {
        if cmd.params[i].output {
            return true;
        }
        i += 1;
    }
    false
}

/// Builds the batch for a command with output parameters.
///
/// First each output parameter is declared, and assigned where it has a
/// value; then comes the call, then the selection of the declared variables,
/// then the row-count probe. Fails with the error of the first output
/// parameter whose hint is unknown or whose value does not convert or, where
/// there is none, with that of the first argument of a procedure call whose
/// value does not convert.
pub fn build_output_batch(cmd: &SerializedCommand) -> (r: Result<OutputBatch, MssqlError>)
    ensures
        match r {
            Ok(b) => output_batch(*cmd) == Some(b.sql@) && texts(b.output_names@) == output_names(
                cmd.params@,
            ),
            Err(e) => output_batch(*cmd) is None && is_batch_error(e, *cmd),
        },
{
    let mut batch = String::new();
    let names = push_declarations(&mut batch, &cmd.params)?;
    let ghost decls = batch@;
    assert(declarations(cmd.params@) == Some(decls)) by {
        assert(batch@ =~= declarations(cmd.params@).unwrap());
    }
    if str_eq(cmd.command_type.as_str(), "stored_procedure") {
        push_text(&mut batch, "EXEC ");
        push_text(&mut batch, cmd.sql.as_str());
        push_text(&mut batch, " ");
        push_call_arguments(&mut batch, &cmd.params)?;
        push_text(&mut batch, ";\n");
        assert(batch@ == decls + call_text(*cmd).unwrap());
    } else {
        push_text(&mut batch, cmd.sql.as_str());
        push_text(&mut batch, ";\n");
        assert(batch@ == decls + call_text(*cmd).unwrap());
    }
    let ghost called = batch@;
    if names.len() > 0 {
        push_text(&mut batch, "SELECT ");
        push_projections(&mut batch, &names);
        push_text(&mut batch, ";\n");
        assert(batch@ == called + output_selection(texts(names@)));
    } else {
        assert(batch@ == called + output_selection(texts(names@)));
    }
    push_text(&mut batch, "SELECT @@ROWCOUNT AS __rc;\n");
    Ok(OutputBatch { sql: batch, output_names: names })
}

/// How a command that may return several result sets is sent.
#[derive(Debug)]
pub enum ExecPlan {
    /// With its parameters bound to slots, and the row-count probe appended.
    Bound(BoundStatement),
    /// As a textual batch that declares its output parameters.
    Batch(OutputBatch),
}

/// Whether a command has an output parameter.
pub open spec fn wants_output(cmd: SerializedCommand) -> bool {
    exists|k: int| 0 <= k < cmd.params.len() && (#[trigger] cmd.params[k]).output
}

/// Decides how a command that may return several result sets is sent: as a
/// textual batch where it has an output parameter, with bound parameters
/// otherwise.
pub fn plan_exec(cmd: &SerializedCommand) -> (r: Result<ExecPlan, MssqlError>)
    ensures
        wants_output(*cmd) ==> match r {
            Ok(ExecPlan::Batch(b)) => output_batch(*cmd) == Some(b.sql@) && texts(b.output_names@)
                == output_names(cmd.params@),
            Ok(ExecPlan::Bound(_)) => false,
            Err(e) => output_batch(*cmd) is None && is_batch_error(e, *cmd),
        },
        !wants_output(*cmd) ==> match r {
            Ok(ExecPlan::Bound(st)) => is_bind_outcome(Ok(st), *cmd, row_count_probe()),
            Ok(ExecPlan::Batch(_)) => false,
            Err(e) => is_bind_outcome(Err(e), *cmd, row_count_probe()),
        },
{
    if has_output_params(cmd) {
        match build_output_batch(cmd) {
            Ok(b) => Ok(ExecPlan::Batch(b)),
            Err(e) => Err(e),
        }
    } else {
        match bind_batch(cmd) {
            Ok(st) => Ok(ExecPlan::Bound(st)),
            Err(e) => Err(e),
        }
    }
}

} // verus!
