//! The result envelope shared by every command: `{success, data,
//! errors}`, with the error codes the planner emits, its serialized
//! form, and the reader that accepts a plan document either raw or
//! wrapped in an envelope.

use vstd::prelude::*;

use crate::json::{
    expect, js, append_json_string, parse_plan_at, print_plan, spec_parse_plan, JsonError,
};
use crate::plan::{ApplyFailureReport, PlanContract, PlanModel};
use crate::strutil::{dec_str, str_chars, usize_to_string};

verus! {

/// A structured error in command output.
#[derive(Debug, Clone)]
pub struct CliError {
    /// Stable machine-readable code, such as `CONFLICT` or `APPLY_FAILED`.
    pub code: String,
    /// Human-readable message.
    pub message: String,
}

/// Mathematical model of a command error.
#[verifier::ext_equal]
pub struct CliErrorModel {
    pub code: Seq<char>,
    pub message: Seq<char>,
}

impl DeepView for CliError {
    type V = CliErrorModel;

    open spec fn deep_view(&self) -> CliErrorModel {
        CliErrorModel { code: self.code@, message: self.message@ }
    }
}

/// The shared output envelope for all commands.
#[derive(Debug, Clone)]
pub struct CliOutput<T> {
    /// Whether the command succeeded.
    pub success: bool,
    /// The command's payload.
    pub data: T,
    /// Errors, empty on success.
    pub errors: Vec<CliError>,
}

impl<T> CliOutput<T> {
    /// A success envelope around a payload.
    pub fn success(data: T) -> (r: Self)
        ensures
            r.success == true,
            r.data == data,
            r.errors@.len() == 0,
    {
        CliOutput { success: true, data, errors: Vec::new() }
    }

    /// A failure envelope around a payload, with its errors.
    pub fn failure(data: T, errors: Vec<CliError>) -> (r: Self)
        ensures
            r.success == false,
            r.data == data,
            r.errors == errors,
    {
        CliOutput { success: false, data, errors }
    }
}

/// The printed form of a boolean.
pub open spec fn print_bool(b: bool) -> Seq<char> {
    if b {
        "true"@
    } else {
        "false"@
    }
}

/// The printed form of one command error, as an array element.
pub open spec fn print_cli_error(e: CliErrorModel) -> Seq<char> {
    "    {\n      \"code\": "@ + js(e.code) + ",\n      \"message\": "@ + js(e.message)
        + "\n    }"@
}

/// The printed items of an error list.
pub open spec fn join_cli_errors(xs: Seq<CliErrorModel>) -> Seq<char>
    decreases xs.len(),
{
    if xs.len() == 0 {
        Seq::empty()
    } else if xs.len() == 1 {
        print_cli_error(xs[0])
    } else {
        print_cli_error(xs[0]) + ",\n"@ + join_cli_errors(xs.drop_first())
    }
}

/// The printed form of an error list.
pub open spec fn print_cli_errors(xs: Seq<CliErrorModel>) -> Seq<char> {
    if xs.len() == 0 {
        "[]"@
    } else {
        "[\n"@ + join_cli_errors(xs) + "\n  ]"@
    }
}

/// The printed envelope around an already printed payload.
pub open spec fn print_envelope(
    success: bool,
    data: Seq<char>,
    errors: Seq<CliErrorModel>,
) -> Seq<char> {
    "{\n  \"success\": "@ + print_bool(success) + ",\n  \"data\": "@ + data + ",\n  \"errors\": "@
        + print_cli_errors(errors) + "\n}"@
}

/// Appends one printed command error.
fn append_cli_error(out: &mut String, e: &CliError)
    ensures
        final(out)@ == old(out)@ + print_cli_error(e.deep_view()),
{
    let ghost start = out@;
    out.append("    {\n      \"code\": ");
    append_json_string(out, e.code.as_str());
    out.append(",\n      \"message\": ");
    append_json_string(out, e.message.as_str());
    out.append("\n    }");
    assert(out@ =~= start + print_cli_error(e.deep_view()));
}

/// Appends the printed items of an error list, from index `i` on.
fn append_cli_errors_items(out: &mut String, v: &Vec<CliError>, i: usize)
    requires
        i < v@.len(),
    ensures
        final(out)@ == old(out)@ + join_cli_errors(v.deep_view().skip(i as int)),
    decreases v@.len() - i,
{
    let ghost s = v.deep_view().skip(i as int);
    proof {
        assert(s[0] == v.deep_view()[i as int]);
        assert(s.drop_first() =~= v.deep_view().skip(i + 1));
    }
    append_cli_error(out, &v[i]);
    if i < v.len() - 1 {
        out.append(",\n");
        append_cli_errors_items(out, v, i + 1);
        assert(out@ =~= old(out)@ + join_cli_errors(s));
    } else {
        assert(s.len() == 1);
        assert(out@ =~= old(out)@ + join_cli_errors(s));
    }
}

/// Appends a printed error list.
fn append_cli_errors(out: &mut String, v: &Vec<CliError>)
    ensures
        final(out)@ == old(out)@ + print_cli_errors(v.deep_view()),
{
    if v.len() == 0 {
        out.append("[]");
    } else {
        out.append("[\n");
        append_cli_errors_items(out, v, 0);
        out.append("\n  ]");
        proof {
            assert(v.deep_view().skip(0) =~= v.deep_view());
            assert(out@ =~= old(out)@ + print_cli_errors(v.deep_view()));
        }
    }
}

/// Appends an envelope head, the caller's payload goes in between.
fn append_envelope_head(out: &mut String, success: bool)
    ensures
        final(out)@ == old(out)@ + "{\n  \"success\": "@ + print_bool(success)
            + ",\n  \"data\": "@,
{
    let ghost start = out@;
    out.append("{\n  \"success\": ");
    if success {
        out.append("true");
    } else {
        out.append("false");
    }
    out.append(",\n  \"data\": ");
    assert(out@ =~= start + "{\n  \"success\": "@ + print_bool(success) + ",\n  \"data\": "@);
}

/// Appends an envelope tail after the payload.
fn append_envelope_tail(out: &mut String, errors: &Vec<CliError>)
    ensures
        final(out)@ == old(out)@ + ",\n  \"errors\": "@ + print_cli_errors(errors.deep_view())
            + "\n}"@,
{
    let ghost start = out@;
    out.append(",\n  \"errors\": ");
    append_cli_errors(out, errors);
    out.append("\n}");
    assert(out@ =~= start + ",\n  \"errors\": "@ + print_cli_errors(errors.deep_view()) + "\n}"@);
}

impl CliOutput<PlanContract> {
    /// Serializes a plan envelope.
    pub fn to_json(&self) -> (r: String)
        ensures
            r@ == print_envelope(
                self.success,
                print_plan(self.data.deep_view()),
                self.errors.deep_view(),
            ),
    {
        let mut out = String::new();
        append_envelope_head(&mut out, self.success);
        crate::json::append_plan(&mut out, &self.data);
        append_envelope_tail(&mut out, &self.errors);
        assert(out@ =~= print_envelope(
            self.success,
            print_plan(self.data.deep_view()),
            self.errors.deep_view(),
        ));
        out
    }
}

/// The printed form of a failure report.
pub open spec fn print_report(r: crate::plan::FailureReportModel) -> Seq<char> {
    "{\n  \"plan\": "@ + print_plan(r.plan) + ",\n  \"failed_at_index\": "@ + dec_str(
        r.failed_at_index,
    ) + ",\n  \"error\": "@ + js(r.error) + ",\n  \"completed_mutations\": "@
        + crate::json::print_mutations(r.completed_mutations) + ",\n  \"remaining_mutations\": "@
        + crate::json::print_mutations(r.remaining_mutations) + "\n}"@
}

impl ApplyFailureReport {
    /// Serializes the failure report.
    pub fn to_json(&self) -> (r: String)
        ensures
            r@ == print_report(self.deep_view()),
    {
        let mut out = String::new();
        out.append("{\n  \"plan\": ");
        crate::json::append_plan(&mut out, &self.plan);
        out.append(",\n  \"failed_at_index\": ");
        let idx = usize_to_string(self.failed_at_index);
        out.append(idx.as_str());
        out.append(",\n  \"error\": ");
        append_json_string(&mut out, self.error.as_str());
        out.append(",\n  \"completed_mutations\": ");
        crate::json::append_mutations(&mut out, &self.completed_mutations);
        out.append(",\n  \"remaining_mutations\": ");
        crate::json::append_mutations(&mut out, &self.remaining_mutations);
        out.append("\n}");
        assert(out@ =~= print_report(self.deep_view()));
        out
    }
}

impl CliOutput<ApplyFailureReport> {
    /// Serializes a failure-report envelope.
    pub fn to_json(&self) -> (r: String)
        ensures
            r@ == print_envelope(
                self.success,
                print_report(self.data.deep_view()),
                self.errors.deep_view(),
            ),
    {
        let mut out = String::new();
        append_envelope_head(&mut out, self.success);
        let body = self.data.to_json();
        out.append(body.as_str());
        append_envelope_tail(&mut out, &self.errors);
        assert(out@ =~= print_envelope(
            self.success,
            print_report(self.data.deep_view()),
            self.errors.deep_view(),
        ));
        out
    }
}

impl CliOutput<String> {
    /// Serializes a plain-text envelope.
    pub fn to_json(&self) -> (r: String)
        ensures
            r@ == print_envelope(self.success, js(self.data@), self.errors.deep_view()),
    {
        let mut out = String::new();
        append_envelope_head(&mut out, self.success);
        append_json_string(&mut out, self.data.as_str());
        append_envelope_tail(&mut out, &self.errors);
        assert(out@ =~= print_envelope(self.success, js(self.data@), self.errors.deep_view()));
        out
    }
}

/// The error entries reported for a plan's conflicts: one `CONFLICT`
/// entry per conflict, in plan order, with the message
/// "<path>: <reason>".
pub fn conflict_errors(plan: &PlanContract) -> (r: Vec<CliError>)
    ensures
        r.deep_view().len() == plan.deep_view().conflicts.len(),
        forall|k: int|
            0 <= k < r.deep_view().len() ==> (#[trigger] r.deep_view()[k]).code == "CONFLICT"@
                && r.deep_view()[k].message == plan.deep_view().conflicts[k].file_path + ": "@
                + plan.deep_view().conflicts[k].reason,
{
    let ghost cs = plan.deep_view().conflicts;
    let mut r: Vec<CliError> = Vec::new();
    let mut i: usize = 0;
    while i < plan.conflicts.len()
        invariant
            cs == plan.deep_view().conflicts,
            i <= cs.len(),
            cs.len() == plan.conflicts@.len(),
            r.deep_view().len() == i,
            forall|k: int|
                0 <= k < i ==> (#[trigger] r.deep_view()[k]).code == "CONFLICT"@
                    && r.deep_view()[k].message == cs[k].file_path + ": "@ + cs[k].reason,
        decreases cs.len() - i,
    {
        let c = &plan.conflicts[i];
        let mut message = c.file_path.clone();
        message.append(": ");
        message.append(c.reason.as_str());
        assert(message@ =~= cs[i as int].file_path + ": "@ + cs[i as int].reason);
        let ghost rb = r.deep_view();
        let e = CliError { code: String::from_str("CONFLICT"), message };
        let ghost em = e.deep_view();
        r.push(e);
        proof {
            assert(r.deep_view() =~= rb.push(em));
        }
        i = i + 1;
    }
    r
}

/// Parses a plan wrapped in an output envelope; the plan must sit in
/// the `data` field of a canonical envelope. The surrounding `success`
/// flag and error list are read past, not returned.
pub open spec fn parse_envelope_plan(s: Seq<char>) -> Option<PlanModel> {
    match expect(s, 0, "{\n  \"success\": "@) {
        None => None,
        Some(j0) => {
            let after = if expect(s, j0, "true"@) is Some {
                expect(s, j0, "true"@)
            } else {
                expect(s, j0, "false"@)
            };
            match after {
                None => None,
                Some(j1) => match expect(s, j1, ",\n  \"data\": "@) {
                    None => None,
                    Some(j2) => match parse_plan_at(s, j2) {
                        None => None,
                        Some((p, j3)) => match expect(s, j3, ",\n  \"errors\": "@) {
                            None => None,
                            Some(_) => Some(p),
                        },
                    },
                },
            }
        },
    }
}

/// Reads a plan document: either a raw canonical plan, or one wrapped
/// in an output envelope. Returns `Ok` exactly when one of the two
/// forms parses.
pub fn read_plan_document(s: &str) -> (r: Result<PlanContract, JsonError>)
    ensures
        match r {
            Ok(p) => spec_parse_plan(s@) == Some(p.deep_view()) || parse_envelope_plan(s@)
                == Some(p.deep_view()),
            Err(_) => spec_parse_plan(s@) is None && parse_envelope_plan(s@) is None,
        },
{
    match PlanContract::from_json(s) {
        Ok(p) => Ok(p),
        Err(e) => {
            let v = str_chars(s);
            let j0 = match crate::json::expect_exec(&v, 0, "{\n  \"success\": ") {
                Some(j) => j,
                None => {
                    return Err(e);
                },
            };
            let j1 = match crate::json::expect_exec(&v, j0, "true") {
                Some(j) => j,
                None => {
                    match crate::json::expect_exec(&v, j0, "false") {
                        Some(j) => j,
                        None => {
                            return Err(e);
                        },
                    }
                },
            };
            let j2 = match crate::json::expect_exec(&v, j1, ",\n  \"data\": ") {
                Some(j) => j,
                None => {
                    return Err(e);
                },
            };
            let (p, j3) = match crate::json::parse_plan_at_exec(&v, j2) {
                Some(x) => x,
                None => {
                    return Err(e);
                },
            };
            match crate::json::expect_exec(&v, j3, ",\n  \"errors\": ") {
                Some(_) => Ok(p),
                None => Err(e),
            }
        },
    }
}

} // verus!
