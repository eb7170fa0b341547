//! The default run strategies: what is recorded of one execution of the run
//! command.

use crate::json::{lemma_array_view, lemma_object_view, member_views, views, Json, JsonView, Number};
use vstd::prelude::*;

verus! {

/// How the result of the run command is turned into a record.
#[derive(PartialEq, Eq, Structural, Copy, Clone, Debug)]
pub enum RunFunc {
    /// A run whose command exits unsuccessfully is a fault.
    PanicOnError,
    /// Every run is recorded, whatever its exit status.
    IgnoreOnError,
    /// The application supplies the hook and the run data it leaves behind.
    Custom,
}

/// Default strategy that faults when the run command fails.
pub const PANIC_ON_ERROR_DEFAULT_RUN_FUNC: RunFunc = RunFunc::PanicOnError;

/// Default strategy that records unsuccessful runs like successful ones.
pub const IGNORE_ON_ERROR_DEFAULT_RUN_FUNC: RunFunc = RunFunc::IgnoreOnError;

/// What the shell that executed the run command left behind.
#[derive(Debug, PartialEq, Eq)]
pub struct RunOutput {
    /// The exit code, or `None` when a signal ended the process.
    pub code: Option<i32>,
    pub stdout: String,
    pub stderr: String,
}

/// A run command that exited unsuccessfully under [`RunFunc::PanicOnError`].
#[derive(Debug, PartialEq, Eq)]
pub struct RunFailed {
    /// What the command wrote to its standard error.
    pub stderr: String,
}

/// Whether the process ended with exit code zero.
pub open spec fn exited_successfully(code: Option<i32>) -> bool {
    code == Some(0i32)
}

/// The status of a record: the exit code, or -1 after a signal.
pub open spec fn status_number(code: Option<i32>) -> Number {
    match code {
        Some(c) => if c >= 0 {
            Number::PosInt(c as u64)
        } else {
            Number::NegInt(c as i64)
        },
        None => Number::NegInt(-1i64),
    }
}

/// The record of one run: the binding, the status and the captured output,
/// keyed `data`, `status`, `stderr` and `stdout`.
pub open spec fn record_view(
    code: Option<i32>,
    stdout: Seq<char>,
    stderr: Seq<char>,
    data: JsonView,
) -> JsonView {
    JsonView::Object(
        seq![
            ("data"@, data),
            ("status"@, JsonView::Number(status_number(code))),
            ("stderr"@, JsonView::Text(stderr)),
            ("stdout"@, JsonView::Text(stdout)),
        ],
    )
}

/// Run data with one more item: an array grows by the item, and anything
/// that is not an array becomes the array of that one item.
pub open spec fn appended(run_data: JsonView, item: JsonView) -> JsonView {
    match run_data {
        JsonView::Array(items) => JsonView::Array(items.push(item)),
        _ => JsonView::Array(seq![item]),
    }
}

/// Whether run data can take another record: it is `null` or an array.
pub open spec fn accepts_records(run_data: JsonView) -> bool {
    run_data is Null || run_data is Array
}

fn status_of(code: Option<i32>) -> (n: Number)
    ensures
        n == status_number(code),
{
    match code {
        Some(c) => if c >= 0 {
            Number::PosInt(c as u64)
        } else {
            Number::NegInt(c as i64)
        },
        None => Number::NegInt(-1),
    }
}

/// Builds the record of one run from what the shell returned, and tells
/// whether the command succeeded.
pub fn run_func_data_pre_(output: RunOutput, data: &Json) -> (r: (bool, Json))
    ensures
        r.0 == exited_successfully(output.code),
        r.1@ == record_view(output.code, output.stdout@, output.stderr@, data@),
{
    let success = match output.code {
        Some(c) => c == 0,
        None => false,
    };
    let mut members: Vec<(String, Json)> = Vec::new();
    members.push((String::from_str("data"), data.clone()));
    members.push((String::from_str("status"), Json::Number(status_of(output.code))));
    members.push((String::from_str("stderr"), Json::Text(output.stderr)));
    members.push((String::from_str("stdout"), Json::Text(output.stdout)));
    proof {
        lemma_object_view(members);
        assert(member_views(members@) =~= seq![
            ("data"@, data@),
            ("status"@, JsonView::Number(status_number(output.code))),
            ("stderr"@, JsonView::Text(output.stderr@)),
            ("stdout"@, JsonView::Text(output.stdout@)),
        ]);
    }
    (success, Json::Object(members))
}

/// Appends a record to a worker's run data and hands the record back.
pub fn run_func_data_post_(this_data: Json, run_data: &mut Json) -> (last: Json)
    requires
        accepts_records(old(run_data)@),
    ensures
        last@ == this_data@,
        final(run_data)@ == appended(old(run_data)@, this_data@),
{
    broadcast use lemma_array_view;

    let copy = this_data.clone();
    let mut items: Vec<Json> = Vec::new();
    let mut taken = Json::Null;
    std::mem::swap(run_data, &mut taken);
    match taken {
        Json::Array(v) => {
            items = v;
        },
        _ => {},
    }
    let ghost before = items@;
    items.push(copy);
    proof {
        lemma_array_view(items);
        assert(views(items@) =~= views(before).push(this_data@));
        assert(views(Seq::<Json>::empty()) =~= Seq::<JsonView>::empty());
        assert(Seq::<JsonView>::empty().push(this_data@) =~= seq![this_data@]);
    }
    *run_data = Json::Array(items);
    this_data
}

/// What a default strategy leaves in the run data after a run that is
/// recorded, and what it hands back.
pub open spec fn recorded(
    run_data: JsonView,
    output: RunOutput,
    data: JsonView,
    stop: bool,
) -> (JsonView, JsonView) {
    if stop {
        (run_data, JsonView::Null)
    } else {
        let record = record_view(output.code, output.stdout@, output.stderr@, data);
        (appended(run_data, record), record)
    }
}

/// The strategy that treats an unsuccessful run as a fault.
///
/// Fails exactly when the command did not exit with code zero, and then
/// leaves the run data alone. Otherwise the record is appended and
/// returned, unless a stop was requested: then nothing is recorded and
/// `null` comes back.
pub fn run_func_data_panic_on_error(
    output: RunOutput,
    data: &Json,
    run_data: &mut Json,
    stop: bool,
) -> (r: Result<Json, RunFailed>)
    requires
        accepts_records(old(run_data)@),
    ensures
        r is Ok <==> exited_successfully(output.code),
        r matches Err(e) ==> e.stderr@ == output.stderr@ && final(run_data)@ == old(run_data)@,
        r matches Ok(last) ==> (final(run_data)@, last@) == recorded(
            old(run_data)@,
            output,
            data@,
            stop,
        ),
{
    let success = match output.code {
        Some(c) => c == 0,
        None => false,
    };
    if !success {
        return Err(RunFailed { stderr: output.stderr });
    }
    if stop {
        Ok(Json::Null)
    } else {
        let (_, this_data) = run_func_data_pre_(output, data);
        Ok(run_func_data_post_(this_data, run_data))
    }
}

/// The strategy that records every run, successful or not.
///
/// The record is appended and returned, unless a stop was requested: then
/// nothing is recorded and `null` comes back.
pub fn run_func_data_ignore_on_error(
    output: RunOutput,
    data: &Json,
    run_data: &mut Json,
    stop: bool,
) -> (last: Json)
    requires
        accepts_records(old(run_data)@),
    ensures
        (final(run_data)@, last@) == recorded(old(run_data)@, output, data@, stop),
{
    if stop {
        Json::Null
    } else {
        let (_, this_data) = run_func_data_pre_(output, data);
        run_func_data_post_(this_data, run_data)
    }
}

} // verus!
