//! What holds of a devcontainer run, whatever the host answers.

use vstd::prelude::*;

use crate::devcontainer_cmd::{
    after_dir, after_find, after_output, after_print, after_status, after_workspace,
    exec_codex_command, up_command, AfterPrintView, CommandOutputView, DevcontainerCliView,
    ExistingFileView, ExitReportView, ProfileWriterView, RunPlanView, SecureProfileAssetView,
    StageView, StepView, ToolView, WorkspacePathsView,
};
use crate::os_text::{plain_text, OsTextView};

verus! {

/// Whether some answer to `step` leads to `next`.
pub open spec fn leads_to(step: StepView, next: StepView) -> bool {
    match step {
        StepView::ResolveWorkspace { cli, assets } => exists|resolved: Option<WorkspacePathsView>|
            next == #[trigger] after_workspace(cli, assets, resolved),
        StepView::CreateDir { dir, force, assets, run } => exists|created: bool|
            next == #[trigger] after_dir(dir, force, assets, run, created),
        StepView::ReadFile(writer) => exists|
            path: OsTextView,
            existing: ExistingFileView,
        |
            next == #[trigger] writer.after_read(path, existing),
        StepView::WriteFile { writer, path } => exists|written: bool|
            next == #[trigger] writer.after_write(path, written),
        StepView::Print { line, next: after } => next == after_print(after),
        StepView::FindProgram { plan, tool } => exists|found: Option<OsTextView>|
            next == #[trigger] after_find(plan, tool, found),
        StepView::RunForOutput { command, plan, tool } => exists|output: Option<CommandOutputView>|
            next == #[trigger] after_output(command.program, plan, tool, output),
        StepView::RunForStatus { command, stage } => exists|report: Option<ExitReportView>|
            next == #[trigger] after_status(stage, report),
        StepView::Materialized(_) | StepView::Done | StepView::Failed(_) => false,
    }
}

/// Whether `trace` is a run: each step after the first answers the one before.
pub open spec fn is_run(trace: Seq<StepView>) -> bool {
    forall|i: int| 0 <= i < trace.len() - 1 ==> leads_to(#[trigger] trace[i], trace[i + 1])
}

/// A bound on the number of answers that a run can still take.
pub open spec fn steps_left(step: StepView) -> nat {
    match step {
        StepView::ResolveWorkspace { assets, .. } => 2 * assets.len() + 10,
        StepView::CreateDir { assets, .. } => 2 * assets.len() + 9,
        StepView::ReadFile(writer) => 2 * writer.remaining.len() + 10,
        StepView::WriteFile { writer, .. } => 2 * writer.remaining.len() + 9,
        StepView::Print { next: AfterPrintView::Written(_), .. } => 8,
        StepView::FindProgram { tool: ToolView::Devcontainer, .. } => 7,
        StepView::RunForOutput { tool: ToolView::Devcontainer, .. } => 6,
        StepView::FindProgram { tool: ToolView::Docker { .. }, .. } => 5,
        StepView::RunForOutput { tool: ToolView::Docker { .. }, .. } => 4,
        StepView::Print { next: AfterPrintView::Launch { .. }, .. } => 3,
        StepView::RunForStatus { stage: StageView::Up { .. }, .. } => 2,
        StepView::RunForStatus { stage: StageView::Exec { .. }, .. } => 1,
        StepView::Print { next: AfterPrintView::Finish, .. } => 1,
        StepView::Materialized(_) | StepView::Done | StepView::Failed(_) => 0,
    }
}

/// Every run ends: each answer brings it closer to its end.
pub proof fn every_answer_brings_the_end_closer(step: StepView, next: StepView)
    requires
        leads_to(step, next),
    ensures
        steps_left(next) < steps_left(step),
{
}

/// No run takes more answers than its first step allows for.
pub proof fn every_run_ends(trace: Seq<StepView>)
    requires
        trace.len() > 0,
        is_run(trace),
    ensures
        trace.len() <= steps_left(trace[0]) + 1,
        steps_left(trace.last()) + trace.len() <= steps_left(trace[0]) + 1,
    decreases trace.len(),
{
    if trace.len() > 1 {
        let before = trace.drop_last();
        assert forall|i: int| 0 <= i < before.len() - 1 implies leads_to(
            #[trigger] before[i],
            before[i + 1],
        ) by {
            assert(before[i] == trace[i] && before[i + 1] == trace[i + 1]);
        }
        every_run_ends(before);
        let k = trace.len() - 2;
        assert(leads_to(trace[k], trace[k + 1]));
        every_answer_brings_the_end_closer(trace[k], trace[k + 1]);
    }
}

/// A prompt cannot be combined with `--write-only`: the run fails before any folder or file is
/// touched.
pub proof fn prompt_is_refused_before_anything_is_written(
    cli: DevcontainerCliView,
    assets: Seq<SecureProfileAssetView>,
    next: StepView,
)
    requires
        cli.write_only,
        cli.prompt.len() > 0,
        leads_to(StepView::ResolveWorkspace { cli, assets }, next),
    ensures
        next is Failed,
{
}

/// A run does not fail because of its arguments in any other way: with the paths at hand it goes on
/// to create the folder of the profile.
pub proof fn run_goes_on_to_the_profile_folder(
    cli: DevcontainerCliView,
    assets: Seq<SecureProfileAssetView>,
    paths: WorkspacePathsView,
)
    requires
        !cli.write_only || cli.prompt.len() == 0,
    ensures
        after_workspace(cli, assets, Some(paths)) == (StepView::CreateDir {
            dir: paths.devcontainer_dir,
            force: cli.force,
            assets,
            run: Some(
                RunPlanView {
                    workspace_folder: paths.workspace_folder,
                    devcontainer_dir: paths.devcontainer_dir,
                    config: paths.config,
                    write_only: cli.write_only,
                    prompt: cli.prompt_text(),
                },
            ),
        }),
{
}

/// Whether a run at `step` is one that only writes the profile files.
pub open spec fn only_writes(step: StepView) -> bool {
    match step {
        StepView::ResolveWorkspace { cli, .. } => cli.write_only,
        StepView::CreateDir { run, .. } => run matches Some(plan) ==> plan.write_only,
        StepView::ReadFile(writer) => writer.plan matches Some(plan) ==> plan.write_only,
        StepView::WriteFile { writer, .. } => writer.plan matches Some(plan) ==> plan.write_only,
        StepView::Print { next: AfterPrintView::Written(plan), .. } => plan.write_only,
        StepView::Print { next: AfterPrintView::Finish, .. } => true,
        StepView::Print { next: AfterPrintView::Launch { .. }, .. } => false,
        StepView::FindProgram { .. } | StepView::RunForOutput { .. } | StepView::RunForStatus {
            ..
        } => false,
        StepView::Materialized(_) | StepView::Done | StepView::Failed(_) => true,
    }
}

/// With `--write-only` no program is looked up or run, whatever the host answers.
pub proof fn write_only_runs_no_program(trace: Seq<StepView>, i: int)
    requires
        is_run(trace),
        0 <= i < trace.len(),
        trace[0] matches StepView::ResolveWorkspace { cli, .. } && cli.write_only,
    ensures
        !(trace[i] is FindProgram),
        !(trace[i] is RunForOutput),
        !(trace[i] is RunForStatus),
        only_writes(trace[i]),
    decreases i,
{
    if i > 0 {
        write_only_runs_no_program(trace, i - 1);
        assert(leads_to(trace[i - 1], trace[i - 1 + 1]));
    }
}

/// The plan that a step goes by, once there is one.
pub open spec fn plan_of(step: StepView) -> Option<RunPlanView> {
    match step {
        StepView::CreateDir { run, .. } => run,
        StepView::ReadFile(writer) => writer.plan,
        StepView::WriteFile { writer, .. } => writer.plan,
        StepView::Print { next: AfterPrintView::Written(plan), .. } => Some(plan),
        StepView::Print { next: AfterPrintView::Launch { plan, .. }, .. } => Some(plan),
        StepView::FindProgram { plan, .. } => Some(plan),
        StepView::RunForOutput { plan, .. } => Some(plan),
        StepView::RunForStatus { stage: StageView::Up { plan, .. }, .. } => Some(plan),
        _ => None,
    }
}

/// The plan of a run does not change on the way.
pub proof fn plan_stays(step: StepView, next: StepView)
    requires
        leads_to(step, next),
        plan_of(step) is Some,
        plan_of(next) is Some,
    ensures
        plan_of(next) == plan_of(step),
{
}

/// A file is only written where it was looked for and none was found, or by force over one with
/// other contents.
pub proof fn files_are_written_with_good_reason(
    writer: ProfileWriterView,
    path: OsTextView,
    existing: ExistingFileView,
)
    ensures
        writer.after_read(path, existing) is WriteFile <==> existing is NotFound || (writer.force
            && (existing matches ExistingFileView::Contents(bytes) && bytes != writer.contents())),
        writer.after_read(path, existing) is WriteFile ==> writer.after_read(path, existing) == (
        StepView::WriteFile { writer, path }),
{
}

/// The container is only started once the devcontainer CLI has shown its version and Docker its
/// engine: what comes before each of these steps is fixed, and all of them follow the same plan
/// and the same devcontainer CLI.
pub proof fn launch_is_prepared(step: StepView, next: StepView)
    requires
        leads_to(step, next),
    ensures
        next matches StepView::RunForStatus { command, stage: StageView::Up { plan, devcontainer } }
            ==> {
            &&& step matches StepView::Print { next: AfterPrintView::Launch {
                plan: printed_plan,
                devcontainer: printed,
            }, .. }
            &&& printed_plan == plan && printed == devcontainer
            &&& command == up_command(devcontainer, plan.workspace_folder, plan.config)
        },
        next matches StepView::Print { next: AfterPrintView::Launch { plan, devcontainer }, .. }
            ==> {
            &&& step matches StepView::RunForOutput { plan: tried_plan, tool: ToolView::Docker {
                devcontainer: tried,
            }, .. }
            &&& tried_plan == plan && tried == devcontainer
        },
        next matches StepView::RunForOutput { plan, tool, command } ==> {
            &&& step matches StepView::FindProgram { plan: looked_up_plan, tool: looked_up }
            &&& looked_up_plan == plan && looked_up == tool && command.args == tool.probe()
        },
        next matches StepView::FindProgram { plan, tool: ToolView::Docker { devcontainer } } ==> {
            &&& step matches StepView::RunForOutput {
                plan: tried_plan,
                tool: ToolView::Devcontainer,
                command,
            }
            &&& tried_plan == plan && command.program == devcontainer
        },
        next matches StepView::FindProgram { plan, tool: ToolView::Devcontainer } ==> {
            &&& step matches StepView::Print { next: AfterPrintView::Written(written_plan), .. }
            &&& written_plan == plan && !plan.write_only
        },
{
}

/// Codex is given a prompt in the container only where the user gave one and the container was
/// started; the prompt is then the last argument, after a `--`, so that it is never taken for an
/// option.
pub proof fn prompt_is_passed_after_a_double_dash(step: StepView, next: StepView)
    requires
        leads_to(step, next),
        next matches StepView::RunForStatus { stage: StageView::Exec { .. }, .. },
    ensures
        step matches StepView::RunForStatus { stage: StageView::Up { plan, devcontainer }, .. } && {
            let command = next->RunForStatus_command;
            &&& plan.prompt matches Some(prompt)
            &&& command == exec_codex_command(
                devcontainer,
                plan.workspace_folder,
                plan.config,
                prompt,
            )
            &&& command.args.last() == plain_text(prompt)
            &&& command.args[command.args.len() - 2] == plain_text("--"@)
        },
{
}

/// A run succeeds exactly where the files were all that was asked for, or where the last command
/// of the devcontainer CLI that was asked for succeeded.
pub proof fn success_is_earned(stage: StageView, report: Option<ExitReportView>)
    ensures
        after_status(stage, report) is Done <==> (report matches Some(report) && report.success && (
        stage matches StageView::Up { plan, .. } ==> plan.prompt is None)),
        report matches Some(report) ==> !report.success ==> after_status(
            stage,
            Some(report),
        ) is Failed,
        report is None ==> after_status(stage, report) is Failed,
{
}

/// Only a line that ends a `--write-only` run and a command of the devcontainer CLI can be the last
/// step before success.
pub proof fn only_last_steps_lead_to_success(step: StepView)
    requires
        leads_to(step, StepView::Done),
    ensures
        step is RunForStatus || (step matches StepView::Print { next: AfterPrintView::Finish, .. }),
{
}

} // verus!
