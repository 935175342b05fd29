//! What a devcontainer run does with each answer of the host.

use vstd::prelude::*;
use vstd::utf8::{encode_utf8, encode_utf8_decode_utf8, encode_utf8_valid_utf8, valid_utf8};

use crate::devcontainer_cmd::{
    after_dir, after_files, after_find, after_output, after_print, after_status, after_workspace,
    engine_version, exec_codex_command, next_file, no_files, up_command,
    AfterPrintView, CommandOutputView, DevcontainerCliView, ExistingFileView, ExitReportView,
    FailureView, ProfileWriterView, RunPlanView, SecureProfileAssetView, SecureProfileContents,
    StageView, StepView, ToolView, WorkspacePathsView, WriteSummaryView,
};
use crate::os_text::{lossy_text, plain_text, printed_text, OsTextView};
use crate::text::{decimal, joined, replaced, trimmed};

verus! {

/// Unicode text is handed to the host in UTF-8 and shown as it is, and what a program prints in
/// UTF-8 is read as it is.
pub proof fn texts_are_handed_on_as_they_are(text: Seq<char>, bytes: Seq<u8>)
    ensures
        plain_text(text).bytes == encode_utf8(text),
        plain_text(text).shown == text,
        printed_text(encode_utf8(text)) == text,
        !valid_utf8(bytes) ==> printed_text(bytes) == lossy_text(bytes),
{
    encode_utf8_valid_utf8(text);
    encode_utf8_decode_utf8(text);
}

/// The profile consists of five files: each has the text that was given for it, in the order in
/// which they are written. Of these only the Dockerfile is changed, and only in the name of the
/// folder.
pub proof fn profile_files_have_their_texts(contents: SecureProfileContents)
    ensures
        ({
            let assets = contents.assets();
            &&& assets.len() == 5
            &&& assets[0].file_name == "Dockerfile.secure"@
            &&& assets[0].contents == contents.dockerfile@
            &&& assets[0].rendered() == replaced(
                contents.dockerfile@,
                ".devcontainer/"@,
                ".codex-devcontainer/"@,
            )
            &&& assets[1].file_name == "devcontainer.secure.json"@
            &&& assets[1].contents == contents.devcontainer_json@
            &&& assets[1].rendered() == contents.devcontainer_json@
            &&& assets[2].file_name == "init-firewall.sh"@
            &&& assets[2].contents == contents.init_firewall@
            &&& assets[2].rendered() == contents.init_firewall@
            &&& assets[3].file_name == "post_install.py"@
            &&& assets[3].contents == contents.post_install@
            &&& assets[3].rendered() == contents.post_install@
            &&& assets[4].file_name == "post-start.sh"@
            &&& assets[4].contents == contents.post_start@
            &&& assets[4].rendered() == contents.post_start@
        }),
{
    reveal_strlit("Dockerfile.secure");
    reveal_strlit("devcontainer.secure.json");
    reveal_strlit("init-firewall.sh");
    reveal_strlit("post_install.py");
    reveal_strlit("post-start.sh");
    assert("Dockerfile.secure"@.len() == 17);
    assert("devcontainer.secure.json"@.len() == 24);
    assert("init-firewall.sh"@.len() == 16);
    assert("post_install.py"@.len() == 15);
    assert("post-start.sh"@.len() == 13);
}

/// The prompt is the words with a space between neighbours, and there is none without words.
pub proof fn prompt_is_made_of_its_words(cli: DevcontainerCliView)
    ensures
        cli.prompt.len() == 0 <==> cli.prompt_text() is None,
        cli.prompt_text() matches Some(prompt) ==> prompt == joined(cli.prompt, " "@),
{
}

/// What the devcontainer CLI is called with.
pub proof fn commands_name_workspace_and_config(
    devcontainer: OsTextView,
    workspace_folder: OsTextView,
    config: OsTextView,
    prompt: Seq<char>,
)
    ensures
        ({
            let up = up_command(devcontainer, workspace_folder, config);
            &&& up.program == devcontainer
            &&& up.args.len() == 5
            &&& up.args[0] == plain_text("up"@)
            &&& up.args[1] == plain_text("--workspace-folder"@)
            &&& up.args[2] == workspace_folder
            &&& up.args[3] == plain_text("--config"@)
            &&& up.args[4] == config
        }),
        ({
            let exec = exec_codex_command(devcontainer, workspace_folder, config, prompt);
            &&& exec.program == devcontainer
            &&& exec.args.len() == 8
            &&& exec.args[0] == plain_text("exec"@)
            &&& exec.args[1] == plain_text("--workspace-folder"@)
            &&& exec.args[2] == workspace_folder
            &&& exec.args[3] == plain_text("--config"@)
            &&& exec.args[4] == config
            &&& exec.args[5] == plain_text("codex"@)
            &&& exec.args[6] == plain_text("--"@)
            &&& exec.args[7] == plain_text(prompt)
        }),
{
}

/// With the workspace at hand, a run goes on to create the folder of the profile in it, for a plan
/// that keeps the arguments; a prompt together with `--write-only` is refused, and so is a
/// workspace that cannot be resolved.
pub proof fn answer_about_the_workspace_leads_on(
    cli: DevcontainerCliView,
    assets: Seq<SecureProfileAssetView>,
    paths: WorkspacePathsView,
)
    ensures
        after_workspace(cli, assets, None) == StepView::Failed(
            FailureView::During("failed to resolve "@ + cli.workspace_folder.shown),
        ),
        cli.write_only && cli.prompt.len() > 0 ==> after_workspace(cli, assets, Some(paths))
            == StepView::Failed(
            FailureView::Because("cannot pass a prompt together with --write-only"@),
        ),
        !(cli.write_only && cli.prompt.len() > 0) ==> (after_workspace(
            cli,
            assets,
            Some(paths),
        ) matches StepView::CreateDir { dir, force, assets: files, run: Some(plan) } && {
            &&& dir == paths.devcontainer_dir
            &&& force == cli.force
            &&& files == assets
            &&& plan.workspace_folder == paths.workspace_folder
            &&& plan.devcontainer_dir == paths.devcontainer_dir
            &&& plan.config == paths.config
            &&& plan.write_only == cli.write_only
            &&& plan.prompt is Some <==> cli.prompt.len() > 0
            &&& plan.prompt matches Some(prompt) ==> prompt == joined(cli.prompt, " "@)
        }),
{
}

/// The files are taken one by one, from nothing counted; after the last one, what became of them is
/// reported.
pub proof fn files_are_taken_one_by_one(
    dir: OsTextView,
    force: bool,
    assets: Seq<SecureProfileAssetView>,
    summary: WriteSummaryView,
    plan: Option<RunPlanView>,
)
    ensures
        no_files().written == 0 && no_files().unchanged == 0,
        after_dir(dir, force, assets, plan, false) == StepView::Failed(
            FailureView::During("failed to create "@ + dir.shown),
        ),
        after_dir(dir, force, assets, plan, true) == next_file(
            dir,
            force,
            assets,
            WriteSummaryView { written: 0, unchanged: 0 },
            plan,
        ),
        assets.len() > 0 ==> (next_file(dir, force, assets, summary, plan) matches
            StepView::ReadFile(writer) && {
            &&& writer.dir == dir
            &&& writer.force == force
            &&& writer.current == assets[0]
            &&& writer.remaining == assets.drop_first()
            &&& writer.summary == summary
            &&& writer.plan == plan
        }),
        assets.len() == 0 && plan is None ==> next_file(dir, force, assets, summary, plan)
            == StepView::Materialized(summary),
        assets.len() == 0 && plan is Some ==> (next_file(dir, force, assets, summary, plan) matches
            StepView::Print { line, next } && {
            &&& line == "Secure profile files: "@ + decimal(summary.written) + " written, "@
                + decimal(summary.unchanged) + " unchanged"@
            &&& next == AfterPrintView::Written(plan->0)
        }),
        after_files(summary, plan) == next_file(dir, force, Seq::empty(), summary, plan),
{
}

/// A file that is in place is counted as unchanged. One that is not there is asked to be written,
/// and so is one with other contents by force; without force that is refused, and so is one that
/// cannot be read.
pub proof fn answer_about_a_file_leads_on(
    writer: ProfileWriterView,
    path: OsTextView,
    bytes: Seq<u8>,
)
    ensures
        ({
            let wanted = encode_utf8(writer.current.rendered());
            let found = writer.after_read(path, ExistingFileView::Contents(bytes));
            &&& bytes == wanted ==> found == next_file(
                writer.dir,
                writer.force,
                writer.remaining,
                WriteSummaryView {
                    written: writer.summary.written,
                    unchanged: writer.summary.unchanged + 1,
                },
                writer.plan,
            )
            &&& bytes != wanted && writer.force ==> found == (StepView::WriteFile { writer, path })
            &&& bytes != wanted && !writer.force ==> found == StepView::Failed(
                FailureView::Because(
                    path.shown
                        + " already exists with different contents; rerun with --force to overwrite it"@,
                ),
            )
        }),
        writer.after_read(path, ExistingFileView::NotFound) == (StepView::WriteFile {
            writer,
            path,
        }),
        writer.after_read(path, ExistingFileView::Unreadable) == StepView::Failed(
            FailureView::During("failed to read "@ + path.shown),
        ),
        writer.after_write(path, true) == next_file(
            writer.dir,
            writer.force,
            writer.remaining,
            WriteSummaryView {
                written: writer.summary.written + 1,
                unchanged: writer.summary.unchanged,
            },
            writer.plan,
        ),
        writer.after_write(path, false) == StepView::Failed(
            FailureView::During("failed to write "@ + path.shown),
        ),
        writer.contents() == encode_utf8(writer.current.rendered()),
{
}

/// After the report a run that only writes says where the files are and is done; any other looks
/// for the devcontainer CLI. After the engine's version the container is started.
pub proof fn printed_lines_lead_on(plan: RunPlanView, devcontainer: OsTextView)
    ensures
        plan.write_only ==> after_print(AfterPrintView::Written(plan)) == (StepView::Print {
            line: "Wrote secure devcontainer profile to "@ + plan.devcontainer_dir.shown,
            next: AfterPrintView::Finish,
        }),
        !plan.write_only ==> after_print(AfterPrintView::Written(plan)) == (StepView::FindProgram {
            plan,
            tool: ToolView::Devcontainer,
        }),
        after_print(AfterPrintView::Finish) is Done,
        after_print(AfterPrintView::Launch { plan, devcontainer }) matches StepView::RunForStatus {
            command,
            stage: StageView::Up { plan: up_plan, devcontainer: up_devcontainer },
        } && {
            &&& command == up_command(devcontainer, plan.workspace_folder, plan.config)
            &&& up_plan == plan
            &&& up_devcontainer == devcontainer
        },
{
}

/// The programs are looked up by their names and tried out before they are relied on.
pub proof fn programs_are_tried_out(
    plan: RunPlanView,
    devcontainer: OsTextView,
    program: OsTextView,
)
    ensures
        ToolView::Devcontainer.name() == "devcontainer"@,
        (ToolView::Docker { devcontainer }).name() == "docker"@,
        after_find(plan, ToolView::Devcontainer, None) == StepView::Failed(
            FailureView::During(
                "could not find `devcontainer` on PATH; install @devcontainers/cli or reinstall Codex via npm so the bundled dependency is available"@,
            ),
        ),
        after_find(plan, ToolView::Docker { devcontainer }, None) == StepView::Failed(
            FailureView::During(
                "could not find `docker` on PATH; install Docker and ensure the CLI is available"@,
            ),
        ),
        after_find(plan, ToolView::Devcontainer, Some(program)) matches StepView::RunForOutput {
            command,
            plan: same_plan,
            tool: ToolView::Devcontainer,
        } && {
            &&& command.program == program
            &&& command.args.len() == 1
            &&& command.args[0] == plain_text("--version"@)
            &&& same_plan == plan
        },
        after_find(plan, ToolView::Docker { devcontainer }, Some(program)) matches
            StepView::RunForOutput {
            command,
            plan: same_plan,
            tool: ToolView::Docker { devcontainer: same },
        } && {
            &&& command.program == program
            &&& command.args.len() == 3
            &&& command.args[0] == plain_text("info"@)
            &&& command.args[1] == plain_text("--format"@)
            &&& command.args[2] == plain_text("{{.ServerVersion}}"@)
            &&& same_plan == plan
            &&& same == devcontainer
        },
{
}

/// The engine's version is what Docker printed without the white space around it; there is none
/// where Docker failed, for the reason that it gave, or printed nothing.
pub proof fn engine_version_is_what_docker_printed(
    success: bool,
    stdout: Seq<char>,
    stderr: Seq<char>,
)
    ensures
        engine_version(success, stdout, stderr) is Ok <==> success && trimmed(stdout).len() > 0,
        engine_version(success, stdout, stderr) matches Ok(version) ==> version == trimmed(stdout),
        engine_version(success, stdout, stderr) matches Err(reason) ==> {
            &&& success ==> reason == "Docker is installed but did not report a server version"@
            &&& !success && trimmed(stderr).len() == 0 ==> reason
                == "Docker is installed but the engine is not available"@
            &&& !success && trimmed(stderr).len() > 0 ==> reason
                == "Docker is installed but the engine is not available: "@ + trimmed(stderr)
        },
{
}

/// A run goes on from the devcontainer CLI to Docker where the CLI shows its version, and from
/// Docker to the start of the container where the engine shows its version.
pub proof fn what_programs_print_leads_on(
    program: OsTextView,
    plan: RunPlanView,
    devcontainer: OsTextView,
    tool: ToolView,
    output: CommandOutputView,
)
    ensures
        after_output(program, plan, tool, None) == StepView::Failed(
            FailureView::During("failed to run `"@ + program.shown + "`"@),
        ),
        output.success ==> after_output(program, plan, ToolView::Devcontainer, Some(output)) == (
        StepView::FindProgram { plan, tool: ToolView::Docker { devcontainer: program } }),
        !output.success ==> after_output(program, plan, ToolView::Devcontainer, Some(output))
            == StepView::Failed(
            FailureView::Because(
                "`"@ + program.shown + "` exists but `--version` failed with status "@
                    + output.status,
            ),
        ),
        ({
            let stdout = trimmed(printed_text(output.stdout));
            let stderr = trimmed(printed_text(output.stderr));
            let next = after_output(
                program,
                plan,
                ToolView::Docker { devcontainer },
                Some(output),
            );
            if !output.success {
                next == StepView::Failed(
                    FailureView::Because(
                        if stderr.len() == 0 {
                            "Docker is installed but the engine is not available"@
                        } else {
                            "Docker is installed but the engine is not available: "@ + stderr
                        },
                    ),
                )
            } else if stdout.len() == 0 {
                next == StepView::Failed(
                    FailureView::Because("Docker is installed but did not report a server version"@),
                )
            } else {
                next == (StepView::Print {
                    line: "Docker engine: "@ + stdout,
                    next: AfterPrintView::Launch { plan, devcontainer },
                })
            }
        }),
{
}

/// Once the container is up, a prompt is passed to Codex in it, and without one the run is done;
/// it is done too once Codex has ended well. A command that fails, or cannot be started, ends the
/// run.
pub proof fn how_commands_end_leads_on(
    plan: RunPlanView,
    devcontainer: OsTextView,
    report: ExitReportView,
)
    ensures
        ({
            let up = StageView::Up { plan, devcontainer };
            &&& after_status(up, None) == StepView::Failed(
                FailureView::During("failed to run `"@ + devcontainer.shown + "`"@),
            )
            &&& !report.success ==> after_status(up, Some(report)) == StepView::Failed(
                FailureView::Because("`devcontainer up` failed with status "@ + report.status),
            )
            &&& report.success && plan.prompt is None ==> after_status(up, Some(report)) is Done
            &&& report.success && plan.prompt is Some ==> (after_status(up, Some(report)) matches
                StepView::RunForStatus { command, stage: StageView::Exec { devcontainer: same } }
                && {
                &&& command == exec_codex_command(
                    devcontainer,
                    plan.workspace_folder,
                    plan.config,
                    plan.prompt->0,
                )
                &&& same == devcontainer
            })
        }),
        ({
            let exec = StageView::Exec { devcontainer };
            &&& after_status(exec, None) == StepView::Failed(
                FailureView::During("failed to run `"@ + devcontainer.shown + "`"@),
            )
            &&& !report.success ==> after_status(exec, Some(report)) == StepView::Failed(
                FailureView::Because("`devcontainer exec` failed with status "@ + report.status),
            )
            &&& report.success ==> after_status(exec, Some(report)) is Done
        }),
{
}

} // verus!
