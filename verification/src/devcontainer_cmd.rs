//! Writes and launches the secure devcontainer profile.
//!
//! The files, the programs and the terminal are the host's, and so is the spelling of paths. A run
//! is a sequence of [`Step`]s: each says what to do next, and the host's answer leads to the
//! following one.

use vstd::prelude::*;
use vstd::utf8::encode_utf8;

use crate::model::views;
use crate::os_text::{plain_text, printed_text, read_printed, same_bytes, OsText, OsTextView};
use crate::text::{
    decimal, decimal_text, join, joined, optional_text, replace, replaced, same_text, texts, trim,
    trimmed,
};

verus! {

/// Materialize and launch the secure customer devcontainer profile.
#[derive(Debug)]
pub struct DevcontainerCli {
    /// Workspace where the secure profile should be written.
    pub workspace_folder: OsText,
    /// Only write the secure profile files; do not run `devcontainer up`.
    pub write_only: bool,
    /// Overwrite existing secure profile files when their contents differ.
    pub force: bool,
    /// Optional prompt to pass to Codex inside the devcontainer after setup.
    pub prompt: Vec<String>,
}

/// The content of a [`DevcontainerCli`].
pub struct DevcontainerCliView {
    pub workspace_folder: OsTextView,
    pub write_only: bool,
    pub force: bool,
    pub prompt: Seq<Seq<char>>,
}

impl View for DevcontainerCli {
    type V = DevcontainerCliView;

    open spec fn view(&self) -> DevcontainerCliView {
        DevcontainerCliView {
            workspace_folder: self.workspace_folder@,
            write_only: self.write_only,
            force: self.force,
            prompt: texts(self.prompt@),
        }
    }
}

impl DevcontainerCliView {
    /// The words of the prompt with a space between neighbours, where there are any words.
    pub open spec fn prompt_text(self) -> Option<Seq<char>> {
        if self.prompt.len() == 0 {
            None
        } else {
            Some(joined(self.prompt, " "@))
        }
    }
}

/// A file of the secure profile.
#[derive(Debug, PartialEq, Eq)]
pub struct SecureProfileAsset {
    pub file_name: String,
    pub contents: String,
}

/// The texts of a [`SecureProfileAsset`].
pub struct SecureProfileAssetView {
    pub file_name: Seq<char>,
    pub contents: Seq<char>,
}

impl View for SecureProfileAsset {
    type V = SecureProfileAssetView;

    open spec fn view(&self) -> SecureProfileAssetView {
        SecureProfileAssetView { file_name: self.file_name@, contents: self.contents@ }
    }
}

impl SecureProfileAssetView {
    /// The text of the file as it is written: the Dockerfile refers to the generated folder
    /// instead of the folder that the file comes from.
    pub open spec fn rendered(self) -> Seq<char> {
        if self.file_name == "Dockerfile.secure"@ {
            replaced(self.contents, ".devcontainer/"@, ".codex-devcontainer/"@)
        } else {
            self.contents
        }
    }
}

/// The texts of the files of the secure profile.
#[derive(Debug, PartialEq, Eq)]
pub struct SecureProfileContents {
    pub dockerfile: String,
    pub devcontainer_json: String,
    pub init_firewall: String,
    pub post_install: String,
    pub post_start: String,
}

impl SecureProfileContents {
    /// The files of the profile in the order in which they are written.
    pub open spec fn assets(self) -> Seq<SecureProfileAssetView> {
        seq![
            SecureProfileAssetView {
                file_name: "Dockerfile.secure"@,
                contents: self.dockerfile@,
            },
            SecureProfileAssetView {
                file_name: "devcontainer.secure.json"@,
                contents: self.devcontainer_json@,
            },
            SecureProfileAssetView {
                file_name: "init-firewall.sh"@,
                contents: self.init_firewall@,
            },
            SecureProfileAssetView {
                file_name: "post_install.py"@,
                contents: self.post_install@,
            },
            SecureProfileAssetView { file_name: "post-start.sh"@, contents: self.post_start@ },
        ]
    }
}

/// Names the files of the secure profile, in the order in which they are written.
pub fn secure_profile_assets(contents: SecureProfileContents) -> (assets: Vec<SecureProfileAsset>)
    ensures
        views(assets@) == contents.assets(),
{
    let mut assets: Vec<SecureProfileAsset> = Vec::new();
    assets.push(
        SecureProfileAsset {
            file_name: "Dockerfile.secure".to_owned(),
            contents: contents.dockerfile,
        },
    );
    assets.push(
        SecureProfileAsset {
            file_name: "devcontainer.secure.json".to_owned(),
            contents: contents.devcontainer_json,
        },
    );
    assets.push(
        SecureProfileAsset {
            file_name: "init-firewall.sh".to_owned(),
            contents: contents.init_firewall,
        },
    );
    assets.push(
        SecureProfileAsset {
            file_name: "post_install.py".to_owned(),
            contents: contents.post_install,
        },
    );
    assets.push(
        SecureProfileAsset {
            file_name: "post-start.sh".to_owned(),
            contents: contents.post_start,
        },
    );
    assets
}

/// The text of a profile file as it is written.
pub fn rendered_asset_contents(asset: &SecureProfileAsset) -> (text: String)
    ensures
        text@ == asset@.rendered(),
{
    if same_text(asset.file_name.as_str(), "Dockerfile.secure") {
        proof {
            reveal_strlit(".devcontainer/");
        }
        replace(asset.contents.as_str(), ".devcontainer/", ".codex-devcontainer/")
    } else {
        asset.contents.clone()
    }
}

/// How many profile files were written and how many were found in place.
#[derive(Debug, Clone, Copy, PartialEq, Eq, Structural)]
pub struct WriteSummary {
    pub written: usize,
    pub unchanged: usize,
}

/// The numbers of a [`WriteSummary`].
pub struct WriteSummaryView {
    pub written: nat,
    pub unchanged: nat,
}

impl View for WriteSummary {
    type V = WriteSummaryView;

    open spec fn view(&self) -> WriteSummaryView {
        WriteSummaryView { written: self.written as nat, unchanged: self.unchanged as nat }
    }
}

/// No files yet.
pub open spec fn no_files() -> WriteSummaryView {
    WriteSummaryView { written: 0, unchanged: 0 }
}

impl Default for WriteSummary {
    fn default() -> (summary: WriteSummary)
        ensures
            summary@ == no_files(),
    {
        WriteSummary { written: 0, unchanged: 0 }
    }
}

/// Why a run fails.
#[derive(Debug, PartialEq, Eq)]
pub enum Failure {
    /// The reason itself.
    Because(String),
    /// What the last request was for; the reason is the error that it met.
    During(String),
}

/// The texts of a [`Failure`].
pub enum FailureView {
    Because(Seq<char>),
    During(Seq<char>),
}

impl View for Failure {
    type V = FailureView;

    open spec fn view(&self) -> FailureView {
        match self {
            Failure::Because(reason) => FailureView::Because(reason@),
            Failure::During(context) => FailureView::During(context@),
        }
    }
}

/// A program and its arguments.
#[derive(Debug, PartialEq, Eq)]
pub struct CommandLine {
    pub program: OsText,
    pub args: Vec<OsText>,
}

/// The texts of a [`CommandLine`].
#[verifier::ext_equal]
pub struct CommandLineView {
    pub program: OsTextView,
    pub args: Seq<OsTextView>,
}

impl View for CommandLine {
    type V = CommandLineView;

    open spec fn view(&self) -> CommandLineView {
        CommandLineView { program: self.program@, args: views(self.args@) }
    }
}

/// What the devcontainer CLI is called with to start the container.
pub open spec fn up_command(
    devcontainer: OsTextView,
    workspace_folder: OsTextView,
    config: OsTextView,
) -> CommandLineView {
    CommandLineView {
        program: devcontainer,
        args: seq![
            plain_text("up"@),
            plain_text("--workspace-folder"@),
            workspace_folder,
            plain_text("--config"@),
            config,
        ],
    }
}

/// What the devcontainer CLI is called with to give Codex a prompt in the container. The prompt
/// is the last argument, after a `--`.
pub open spec fn exec_codex_command(
    devcontainer: OsTextView,
    workspace_folder: OsTextView,
    config: OsTextView,
    prompt: Seq<char>,
) -> CommandLineView {
    CommandLineView {
        program: devcontainer,
        args: seq![
            plain_text("exec"@),
            plain_text("--workspace-folder"@),
            workspace_folder,
            plain_text("--config"@),
            config,
            plain_text("codex"@),
            plain_text("--"@),
            plain_text(prompt),
        ],
    }
}

/// The command that starts the container.
pub fn build_up_command(devcontainer: &OsText, workspace_folder: &OsText, config: &OsText) -> (command:
    CommandLine)
    ensures
        command@ == up_command(devcontainer@, workspace_folder@, config@),
{
    let mut args: Vec<OsText> = Vec::new();
    args.push(OsText::from_text("up"));
    args.push(OsText::from_text("--workspace-folder"));
    args.push(workspace_folder.clone());
    args.push(OsText::from_text("--config"));
    args.push(config.clone());
    CommandLine { program: devcontainer.clone(), args }
}

/// The command that gives Codex a prompt in the container.
pub fn build_exec_codex_command(
    devcontainer: &OsText,
    workspace_folder: &OsText,
    config: &OsText,
    prompt: &str,
) -> (command: CommandLine)
    ensures
        command@ == exec_codex_command(devcontainer@, workspace_folder@, config@, prompt@),
{
    let mut args: Vec<OsText> = Vec::new();
    args.push(OsText::from_text("exec"));
    args.push(OsText::from_text("--workspace-folder"));
    args.push(workspace_folder.clone());
    args.push(OsText::from_text("--config"));
    args.push(config.clone());
    args.push(OsText::from_text("codex"));
    args.push(OsText::from_text("--"));
    args.push(OsText::from_text(prompt));
    CommandLine { program: devcontainer.clone(), args }
}

/// What a run does once its workspace is known.
#[derive(Debug)]
pub struct RunPlan {
    pub workspace_folder: OsText,
    /// The folder of the profile.
    pub devcontainer_dir: OsText,
    /// The configuration file of the devcontainer.
    pub config: OsText,
    pub write_only: bool,
    pub prompt: Option<String>,
}

/// The content of a [`RunPlan`].
pub struct RunPlanView {
    pub workspace_folder: OsTextView,
    pub devcontainer_dir: OsTextView,
    pub config: OsTextView,
    pub write_only: bool,
    pub prompt: Option<Seq<char>>,
}

impl View for RunPlan {
    type V = RunPlanView;

    open spec fn view(&self) -> RunPlanView {
        RunPlanView {
            workspace_folder: self.workspace_folder@,
            devcontainer_dir: self.devcontainer_dir@,
            config: self.config@,
            write_only: self.write_only,
            prompt: optional_text(self.prompt),
        }
    }
}

/// A program that a run needs.
#[derive(Debug)]
pub enum Tool {
    /// The devcontainer CLI.
    Devcontainer,
    /// Docker; the devcontainer CLI was found at the path.
    Docker { devcontainer: OsText },
}

/// The content of a [`Tool`].
pub enum ToolView {
    Devcontainer,
    Docker { devcontainer: OsTextView },
}

impl View for Tool {
    type V = ToolView;

    open spec fn view(&self) -> ToolView {
        match self {
            Tool::Devcontainer => ToolView::Devcontainer,
            Tool::Docker { devcontainer } => ToolView::Docker { devcontainer: devcontainer@ },
        }
    }
}

/// What a line that is printed stands before.
#[derive(Debug)]
pub enum AfterPrint {
    /// The files are in place; what comes next is for the plan to say.
    Written(RunPlan),
    /// Nothing.
    Finish,
    /// The container is started.
    Launch { plan: RunPlan, devcontainer: OsText },
}

/// The content of an [`AfterPrint`].
pub enum AfterPrintView {
    Written(RunPlanView),
    Finish,
    Launch { plan: RunPlanView, devcontainer: OsTextView },
}

impl View for AfterPrint {
    type V = AfterPrintView;

    open spec fn view(&self) -> AfterPrintView {
        match self {
            AfterPrint::Written(plan) => AfterPrintView::Written(plan@),
            AfterPrint::Finish => AfterPrintView::Finish,
            AfterPrint::Launch { plan, devcontainer } => AfterPrintView::Launch {
                plan: plan@,
                devcontainer: devcontainer@,
            },
        }
    }
}

/// Which command of the devcontainer CLI a run waits for.
#[derive(Debug)]
pub enum Stage {
    /// `devcontainer up`.
    Up { plan: RunPlan, devcontainer: OsText },
    /// `devcontainer exec`.
    Exec { devcontainer: OsText },
}

/// The content of a [`Stage`].
pub enum StageView {
    Up { plan: RunPlanView, devcontainer: OsTextView },
    Exec { devcontainer: OsTextView },
}

impl View for Stage {
    type V = StageView;

    open spec fn view(&self) -> StageView {
        match self {
            Stage::Up { plan, devcontainer } => StageView::Up {
                plan: plan@,
                devcontainer: devcontainer@,
            },
            Stage::Exec { devcontainer } => StageView::Exec { devcontainer: devcontainer@ },
        }
    }
}

/// The work on one profile file and on those after it.
#[derive(Debug)]
pub struct ProfileWriter {
    dir: OsText,
    force: bool,
    current: SecureProfileAsset,
    remaining: Vec<SecureProfileAsset>,
    summary: WriteSummary,
    plan: Option<RunPlan>,
}

/// The content of a [`ProfileWriter`].
#[verifier::ext_equal]
pub struct ProfileWriterView {
    /// The folder of the files.
    pub dir: OsTextView,
    /// Whether files with other contents are overwritten.
    pub force: bool,
    /// The file at hand.
    pub current: SecureProfileAssetView,
    /// The files after it.
    pub remaining: Seq<SecureProfileAssetView>,
    /// What became of the files before it.
    pub summary: WriteSummaryView,
    /// The run that the files are for, where they are for one.
    pub plan: Option<RunPlanView>,
}

/// The plan of the run, where there is one.
pub open spec fn plan_view(plan: Option<RunPlan>) -> Option<RunPlanView> {
    match plan {
        Some(plan) => Some(plan@),
        None => None,
    }
}

impl View for ProfileWriter {
    type V = ProfileWriterView;

    closed spec fn view(&self) -> ProfileWriterView {
        ProfileWriterView {
            dir: self.dir@,
            force: self.force,
            current: self.current@,
            remaining: views(self.remaining@),
            summary: self.summary@,
            plan: plan_view(self.plan),
        }
    }
}

impl ProfileWriterView {
    /// The bytes of the file at hand as they are written.
    pub open spec fn contents(self) -> Seq<u8> {
        encode_utf8(self.current.rendered())
    }
}

impl ProfileWriter {
    /// The counts stay small enough for the files that are left.
    #[verifier::type_invariant]
    spec fn counts_fit(self) -> bool {
        self.summary.written + self.summary.unchanged + self.remaining.len() < usize::MAX
    }
}

/// What is found where a profile file belongs.
#[derive(Debug)]
pub enum ExistingFile {
    /// A file with these bytes.
    Contents(Vec<u8>),
    /// Nothing.
    NotFound,
    /// Something that cannot be read.
    Unreadable,
}

/// The content of an [`ExistingFile`].
pub enum ExistingFileView {
    Contents(Seq<u8>),
    NotFound,
    Unreadable,
}

impl View for ExistingFile {
    type V = ExistingFileView;

    open spec fn view(&self) -> ExistingFileView {
        match self {
            ExistingFile::Contents(bytes) => ExistingFileView::Contents(bytes@),
            ExistingFile::NotFound => ExistingFileView::NotFound,
            ExistingFile::Unreadable => ExistingFileView::Unreadable,
        }
    }
}

/// What a program that ran to its end printed, and how it ended.
#[derive(Debug)]
pub struct CommandOutput {
    pub success: bool,
    /// The exit status in words.
    pub status: String,
    pub stdout: Vec<u8>,
    pub stderr: Vec<u8>,
}

/// The content of a [`CommandOutput`].
pub struct CommandOutputView {
    pub success: bool,
    pub status: Seq<char>,
    pub stdout: Seq<u8>,
    pub stderr: Seq<u8>,
}

impl View for CommandOutput {
    type V = CommandOutputView;

    open spec fn view(&self) -> CommandOutputView {
        CommandOutputView {
            success: self.success,
            status: self.status@,
            stdout: self.stdout@,
            stderr: self.stderr@,
        }
    }
}

/// How a program that ran to its end ended.
#[derive(Debug)]
pub struct ExitReport {
    pub success: bool,
    /// The exit status in words.
    pub status: String,
}

/// The content of an [`ExitReport`].
pub struct ExitReportView {
    pub success: bool,
    pub status: Seq<char>,
}

impl View for ExitReport {
    type V = ExitReportView;

    open spec fn view(&self) -> ExitReportView {
        ExitReportView { success: self.success, status: self.status@ }
    }
}

/// Where a run works.
#[derive(Debug)]
pub struct WorkspacePaths {
    /// The workspace folder, absolute and with symbolic links resolved.
    pub workspace_folder: OsText,
    /// [`ResolveWorkspace::dir_name`] in the workspace folder.
    pub devcontainer_dir: OsText,
    /// [`ResolveWorkspace::config_name`] in the folder of the profile.
    pub config: OsText,
}

/// The content of a [`WorkspacePaths`].
pub struct WorkspacePathsView {
    pub workspace_folder: OsTextView,
    pub devcontainer_dir: OsTextView,
    pub config: OsTextView,
}

impl View for WorkspacePaths {
    type V = WorkspacePathsView;

    open spec fn view(&self) -> WorkspacePathsView {
        WorkspacePathsView {
            workspace_folder: self.workspace_folder@,
            devcontainer_dir: self.devcontainer_dir@,
            config: self.config@,
        }
    }
}

/// Asks for the absolute path of the workspace folder, with symbolic links resolved, and for the
/// paths of the profile's folder in it and of the configuration file in that.
#[derive(Debug)]
pub struct ResolveWorkspace {
    pub cli: DevcontainerCli,
    pub assets: Vec<SecureProfileAsset>,
}

/// Asks for a folder, and for those above it, to be created where they do not exist.
#[derive(Debug)]
pub struct CreateDir {
    pub dir: OsText,
    pub force: bool,
    pub assets: Vec<SecureProfileAsset>,
    pub plan: Option<RunPlan>,
}

/// Asks where a profile file belongs, and what is found there.
#[derive(Debug)]
pub struct ReadFile {
    pub writer: ProfileWriter,
}

/// Asks for a profile file to be written.
#[derive(Debug)]
pub struct WriteFile {
    pub writer: ProfileWriter,
    /// Where the file was looked for.
    pub path: OsText,
}

/// Asks for a line to be printed.
#[derive(Debug)]
pub struct Print {
    pub line: String,
    pub next: AfterPrint,
}

/// Asks where a program is found.
#[derive(Debug)]
pub struct FindProgram {
    pub plan: RunPlan,
    pub tool: Tool,
}

/// Asks for a program to be run, and for what it prints.
#[derive(Debug)]
pub struct RunForOutput {
    pub command: CommandLine,
    pub plan: RunPlan,
    pub tool: Tool,
}

/// Asks for a program to be run in the user's terminal.
#[derive(Debug)]
pub struct RunForStatus {
    pub command: CommandLine,
    pub stage: Stage,
}

/// What comes next.
#[derive(Debug)]
pub enum Step {
    ResolveWorkspace(ResolveWorkspace),
    CreateDir(CreateDir),
    ReadFile(ReadFile),
    WriteFile(WriteFile),
    /// The profile files, written for no run, are in place.
    Materialized(WriteSummary),
    Print(Print),
    FindProgram(FindProgram),
    RunForOutput(RunForOutput),
    RunForStatus(RunForStatus),
    /// The run has succeeded.
    Done,
    /// There is no way on.
    Failed(Failure),
}

/// The content of a [`Step`].
pub enum StepView {
    ResolveWorkspace { cli: DevcontainerCliView, assets: Seq<SecureProfileAssetView> },
    CreateDir {
        dir: OsTextView,
        force: bool,
        assets: Seq<SecureProfileAssetView>,
        run: Option<RunPlanView>,
    },
    ReadFile(ProfileWriterView),
    WriteFile { writer: ProfileWriterView, path: OsTextView },
    Materialized(WriteSummaryView),
    Print { line: Seq<char>, next: AfterPrintView },
    FindProgram { plan: RunPlanView, tool: ToolView },
    RunForOutput { command: CommandLineView, plan: RunPlanView, tool: ToolView },
    RunForStatus { command: CommandLineView, stage: StageView },
    Done,
    Failed(FailureView),
}

impl View for Step {
    type V = StepView;

    open spec fn view(&self) -> StepView {
        match self {
            Step::ResolveWorkspace(request) => StepView::ResolveWorkspace {
                cli: request.cli@,
                assets: views(request.assets@),
            },
            Step::CreateDir(request) => StepView::CreateDir {
                dir: request.dir@,
                force: request.force,
                assets: views(request.assets@),
                run: plan_view(request.plan),
            },
            Step::ReadFile(request) => StepView::ReadFile(request.writer@),
            Step::WriteFile(request) => StepView::WriteFile {
                writer: request.writer@,
                path: request.path@,
            },
            Step::Materialized(summary) => StepView::Materialized(summary@),
            Step::Print(request) => StepView::Print { line: request.line@, next: request.next@ },
            Step::FindProgram(request) => StepView::FindProgram {
                plan: request.plan@,
                tool: request.tool@,
            },
            Step::RunForOutput(request) => StepView::RunForOutput {
                command: request.command@,
                plan: request.plan@,
                tool: request.tool@,
            },
            Step::RunForStatus(request) => StepView::RunForStatus {
                command: request.command@,
                stage: request.stage@,
            },
            Step::Done => StepView::Done,
            Step::Failed(failure) => StepView::Failed(failure@),
        }
    }
}

/// The line that reports what became of the profile files.
pub open spec fn summary_line(summary: WriteSummaryView) -> Seq<char> {
    "Secure profile files: "@ + decimal(summary.written) + " written, "@ + decimal(
        summary.unchanged,
    ) + " unchanged"@
}

/// The step after the last profile file.
pub open spec fn after_files(summary: WriteSummaryView, plan: Option<RunPlanView>) -> StepView {
    match plan {
        Some(plan) => StepView::Print {
            line: summary_line(summary),
            next: AfterPrintView::Written(plan),
        },
        None => StepView::Materialized(summary),
    }
}

/// The step that leads to the first of `assets`, or past them where there are none.
pub open spec fn next_file(
    dir: OsTextView,
    force: bool,
    assets: Seq<SecureProfileAssetView>,
    summary: WriteSummaryView,
    plan: Option<RunPlanView>,
) -> StepView {
    if assets.len() == 0 {
        after_files(summary, plan)
    } else {
        StepView::ReadFile(
            ProfileWriterView {
                dir,
                force,
                current: assets[0],
                remaining: assets.drop_first(),
                summary,
                plan,
            },
        )
    }
}

/// The step after the workspace folder was resolved.
pub open spec fn after_workspace(
    cli: DevcontainerCliView,
    assets: Seq<SecureProfileAssetView>,
    resolved: Option<WorkspacePathsView>,
) -> StepView {
    match resolved {
        None => StepView::Failed(
            FailureView::During("failed to resolve "@ + cli.workspace_folder.shown),
        ),
        Some(paths) => if cli.write_only && cli.prompt_text() is Some {
            StepView::Failed(
                FailureView::Because("cannot pass a prompt together with --write-only"@),
            )
        } else {
            StepView::CreateDir {
                dir: paths.devcontainer_dir,
                force: cli.force,
                assets,
                run: Some(
                    RunPlanView {
                        workspace_folder: paths.workspace_folder,
                        devcontainer_dir: paths.devcontainer_dir,
                        config: paths.config,
                        write_only: cli.write_only,
                        prompt: cli.prompt_text(),
                    },
                ),
            }
        },
    }
}

/// The step after the folder of the profile was created.
pub open spec fn after_dir(
    dir: OsTextView,
    force: bool,
    assets: Seq<SecureProfileAssetView>,
    plan: Option<RunPlanView>,
    created: bool,
) -> StepView {
    if created {
        next_file(dir, force, assets, no_files(), plan)
    } else {
        StepView::Failed(FailureView::During("failed to create "@ + dir.shown))
    }
}

impl ProfileWriterView {
    /// The step after the file at hand was found in place.
    pub open spec fn after_unchanged(self) -> StepView {
        next_file(
            self.dir,
            self.force,
            self.remaining,
            WriteSummaryView { unchanged: self.summary.unchanged + 1, ..self.summary },
            self.plan,
        )
    }

    /// The step after the attempt to write the file at hand to `path`.
    pub open spec fn after_write(self, path: OsTextView, written: bool) -> StepView {
        if written {
            next_file(
                self.dir,
                self.force,
                self.remaining,
                WriteSummaryView { written: self.summary.written + 1, ..self.summary },
                self.plan,
            )
        } else {
            StepView::Failed(FailureView::During("failed to write "@ + path.shown))
        }
    }

    /// The step after `existing` was found at `path`, where the file at hand belongs: a file with
    /// the right contents stays, one with other contents is only overwritten by force.
    pub open spec fn after_read(self, path: OsTextView, existing: ExistingFileView) -> StepView {
        match existing {
            ExistingFileView::Contents(bytes) => if bytes == self.contents() {
                self.after_unchanged()
            } else if !self.force {
                StepView::Failed(
                    FailureView::Because(
                        path.shown
                            + " already exists with different contents; rerun with --force to overwrite it"@,
                    ),
                )
            } else {
                StepView::WriteFile { writer: self, path }
            },
            ExistingFileView::NotFound => StepView::WriteFile { writer: self, path },
            ExistingFileView::Unreadable => StepView::Failed(
                FailureView::During("failed to read "@ + path.shown),
            ),
        }
    }
}

/// The step after a line was printed.
pub open spec fn after_print(next: AfterPrintView) -> StepView {
    match next {
        AfterPrintView::Written(plan) => if plan.write_only {
            StepView::Print {
                line: "Wrote secure devcontainer profile to "@ + plan.devcontainer_dir.shown,
                next: AfterPrintView::Finish,
            }
        } else {
            StepView::FindProgram { plan, tool: ToolView::Devcontainer }
        },
        AfterPrintView::Finish => StepView::Done,
        AfterPrintView::Launch { plan, devcontainer } => StepView::RunForStatus {
            command: up_command(devcontainer, plan.workspace_folder, plan.config),
            stage: StageView::Up { plan, devcontainer },
        },
    }
}

impl ToolView {
    /// The name by which the program is looked up.
    pub open spec fn name(self) -> Seq<char> {
        match self {
            ToolView::Devcontainer => "devcontainer"@,
            ToolView::Docker { .. } => "docker"@,
        }
    }

    /// What it means that the program is not found.
    pub open spec fn missing(self) -> Seq<char> {
        match self {
            ToolView::Devcontainer => {
                "could not find `devcontainer` on PATH; install @devcontainers/cli or reinstall Codex via npm so the bundled dependency is available"@
            },
            ToolView::Docker { .. } => {
                "could not find `docker` on PATH; install Docker and ensure the CLI is available"@
            },
        }
    }

    /// The arguments with which the program shows that it works.
    pub open spec fn probe(self) -> Seq<OsTextView> {
        match self {
            ToolView::Devcontainer => seq![plain_text("--version"@)],
            ToolView::Docker { .. } => seq![
                plain_text("info"@),
                plain_text("--format"@),
                plain_text("{{.ServerVersion}}"@),
            ],
        }
    }
}

/// The step after a program was looked up.
pub open spec fn after_find(plan: RunPlanView, tool: ToolView, found: Option<OsTextView>) -> StepView {
    match found {
        None => StepView::Failed(FailureView::During(tool.missing())),
        Some(program) => StepView::RunForOutput {
            command: CommandLineView { program, args: tool.probe() },
            plan,
            tool,
        },
    }
}

/// What it means that a program cannot be started.
pub open spec fn not_started(program: OsTextView) -> FailureView {
    FailureView::During("failed to run `"@ + program.shown + "`"@)
}

/// The version of the Docker engine that `docker info` printed, or why there is none.
pub open spec fn engine_version(success: bool, stdout: Seq<char>, stderr: Seq<char>) -> Result<
    Seq<char>,
    Seq<char>,
> {
    if !success {
        if trimmed(stderr).len() == 0 {
            Err("Docker is installed but the engine is not available"@)
        } else {
            Err("Docker is installed but the engine is not available: "@ + trimmed(stderr))
        }
    } else if trimmed(stdout).len() == 0 {
        Err("Docker is installed but did not report a server version"@)
    } else {
        Ok(trimmed(stdout))
    }
}

/// The step after a program was run to show that it works.
pub open spec fn after_output(
    program: OsTextView,
    plan: RunPlanView,
    tool: ToolView,
    output: Option<CommandOutputView>,
) -> StepView {
    match output {
        None => StepView::Failed(not_started(program)),
        Some(output) => match tool {
            ToolView::Devcontainer => if output.success {
                StepView::FindProgram { plan, tool: ToolView::Docker { devcontainer: program } }
            } else {
                StepView::Failed(
                    FailureView::Because(
                        "`"@ + program.shown + "` exists but `--version` failed with status "@
                            + output.status,
                    ),
                )
            },
            ToolView::Docker { devcontainer } => match engine_version(
                output.success,
                printed_text(output.stdout),
                printed_text(output.stderr),
            ) {
                Ok(version) => StepView::Print {
                    line: "Docker engine: "@ + version,
                    next: AfterPrintView::Launch { plan, devcontainer },
                },
                Err(reason) => StepView::Failed(FailureView::Because(reason)),
            },
        },
    }
}

/// The step after a command of the devcontainer CLI ended.
pub open spec fn after_status(stage: StageView, report: Option<ExitReportView>) -> StepView {
    match stage {
        StageView::Up { plan, devcontainer } => match report {
            None => StepView::Failed(not_started(devcontainer)),
            Some(report) => if !report.success {
                StepView::Failed(
                    FailureView::Because("`devcontainer up` failed with status "@ + report.status),
                )
            } else {
                match plan.prompt {
                    Some(prompt) => StepView::RunForStatus {
                        command: exec_codex_command(
                            devcontainer,
                            plan.workspace_folder,
                            plan.config,
                            prompt,
                        ),
                        stage: StageView::Exec { devcontainer },
                    },
                    None => StepView::Done,
                }
            },
        },
        StageView::Exec { devcontainer } => match report {
            None => StepView::Failed(not_started(devcontainer)),
            Some(report) => if report.success {
                StepView::Done
            } else {
                StepView::Failed(
                    FailureView::Because(
                        "`devcontainer exec` failed with status "@ + report.status,
                    ),
                )
            },
        },
    }
}

impl DevcontainerCli {
    /// Begins a run that writes the profile files `contents` and, unless only the files are asked
    /// for, starts the container.
    pub fn run(self, contents: SecureProfileContents) -> (step: Step)
        ensures
            step@ == (StepView::ResolveWorkspace { cli: self@, assets: contents.assets() }),
    {
        run_devcontainer(self, secure_profile_assets(contents))
    }

    /// The prompt, where one was given.
    pub fn prompt_text(&self) -> (prompt: Option<String>)
        ensures
            optional_text(prompt) == self@.prompt_text(),
    {
        if self.prompt.len() == 0 {
            None
        } else {
            Some(join(&self.prompt, " "))
        }
    }
}

/// Begins a run for the files `assets`.
pub fn run_devcontainer(args: DevcontainerCli, assets: Vec<SecureProfileAsset>) -> (step: Step)
    ensures
        step@ == (StepView::ResolveWorkspace { cli: args@, assets: views(assets@) }),
{
    Step::ResolveWorkspace(ResolveWorkspace { cli: args, assets })
}

/// Begins to put the files `assets` into the folder `devcontainer_dir`.
pub fn materialize_secure_profile(
    devcontainer_dir: OsText,
    force: bool,
    assets: Vec<SecureProfileAsset>,
) -> (step: Step)
    ensures
        step@ == (StepView::CreateDir {
            dir: devcontainer_dir@,
            force,
            assets: views(assets@),
            run: None,
        }),
{
    Step::CreateDir(CreateDir { dir: devcontainer_dir, force, assets, plan: None })
}

/// A failure during something that `text` is the object of.
fn during(what: &str, text: &str) -> (step: Step)
    ensures
        step@ == StepView::Failed(FailureView::During(what@ + text@)),
{
    let mut context = what.to_owned();
    context.append(text);
    Step::Failed(Failure::During(context))
}

/// A failure with a reason that ends in `text`.
fn because(what: &str, text: &str) -> (step: Step)
    ensures
        step@ == StepView::Failed(FailureView::Because(what@ + text@)),
{
    let mut reason = what.to_owned();
    reason.append(text);
    Step::Failed(Failure::Because(reason))
}

impl ResolveWorkspace {
    /// The path to resolve.
    pub fn path(&self) -> (path: &OsText)
        ensures
            path@ == self.cli@.workspace_folder,
    {
        &self.cli.workspace_folder
    }

    /// The name of the profile's folder in the workspace folder.
    pub fn dir_name(&self) -> (name: &'static str)
        ensures
            name@ == ".codex-devcontainer"@,
    {
        ".codex-devcontainer"
    }

    /// The name of the configuration file in the profile's folder.
    pub fn config_name(&self) -> (name: &'static str)
        ensures
            name@ == "devcontainer.secure.json"@,
    {
        "devcontainer.secure.json"
    }

    /// Goes on with the paths, or without them where the workspace folder could not be resolved.
    pub fn answer(self, resolved: Option<WorkspacePaths>) -> (step: Step)
        ensures
            step@ == after_workspace(
                self.cli@,
                views(self.assets@),
                match resolved {
                    Some(paths) => Some(paths@),
                    None => None,
                },
            ),
    {
        let paths = match resolved {
            Some(paths) => paths,
            None => {
                let shown_path = self.cli.workspace_folder.display();
                return during("failed to resolve ", shown_path.as_str());
            },
        };
        let prompt = self.cli.prompt_text();
        if self.cli.write_only && prompt.is_some() {
            return Step::Failed(
                Failure::Because("cannot pass a prompt together with --write-only".to_owned()),
            );
        }
        let dir = paths.devcontainer_dir.clone();
        let plan = RunPlan {
            workspace_folder: paths.workspace_folder,
            devcontainer_dir: paths.devcontainer_dir,
            config: paths.config,
            write_only: self.cli.write_only,
            prompt,
        };
        Step::CreateDir(
            CreateDir { dir, force: self.cli.force, assets: self.assets, plan: Some(plan) },
        )
    }
}

/// Goes on to the first of `assets`, or past them where there are none.
fn go_to_next_file(
    dir: OsText,
    force: bool,
    assets: Vec<SecureProfileAsset>,
    summary: WriteSummary,
    plan: Option<RunPlan>,
) -> (step: Step)
    requires
        summary.written + summary.unchanged + assets.len() <= usize::MAX,
    ensures
        step@ == next_file(dir@, force, views(assets@), summary@, plan_view(plan)),
{
    let mut remaining = assets;
    if remaining.len() == 0 {
        match plan {
            Some(plan) => {
                let mut line = "Secure profile files: ".to_owned();
                let written = decimal_text(summary.written);
                line.append(written.as_str());
                line.append(" written, ");
                let unchanged = decimal_text(summary.unchanged);
                line.append(unchanged.as_str());
                line.append(" unchanged");
                Step::Print(Print { line, next: AfterPrint::Written(plan) })
            },
            None => Step::Materialized(summary),
        }
    } else {
        let ghost all = views(assets@);
        let current = remaining.remove(0);
        assert(views(remaining@) == all.drop_first());
        let writer = ProfileWriter { dir, force, current, remaining, summary, plan };
        Step::ReadFile(ReadFile { writer })
    }
}

impl CreateDir {
    /// Goes on once the folder exists, or where it could not be created.
    pub fn answer(self, created: bool) -> (step: Step)
        ensures
            step@ == after_dir(
                self.dir@,
                self.force,
                views(self.assets@),
                plan_view(self.plan),
                created,
            ),
    {
        if created {
            go_to_next_file(
                self.dir,
                self.force,
                self.assets,
                WriteSummary::default(),
                self.plan,
            )
        } else {
            let shown_path = self.dir.display();
            during("failed to create ", shown_path.as_str())
        }
    }
}

impl ProfileWriter {
    /// The folder that the file at hand belongs in.
    pub fn dir(&self) -> (dir: &OsText)
        ensures
            dir@ == self@.dir,
    {
        &self.dir
    }

    /// The name of the file at hand in its folder.
    pub fn file_name(&self) -> (name: &str)
        ensures
            name@ == self@.current.file_name,
    {
        self.current.file_name.as_str()
    }

    /// The text of the file at hand as it is written.
    pub fn contents(&self) -> (contents: String)
        ensures
            contents@ == self@.current.rendered(),
    {
        rendered_asset_contents(&self.current)
    }
}

impl ReadFile {
    /// Goes on with the path of [`ProfileWriter::file_name`] in [`ProfileWriter::dir`] and with what
    /// is found there.
    pub fn answer(self, path: OsText, existing: ExistingFile) -> (step: Step)
        ensures
            step@ == self.writer@.after_read(path@, existing@),
    {
        proof {
            use_type_invariant(&self.writer);
        }
        match existing {
            ExistingFile::Contents(bytes) => {
                let contents = self.writer.contents();
                if same_bytes(bytes.as_slice(), contents.as_str().as_bytes()) {
                    let writer = self.writer;
                    let summary = WriteSummary {
                        written: writer.summary.written,
                        unchanged: writer.summary.unchanged + 1,
                    };
                    go_to_next_file(
                        writer.dir,
                        writer.force,
                        writer.remaining,
                        summary,
                        writer.plan,
                    )
                } else if !self.writer.force {
                    let mut reason = path.display();
                    reason.append(
                        " already exists with different contents; rerun with --force to overwrite it",
                    );
                    Step::Failed(Failure::Because(reason))
                } else {
                    Step::WriteFile(WriteFile { writer: self.writer, path })
                }
            },
            ExistingFile::NotFound => Step::WriteFile(WriteFile { writer: self.writer, path }),
            ExistingFile::Unreadable => {
                let shown_path = path.display();
                during("failed to read ", shown_path.as_str())
            },
        }
    }
}

impl WriteFile {
    /// Goes on once [`ProfileWriter::contents`] stand at the path, or where they could not be
    /// written.
    pub fn answer(self, written: bool) -> (step: Step)
        ensures
            step@ == self.writer@.after_write(self.path@, written),
    {
        proof {
            use_type_invariant(&self.writer);
        }
        if written {
            let writer = self.writer;
            let summary = WriteSummary {
                written: writer.summary.written + 1,
                unchanged: writer.summary.unchanged,
            };
            go_to_next_file(writer.dir, writer.force, writer.remaining, summary, writer.plan)
        } else {
            let shown_path = self.path.display();
            during("failed to write ", shown_path.as_str())
        }
    }
}

impl Print {
    /// Goes on once the line is printed.
    pub fn answer(self) -> (step: Step)
        ensures
            step@ == after_print(self.next@),
    {
        match self.next {
            AfterPrint::Written(plan) => {
                if plan.write_only {
                    let mut line = "Wrote secure devcontainer profile to ".to_owned();
                    let shown_path = plan.devcontainer_dir.display();
                    line.append(shown_path.as_str());
                    Step::Print(Print { line, next: AfterPrint::Finish })
                } else {
                    Step::FindProgram(FindProgram { plan, tool: Tool::Devcontainer })
                }
            },
            AfterPrint::Finish => Step::Done,
            AfterPrint::Launch { plan, devcontainer } => {
                let command = build_up_command(&devcontainer, &plan.workspace_folder, &plan.config);
                Step::RunForStatus(
                    RunForStatus { command, stage: Stage::Up { plan, devcontainer } },
                )
            },
        }
    }
}

impl Tool {
    /// The name by which the program is looked up.
    pub fn name(&self) -> (name: &'static str)
        ensures
            name@ == self@.name(),
    {
        match self {
            Tool::Devcontainer => "devcontainer",
            Tool::Docker { .. } => "docker",
        }
    }
}

impl FindProgram {
    /// Goes on with the path of the program, or without one where there was an error.
    pub fn answer(self, found: Option<OsText>) -> (step: Step)
        ensures
            step@ == after_find(
                self.plan@,
                self.tool@,
                match found {
                    Some(program) => Some(program@),
                    None => None,
                },
            ),
    {
        let program = match found {
            Some(program) => program,
            None => {
                let missing = match &self.tool {
                    Tool::Devcontainer => {
                        "could not find `devcontainer` on PATH; install @devcontainers/cli or reinstall Codex via npm so the bundled dependency is available"
                    },
                    Tool::Docker { .. } => {
                        "could not find `docker` on PATH; install Docker and ensure the CLI is available"
                    },
                };
                return Step::Failed(Failure::During(missing.to_owned()));
            },
        };
        let mut args: Vec<OsText> = Vec::new();
        match &self.tool {
            Tool::Devcontainer => {
                args.push(OsText::from_text("--version"));
            },
            Tool::Docker { .. } => {
                args.push(OsText::from_text("info"));
                args.push(OsText::from_text("--format"));
                args.push(OsText::from_text("{{.ServerVersion}}"));
            },
        }
        assert(views(args@) == self.tool@.probe());
        Step::RunForOutput(
            RunForOutput {
                command: CommandLine { program, args },
                plan: self.plan,
                tool: self.tool,
            },
        )
    }
}

/// The version of the Docker engine that `docker info` printed, or why there is none.
pub fn docker_engine_version(success: bool, stdout: &str, stderr: &str) -> (version: Result<
    String,
    String,
>)
    ensures
        match version {
            Ok(version) => engine_version(success, stdout@, stderr@) == Ok::<Seq<char>, Seq<char>>(
                version@,
            ),
            Err(reason) => engine_version(success, stdout@, stderr@) == Err::<Seq<char>, Seq<char>>(
                reason@,
            ),
        },
{
    if !success {
        let stderr = trim(stderr);
        if stderr.as_str().is_empty() {
            return Err("Docker is installed but the engine is not available".to_owned());
        }
        let mut reason = "Docker is installed but the engine is not available: ".to_owned();
        reason.append(stderr.as_str());
        return Err(reason);
    }
    let version = trim(stdout);
    if version.as_str().is_empty() {
        return Err("Docker is installed but did not report a server version".to_owned());
    }
    Ok(version)
}

/// A failure because `program` cannot be started.
fn fail_to_start(program: &OsText) -> (step: Step)
    ensures
        step@ == StepView::Failed(not_started(program@)),
{
    let mut context = "failed to run `".to_owned();
    let shown_path = program.display();
    context.append(shown_path.as_str());
    context.append("`");
    Step::Failed(Failure::During(context))
}

impl RunForOutput {
    /// Goes on with what the program printed, or without it where it could not be started.
    pub fn answer(self, output: Option<CommandOutput>) -> (step: Step)
        ensures
            step@ == after_output(
                self.command@.program,
                self.plan@,
                self.tool@,
                match output {
                    Some(output) => Some(output@),
                    None => None,
                },
            ),
    {
        let output = match output {
            Some(output) => output,
            None => {
                return fail_to_start(&self.command.program);
            },
        };
        match self.tool {
            Tool::Devcontainer => {
                if output.success {
                    Step::FindProgram(
                        FindProgram {
                            plan: self.plan,
                            tool: Tool::Docker { devcontainer: self.command.program },
                        },
                    )
                } else {
                    let mut reason = "`".to_owned();
                    let shown_path = self.command.program.display();
                    reason.append(shown_path.as_str());
                    reason.append("` exists but `--version` failed with status ");
                    reason.append(output.status.as_str());
                    Step::Failed(Failure::Because(reason))
                }
            },
            Tool::Docker { devcontainer } => {
                let stdout = read_printed(output.stdout.as_slice());
                let stderr = read_printed(output.stderr.as_slice());
                match docker_engine_version(output.success, stdout.as_str(), stderr.as_str()) {
                    Ok(version) => {
                        let mut line = "Docker engine: ".to_owned();
                        line.append(version.as_str());
                        Step::Print(
                            Print {
                                line,
                                next: AfterPrint::Launch { plan: self.plan, devcontainer },
                            },
                        )
                    },
                    Err(reason) => Step::Failed(Failure::Because(reason)),
                }
            },
        }
    }
}

impl RunForStatus {
    /// Goes on with how the program ended, or without it where it could not be started.
    pub fn answer(self, report: Option<ExitReport>) -> (step: Step)
        ensures
            step@ == after_status(
                self.stage@,
                match report {
                    Some(report) => Some(report@),
                    None => None,
                },
            ),
    {
        match self.stage {
            Stage::Up { plan, devcontainer } => match report {
                None => fail_to_start(&devcontainer),
                Some(report) => {
                    if !report.success {
                        return because(
                            "`devcontainer up` failed with status ",
                            report.status.as_str(),
                        );
                    }
                    match plan.prompt {
                        Some(prompt) => {
                            let command = build_exec_codex_command(
                                &devcontainer,
                                &plan.workspace_folder,
                                &plan.config,
                                prompt.as_str(),
                            );
                            Step::RunForStatus(
                                RunForStatus { command, stage: Stage::Exec { devcontainer } },
                            )
                        },
                        None => Step::Done,
                    }
                },
            },
            Stage::Exec { devcontainer } => match report {
                None => fail_to_start(&devcontainer),
                Some(report) => {
                    if report.success {
                        Step::Done
                    } else {
                        because("`devcontainer exec` failed with status ", report.status.as_str())
                    }
                },
            },
        }
    }
}

} // verus!
