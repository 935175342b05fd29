//! How the secure devcontainer profile is written and launched, on a host in memory.

use codex_sandbox::devcontainer_cmd::{
    build_exec_codex_command, build_up_command, docker_engine_version, materialize_secure_profile,
    rendered_asset_contents, secure_profile_assets, CommandLine, CommandOutput, DevcontainerCli,
    ExistingFile, ExitReport, Failure, SecureProfileAsset, SecureProfileContents, Step,
    WorkspacePaths, WriteSummary,
};
use codex_sandbox::os_text::OsText;
use std::collections::BTreeMap;

const DIR: &str = "/tmp/workspace/.codex-devcontainer";

fn profile() -> SecureProfileContents {
    SecureProfileContents {
        dockerfile: "FROM debian\nCOPY .devcontainer/init-firewall.sh /usr/local/bin/\nCOPY .devcontainer/post_install.py /opt/\n".to_string(),
        devcontainer_json: "{ \"name\": \"secure\" }\n".to_string(),
        init_firewall: "#!/bin/sh\n# .devcontainer/ stays here\n".to_string(),
        post_install: "print('ready')\n".to_string(),
        post_start: "#!/bin/sh\n".to_string(),
    }
}

fn assets() -> Vec<SecureProfileAsset> {
    secure_profile_assets(profile())
}

fn os(text: &str) -> OsText {
    OsText::from_text(text)
}

fn shown_args(command: &CommandLine) -> Vec<String> {
    command.args.iter().map(|arg| arg.display()).collect()
}

/// A host in memory that writes down what it is asked to do.
struct Host {
    separator: &'static str,
    files: BTreeMap<Vec<u8>, Vec<u8>>,
    unreadable: Option<String>,
    unwritable: bool,
    no_folders: bool,
    programs: Vec<&'static str>,
    outputs: Vec<Option<CommandOutput>>,
    reports: Vec<Option<ExitReport>>,
    log: Vec<String>,
}

fn host() -> Host {
    Host {
        separator: "/",
        files: BTreeMap::new(),
        unreadable: None,
        unwritable: false,
        no_folders: false,
        programs: vec!["devcontainer", "docker"],
        outputs: vec![ok_output("0.80.0\n"), ok_output(" 27.0.1\n")],
        reports: vec![report(true), report(true)],
        log: Vec::new(),
    }
}

fn ok_output(stdout: &str) -> Option<CommandOutput> {
    Some(CommandOutput {
        success: true,
        status: "exit status: 0".to_string(),
        stdout: stdout.as_bytes().to_vec(),
        stderr: Vec::new(),
    })
}

fn failed_output(stderr: &[u8]) -> Option<CommandOutput> {
    Some(CommandOutput {
        success: false,
        status: "exit status: 1".to_string(),
        stdout: Vec::new(),
        stderr: stderr.to_vec(),
    })
}

fn report(success: bool) -> Option<ExitReport> {
    let status = if success { "exit status: 0" } else { "exit status: 2" };
    Some(ExitReport { success, status: status.to_string() })
}

fn logged(command: &CommandLine) -> String {
    format!("{} {}", command.program.display(), shown_args(command).join(" "))
}

impl Host {
    fn join(&self, folder: &OsText, name: &str) -> OsText {
        os(&format!("{}{}{}", folder.display(), self.separator, name))
    }

    fn drive(&mut self, first: Step) -> Step {
        let mut step = first;
        loop {
            step = match step {
                Step::ResolveWorkspace(request) => {
                    let folder = request.path().clone();
                    let dir = self.join(&folder, request.dir_name());
                    let config = self.join(&dir, request.config_name());
                    let resolved = if folder == os("/gone") {
                        None
                    } else {
                        Some(WorkspacePaths {
                            workspace_folder: folder,
                            devcontainer_dir: dir,
                            config,
                        })
                    };
                    request.answer(resolved)
                }
                Step::CreateDir(request) => {
                    self.log.push(format!("mkdir {}", request.dir.display()));
                    let created = !self.no_folders;
                    request.answer(created)
                }
                Step::ReadFile(request) => {
                    let path = self.join(request.writer.dir(), request.writer.file_name());
                    let existing = if self.unreadable == Some(path.display()) {
                        ExistingFile::Unreadable
                    } else {
                        match self.files.get(&path.bytes) {
                            Some(bytes) => ExistingFile::Contents(bytes.clone()),
                            None => ExistingFile::NotFound,
                        }
                    };
                    request.answer(path, existing)
                }
                Step::WriteFile(request) => {
                    if !self.unwritable {
                        let contents = request.writer.contents();
                        self.files.insert(request.path.bytes.clone(), contents.into_bytes());
                    }
                    request.answer(!self.unwritable)
                }
                Step::Print(request) => {
                    self.log.push(format!("print {}", request.line));
                    request.answer()
                }
                Step::FindProgram(request) => {
                    let name = request.tool.name();
                    let found = if self.programs.contains(&name) {
                        Some(os(&format!("/usr/bin/{name}")))
                    } else {
                        None
                    };
                    request.answer(found)
                }
                Step::RunForOutput(request) => {
                    self.log.push(logged(&request.command));
                    let output = self.outputs.remove(0);
                    request.answer(output)
                }
                Step::RunForStatus(request) => {
                    self.log.push(logged(&request.command));
                    let report = self.reports.remove(0);
                    request.answer(report)
                }
                last => return last,
            };
        }
    }

    fn read(&self, name: &str) -> String {
        let bytes = self.files.get(format!("{DIR}/{name}").as_bytes()).expect("file");
        String::from_utf8(bytes.clone()).expect("UTF-8")
    }

    fn materialize(&mut self, force: bool) -> Result<WriteSummary, Failure> {
        match self.drive(materialize_secure_profile(os(DIR), force, assets())) {
            Step::Materialized(summary) => Ok(summary),
            Step::Failed(failure) => Err(failure),
            _ => panic!("neither written nor refused"),
        }
    }

    fn run(&mut self, cli: DevcontainerCli) -> Result<(), Failure> {
        match self.drive(cli.run(profile())) {
            Step::Done => Ok(()),
            Step::Failed(failure) => Err(failure),
            _ => panic!("neither done nor failed"),
        }
    }
}

fn cli(write_only: bool, prompt: &[&str]) -> DevcontainerCli {
    DevcontainerCli {
        workspace_folder: os("/tmp/workspace"),
        write_only,
        force: false,
        prompt: prompt.iter().map(|word| word.to_string()).collect(),
    }
}

fn because(reason: &str) -> Result<(), Failure> {
    Err(Failure::Because(reason.to_string()))
}

fn during(context: &str) -> Result<(), Failure> {
    Err(Failure::During(context.to_string()))
}

#[test]
fn exec_codex_command_passes_prompt_after_double_dash() {
    let command = build_exec_codex_command(
        &os("/tmp/devcontainer"),
        &os("/tmp/workspace"),
        &os("/tmp/workspace/.codex-devcontainer/devcontainer.secure.json"),
        "--help me",
    );

    assert_eq!(
        shown_args(&command),
        vec![
            "exec",
            "--workspace-folder",
            "/tmp/workspace",
            "--config",
            "/tmp/workspace/.codex-devcontainer/devcontainer.secure.json",
            "codex",
            "--",
            "--help me",
        ]
    );
    assert_eq!(command.program, os("/tmp/devcontainer"));
}

#[test]
fn materialize_secure_profile_writes_all_assets() {
    let mut host = host();

    let summary = host.materialize(/*force*/ false).expect("write");

    assert_eq!(
        summary,
        WriteSummary {
            written: assets().len(),
            unchanged: 0,
        }
    );
    for asset in assets() {
        assert_eq!(host.read(&asset.file_name), rendered_asset_contents(&asset));
    }
}

#[test]
fn materialized_dockerfile_uses_generated_folder_paths() {
    let dockerfile = rendered_asset_contents(&assets()[0]);

    assert!(dockerfile.contains("COPY .codex-devcontainer/init-firewall.sh"));
    assert!(!dockerfile.contains("COPY .devcontainer/init-firewall.sh"));
}

#[test]
fn materialize_secure_profile_rejects_conflicts_without_force() {
    let mut host = host();
    host.files.insert(
        format!("{DIR}/devcontainer.secure.json").into_bytes(),
        b"{ \"name\": \"custom\" }\n".to_vec(),
    );

    let err = host.materialize(/*force*/ false).expect_err("conflict");

    match err {
        Failure::Because(reason) => assert!(
            reason.contains("--force"),
            "unexpected error: {reason}"
        ),
        Failure::During(context) => panic!("unexpected error: {context}"),
    }
}

#[test]
fn materialize_secure_profile_overwrites_conflicts_with_force() {
    let mut host = host();
    host.files.insert(
        format!("{DIR}/devcontainer.secure.json").into_bytes(),
        b"{ \"name\": \"custom\" }\n".to_vec(),
    );

    let summary = host.materialize(/*force*/ true).expect("write");

    assert_eq!(
        summary,
        WriteSummary {
            written: assets().len(),
            unchanged: 0,
        }
    );
    assert_eq!(
        host.read("devcontainer.secure.json"),
        rendered_asset_contents(&assets()[1])
    );
}

#[test]
fn conflict_leaves_the_file_in_the_way_alone() {
    let mut host = host();
    host.files.insert(format!("{DIR}/init-firewall.sh").into_bytes(), b"mine".to_vec());

    assert_eq!(
        host.materialize(false),
        Err(Failure::Because(
            "/tmp/workspace/.codex-devcontainer/init-firewall.sh already exists with different contents; rerun with --force to overwrite it".to_string()
        ))
    );

    assert_eq!(host.read("init-firewall.sh"), "mine");
    assert_eq!(host.files.len(), 3);
}

#[test]
fn second_materialization_finds_everything_in_place() {
    let mut host = host();
    host.materialize(false).expect("write");
    let before = host.files.clone();

    for force in [false, true] {
        assert_eq!(
            host.materialize(force),
            Ok(WriteSummary { written: 0, unchanged: 5 })
        );
        assert_eq!(host.files, before);
    }
}

#[test]
fn missing_files_are_written_beside_unchanged_ones() {
    let mut host = host();
    host.materialize(false).expect("write");
    host.files.remove(format!("{DIR}/post_install.py").as_bytes());

    assert_eq!(
        host.materialize(false),
        Ok(WriteSummary { written: 1, unchanged: 4 })
    );
    assert_eq!(host.read("post_install.py"), "print('ready')\n");
}

#[test]
fn host_errors_end_the_materialization() {
    let mut no_folders = host();
    no_folders.no_folders = true;
    assert_eq!(
        no_folders.materialize(true),
        Err(Failure::During("failed to create /tmp/workspace/.codex-devcontainer".to_string()))
    );

    let mut unreadable = host();
    unreadable.unreadable = Some(format!("{DIR}/Dockerfile.secure"));
    assert_eq!(
        unreadable.materialize(true),
        Err(Failure::During(
            "failed to read /tmp/workspace/.codex-devcontainer/Dockerfile.secure".to_string()
        ))
    );

    let mut unwritable = host();
    unwritable.unwritable = true;
    assert_eq!(
        unwritable.materialize(false),
        Err(Failure::During(
            "failed to write /tmp/workspace/.codex-devcontainer/Dockerfile.secure".to_string()
        ))
    );
}

#[test]
fn only_the_dockerfile_is_rendered() {
    let names: Vec<String> = assets().into_iter().map(|asset| asset.file_name).collect();
    assert_eq!(
        names,
        vec![
            "Dockerfile.secure",
            "devcontainer.secure.json",
            "init-firewall.sh",
            "post_install.py",
            "post-start.sh",
        ]
    );
    assert_eq!(
        rendered_asset_contents(&assets()[0]),
        "FROM debian\nCOPY .codex-devcontainer/init-firewall.sh /usr/local/bin/\nCOPY .codex-devcontainer/post_install.py /opt/\n"
    );
    assert_eq!(rendered_asset_contents(&assets()[2]), profile().init_firewall);
    let again = SecureProfileAsset {
        file_name: "Dockerfile.secure".to_string(),
        contents: rendered_asset_contents(&assets()[0]),
    };
    assert_eq!(rendered_asset_contents(&again), again.contents);
}

#[test]
fn prompt_words_are_joined_by_spaces() {
    assert_eq!(
        cli(false, &["make", "me", "a", "sandwich"]).prompt_text().as_deref(),
        Some("make me a sandwich")
    );
    assert_eq!(cli(false, &[""]).prompt_text().as_deref(), Some(""));
    assert_eq!(cli(true, &[]).prompt_text(), None);
}

#[test]
fn write_only_run_writes_and_stops() {
    let mut host = host();
    host.programs.clear();

    assert_eq!(host.run(cli(true, &[])), Ok(()));

    assert_eq!(
        host.log,
        vec![
            "mkdir /tmp/workspace/.codex-devcontainer",
            "print Secure profile files: 5 written, 0 unchanged",
            "print Wrote secure devcontainer profile to /tmp/workspace/.codex-devcontainer",
        ]
    );
    assert_eq!(host.files.len(), 5);
}

#[test]
fn run_starts_the_container_and_passes_the_prompt() {
    let mut host = host();

    assert_eq!(host.run(cli(false, &["fix", "--it"])), Ok(()));

    assert_eq!(
        host.log,
        vec![
            "mkdir /tmp/workspace/.codex-devcontainer",
            "print Secure profile files: 5 written, 0 unchanged",
            "/usr/bin/devcontainer --version",
            "/usr/bin/docker info --format {{.ServerVersion}}",
            "print Docker engine: 27.0.1",
            "/usr/bin/devcontainer up --workspace-folder /tmp/workspace --config /tmp/workspace/.codex-devcontainer/devcontainer.secure.json",
            "/usr/bin/devcontainer exec --workspace-folder /tmp/workspace --config /tmp/workspace/.codex-devcontainer/devcontainer.secure.json codex -- fix --it",
        ]
    );
}

#[test]
fn run_without_prompt_ends_once_the_container_is_up() {
    let mut host = host();
    assert_eq!(host.run(cli(false, &[])), Ok(()));
    assert_eq!(host.reports.len(), 1);
}

#[test]
fn prompt_with_write_only_touches_nothing() {
    let mut host = host();
    assert_eq!(
        host.run(cli(true, &["hello"])),
        because("cannot pass a prompt together with --write-only")
    );
    assert_eq!(host.log, Vec::<String>::new());
    assert!(host.files.is_empty());
}

#[test]
fn workspace_has_to_exist() {
    let mut host = host();
    let mut gone = cli(false, &[]);
    gone.workspace_folder = os("/gone");
    assert_eq!(host.run(gone), during("failed to resolve /gone"));
}

#[test]
fn programs_have_to_be_found_and_to_work() {
    let mut no_cli = host();
    no_cli.programs = vec!["docker"];
    assert_eq!(
        no_cli.run(cli(false, &[])),
        during("could not find `devcontainer` on PATH; install @devcontainers/cli or reinstall Codex via npm so the bundled dependency is available")
    );

    let mut no_docker = host();
    no_docker.programs = vec!["devcontainer"];
    assert_eq!(
        no_docker.run(cli(false, &[])),
        during("could not find `docker` on PATH; install Docker and ensure the CLI is available")
    );

    let mut broken_cli = host();
    broken_cli.outputs = vec![failed_output(b"")];
    assert_eq!(
        broken_cli.run(cli(false, &[])),
        because("`/usr/bin/devcontainer` exists but `--version` failed with status exit status: 1")
    );

    let mut unstartable = host();
    unstartable.outputs = vec![None];
    assert_eq!(
        unstartable.run(cli(false, &[])),
        during("failed to run `/usr/bin/devcontainer`")
    );

    let mut unstartable_docker = host();
    unstartable_docker.outputs = vec![ok_output("1"), None];
    assert_eq!(
        unstartable_docker.run(cli(false, &[])),
        during("failed to run `/usr/bin/docker`")
    );

    let mut no_engine = host();
    no_engine.outputs = vec![ok_output("1"), failed_output(b" no \xff daemon\n")];
    assert_eq!(
        no_engine.run(cli(false, &[])),
        because("Docker is installed but the engine is not available: no \u{fffd} daemon")
    );
}

#[test]
fn container_has_to_come_up() {
    let mut failing = host();
    failing.reports = vec![report(false)];
    assert_eq!(
        failing.run(cli(false, &["hello"])),
        because("`devcontainer up` failed with status exit status: 2")
    );

    let mut unstartable = host();
    unstartable.reports = vec![None];
    assert_eq!(
        unstartable.run(cli(false, &[])),
        during("failed to run `/usr/bin/devcontainer`")
    );

    let mut failing_exec = host();
    failing_exec.reports = vec![report(true), report(false)];
    assert_eq!(
        failing_exec.run(cli(false, &["hello"])),
        because("`devcontainer exec` failed with status exit status: 2")
    );

    let mut unstartable_exec = host();
    unstartable_exec.reports = vec![report(true), None];
    assert_eq!(
        unstartable_exec.run(cli(false, &["hello"])),
        during("failed to run `/usr/bin/devcontainer`")
    );
}

#[test]
fn docker_reports_its_version_or_why_not() {
    assert_eq!(docker_engine_version(true, "27.0.1\n", ""), Ok("27.0.1".to_string()));
    assert_eq!(
        docker_engine_version(true, "\u{a0}27\u{2003}\n", "ignored"),
        Ok("27".to_string())
    );
    assert_eq!(
        docker_engine_version(true, " \n", ""),
        Err("Docker is installed but did not report a server version".to_string())
    );
    assert_eq!(
        docker_engine_version(false, "27", " \t\n"),
        Err("Docker is installed but the engine is not available".to_string())
    );
    assert_eq!(
        docker_engine_version(false, "", "no daemon\n"),
        Err("Docker is installed but the engine is not available: no daemon".to_string())
    );
}

#[test]
fn up_command_names_workspace_and_config() {
    let command = build_up_command(&os("dc"), &os("/w"), &os("/w/c.json"));
    assert_eq!(command.program, os("dc"));
    assert_eq!(
        shown_args(&command),
        vec!["up", "--workspace-folder", "/w", "--config", "/w/c.json"]
    );
}

#[test]
fn paths_are_spelled_as_the_host_spells_them() {
    let mut host = host();
    host.separator = "\\";
    let mut on_windows = cli(false, &["hello"]);
    on_windows.workspace_folder = os("C:\\work");

    assert_eq!(host.run(on_windows), Ok(()));

    assert_eq!(host.log[0], "mkdir C:\\work\\.codex-devcontainer");
    assert_eq!(
        host.log[5],
        "/usr/bin/devcontainer up --workspace-folder C:\\work --config C:\\work\\.codex-devcontainer\\devcontainer.secure.json"
    );
    assert!(host.files.contains_key("C:\\work\\.codex-devcontainer\\post-start.sh".as_bytes()));
}

#[test]
fn paths_that_are_no_text_are_handed_on_unchanged() {
    let folder = OsText { bytes: b"/w\xff".to_vec(), shown: "/w\u{fffd}".to_string() };
    let dir = OsText { bytes: b"/w\xff/d".to_vec(), shown: "/w\u{fffd}/d".to_string() };
    let config = OsText { bytes: b"/w\xff/d/c".to_vec(), shown: "/w\u{fffd}/d/c".to_string() };

    let up = build_up_command(&os("dc"), &folder, &config);
    assert_eq!(up.args[2], folder);
    assert_eq!(up.args[4], config);

    match materialize_secure_profile(dir.clone(), false, assets()) {
        Step::CreateDir(request) => {
            assert_eq!(request.dir, dir);
            match request.answer(false) {
                Step::Failed(failure) => assert_eq!(
                    failure,
                    Failure::During("failed to create /w\u{fffd}/d".to_string())
                ),
                _ => panic!("went on without a folder"),
            }
        }
        _ => panic!("no folder asked for"),
    }
}
