//! What the views show: every field of a value, as it stands.

use vstd::prelude::*;

use crate::bwrap::{no_bwrap_edits, BwrapCdiDevice, BwrapCdiEdits, BwrapCdiMount};
use crate::cdi::{CdiPermissions, FilteredCdiDevices, RuntimeCdiPolicy};
use crate::cdi_resolver::{
    found_views, CdiDevice, CdiEditScope, CdiEditScopeView, CdiSpec, HostDevice,
    InspectedDeviceNode, RawContainerEdits, RawDeviceNode, RawMount, ResolvedCdiDeviceNode,
    ResolvedCdiEdits, ResolvedCdiMount, UnsupportedCdiEdit, WireEdits, WireEditsView,
};
use crate::devcontainer_cmd::{
    plan_view, AfterPrint, AfterPrintView, CommandLine, CommandOutput, DevcontainerCli, ExistingFile,
    ExistingFileView, ExitReport, Failure, FailureView, RunPlan, SecureProfileAsset, Stage,
    StageView, Step, StepView, Tool, ToolView, WorkspacePaths, WriteSummary,
};
use crate::error::CodexErr;
use crate::model::{option_view, result_view, views};
use crate::os_text::OsText;
use crate::pattern::{pattern_texts, CdiPattern};
use crate::text::{optional_text, texts};

verus! {

/// Lists are shown member by member.
pub proof fn lists_are_shown_member_by_member<T: View>(items: Seq<T>, strings: Seq<String>)
    ensures
        views(items).len() == items.len(),
        forall|i: int| 0 <= i < items.len() ==> #[trigger] views(items)[i] == items[i]@,
        texts(strings).len() == strings.len(),
        forall|i: int| 0 <= i < strings.len() ==> #[trigger] texts(strings)[i] == strings[i]@,
{
}

/// Options and results are shown as what they hold.
pub proof fn options_and_results_are_shown<T: View, E: View>(
    option: Option<T>,
    text: Option<String>,
    result: Result<T, E>,
)
    ensures
        option_view(option) is Some <==> option is Some,
        option matches Some(value) ==> option_view(option) == Some(value@),
        optional_text(text) is Some <==> text is Some,
        text matches Some(value) ==> optional_text(text) == Some(value@),
        result matches Ok(value) ==> result_view(result) == Ok::<T::V, E::V>(value@),
        result matches Err(error) ==> result_view(result) == Err::<T::V, E::V>(error@),
{
}

/// Host texts, errors and patterns are shown in full.
pub proof fn texts_of_the_host_are_shown(
    text: OsText,
    error: CodexErr,
    pattern: CdiPattern,
    patterns: Seq<CdiPattern>,
)
    ensures
        text@.bytes == text.bytes@,
        text@.shown == text.shown@,
        error matches CodexErr::Fatal(reason) ==> error@ == reason@,
        pattern@ == pattern.pattern@,
        pattern_texts(patterns).len() == patterns.len(),
        forall|i: int|
            0 <= i < patterns.len() ==> #[trigger] pattern_texts(patterns)[i]
                == patterns[i].pattern@,
{
}

/// Policies, and what they let through, are shown list by list.
pub proof fn policies_are_shown(
    policy: RuntimeCdiPolicy,
    filtered: FilteredCdiDevices,
    permissions: CdiPermissions,
)
    ensures
        policy@.requested.len() == policy.requested@.len(),
        forall|i: int|
            0 <= i < policy.requested@.len() ==> #[trigger] policy@.requested[i]
                == policy.requested@[i]@,
        policy@.allowed is Some <==> policy.allowed is Some,
        policy.allowed matches Some(allowed) ==> {
            &&& policy@.allowed->0.len() == allowed@.len()
            &&& forall|i: int|
                0 <= i < allowed@.len() ==> #[trigger] policy@.allowed->0[i] == allowed@[i]@
        },
        policy@.denied.len() == policy.denied@.len(),
        forall|i: int|
            0 <= i < policy.denied@.len() ==> #[trigger] policy@.denied[i] == policy.denied@[i]@,
        filtered@.devices.len() == filtered.devices@.len(),
        forall|i: int|
            0 <= i < filtered.devices@.len() ==> #[trigger] filtered@.devices[i]
                == filtered.devices@[i]@,
        filtered@.warnings.len() == filtered.warnings@.len(),
        forall|i: int|
            0 <= i < filtered.warnings@.len() ==> #[trigger] filtered@.warnings[i]
                == filtered.warnings@[i]@,
        permissions.policy().requested == texts(permissions.devices@),
        permissions.policy().denied == texts(permissions.denied_devices@),
        permissions.policy().allowed is Some <==> permissions.allowed_devices is Some,
        permissions.allowed_devices matches Some(allowed) ==> permissions.policy().allowed->0
            == texts(allowed@),
{
}

/// What bubblewrap is told is shown in full.
pub proof fn bwrap_edits_are_shown(
    edits: BwrapCdiEdits,
    device: BwrapCdiDevice,
    mount: BwrapCdiMount,
)
    ensures
        device@.host_path == device.host_path@,
        device@.container_path == device.container_path@,
        mount@.host_path == mount.host_path@,
        mount@.container_path == mount.container_path@,
        mount@.read_only == mount.read_only,
        edits@.env.len() == edits.env@.len(),
        forall|i: int|
            0 <= i < edits.env@.len() ==> #[trigger] edits@.env[i] == (
                edits.env@[i].0@,
                edits.env@[i].1@,
            ),
        edits@.devices.len() == edits.devices@.len(),
        forall|i: int|
            0 <= i < edits.devices@.len() ==> #[trigger] edits@.devices[i] == edits.devices@[i]@,
        edits@.mounts.len() == edits.mounts@.len(),
        forall|i: int|
            0 <= i < edits.mounts@.len() ==> #[trigger] edits@.mounts[i] == edits.mounts@[i]@,
        edits@.warnings.len() == edits.warnings@.len(),
        forall|i: int|
            0 <= i < edits.warnings@.len() ==> #[trigger] edits@.warnings[i]
                == edits.warnings@[i]@,
        no_bwrap_edits().env.len() == 0 && no_bwrap_edits().devices.len() == 0
            && no_bwrap_edits().mounts.len() == 0 && no_bwrap_edits().warnings.len() == 0,
{
}

/// Scopes are shown in full.
pub proof fn scopes_are_shown(scope: CdiEditScope)
    ensures
        scope matches CdiEditScope::Spec { kind, path } ==> scope@ == (CdiEditScopeView::Spec {
            kind: kind@,
            path: path@,
        }),
        scope matches CdiEditScope::Device { qualified_name, spec_kind, spec_path } ==> scope@ == (
        CdiEditScopeView::Device {
            qualified_name: qualified_name@,
            spec_kind: spec_kind@,
            spec_path: spec_path@,
        }),
{
}

/// Resolved edits are shown in full.
pub proof fn resolved_edits_are_shown(
    node: ResolvedCdiDeviceNode,
    mount: ResolvedCdiMount,
    note: UnsupportedCdiEdit,
    edits: ResolvedCdiEdits,
)
    ensures
        node@.host_path == node.host_path@,
        node@.container_path == node.container_path@,
        node@.typ is Some <==> node.typ is Some,
        node.typ matches Some(typ) ==> node@.typ == Some(typ@),
        node@.major == node.major,
        node@.minor == node.minor,
        node@.file_mode == node.file_mode,
        node@.permissions is Some <==> node.permissions is Some,
        node.permissions matches Some(permissions) ==> node@.permissions == Some(permissions@),
        node@.uid == node.uid,
        node@.gid == node.gid,
        node@.scope == node.scope@,
        mount@.host_path == mount.host_path@,
        mount@.container_path == mount.container_path@,
        mount@.typ is Some <==> mount.typ is Some,
        mount.typ matches Some(typ) ==> mount@.typ == Some(typ@),
        mount@.options.len() == mount.options@.len(),
        forall|i: int|
            0 <= i < mount.options@.len() ==> #[trigger] mount@.options[i] == mount.options@[i]@,
        mount@.scope == mount.scope@,
        note@.kind == note.kind,
        note@.count == note.count,
        note@.scope == note.scope@,
        edits@.env.len() == edits.env@.len(),
        forall|i: int| 0 <= i < edits.env@.len() ==> #[trigger] edits@.env[i] == edits.env@[i]@,
        edits@.device_nodes.len() == edits.device_nodes@.len(),
        forall|i: int|
            0 <= i < edits.device_nodes@.len() ==> #[trigger] edits@.device_nodes[i]
                == edits.device_nodes@[i]@,
        edits@.mounts.len() == edits.mounts@.len(),
        forall|i: int|
            0 <= i < edits.mounts@.len() ==> #[trigger] edits@.mounts[i] == edits.mounts@[i]@,
        edits@.unsupported.len() == edits.unsupported@.len(),
        forall|i: int|
            0 <= i < edits.unsupported@.len() ==> #[trigger] edits@.unsupported[i]
                == edits.unsupported@[i]@,
{
}

/// Device nodes as a spec writes them down, and what the host says of them, are shown in full.
pub proof fn raw_nodes_are_shown(
    node: RawDeviceNode,
    host: HostDevice,
    inspected: InspectedDeviceNode,
)
    ensures
        node@.path == node.path@,
        node@.host_path is Some <==> node.host_path is Some,
        node.host_path matches Some(path) ==> node@.host_path == Some(path@),
        node@.typ is Some <==> node.typ is Some,
        node.typ matches Some(typ) ==> node@.typ == Some(typ@),
        node@.major == node.major,
        node@.minor == node.minor,
        node@.file_mode == node.file_mode,
        node@.permissions is Some <==> node.permissions is Some,
        node.permissions matches Some(permissions) ==> node@.permissions == Some(permissions@),
        node@.uid == node.uid,
        node@.gid == node.gid,
        host@.typ == host.typ@,
        host@.major == host.major,
        host@.minor == host.minor,
        inspected@.node == inspected.node@,
        inspected.host matches Ok(host) ==> inspected@.host matches Ok(shown) && shown == host@,
        inspected.host matches Err(error) ==> inspected@.host matches Err(shown) && shown == error@,
{
}

/// Edits as a spec writes them down are shown in full, where a missing list counts as an empty one
/// and of group ids only their number is shown.
pub proof fn raw_edits_are_shown(mount: RawMount, edits: RawContainerEdits)
    ensures
        mount@.host_path == mount.host_path@,
        mount@.container_path == mount.container_path@,
        mount@.typ is Some <==> mount.typ is Some,
        mount.typ matches Some(typ) ==> mount@.typ == Some(typ@),
        mount@.options is Some <==> mount.options is Some,
        mount.options matches Some(options) ==> {
            &&& mount@.options->0.len() == options@.len()
            &&& forall|i: int|
                0 <= i < options@.len() ==> #[trigger] mount@.options->0[i] == options@[i]@
        },
        edits.env is None ==> edits@.env.len() == 0,
        edits.env matches Some(env) ==> {
            &&& edits@.env.len() == env@.len()
            &&& forall|i: int| 0 <= i < env@.len() ==> #[trigger] edits@.env[i] == env@[i]@
        },
        edits.device_nodes is None ==> edits@.device_nodes.len() == 0,
        edits.device_nodes matches Some(nodes) ==> {
            &&& edits@.device_nodes.len() == nodes@.len()
            &&& forall|i: int|
                0 <= i < nodes@.len() ==> #[trigger] edits@.device_nodes[i] == nodes@[i]@
        },
        edits.mounts is None ==> edits@.mounts.len() == 0,
        edits.mounts matches Some(mounts) ==> {
            &&& edits@.mounts.len() == mounts@.len()
            &&& forall|i: int| 0 <= i < mounts@.len() ==> #[trigger] edits@.mounts[i] == mounts@[i]@
        },
        edits.net_devices is None ==> edits@.net_devices == 0,
        edits.net_devices matches Some(count) ==> edits@.net_devices == count,
        edits.hooks is None ==> edits@.hooks == 0,
        edits.hooks matches Some(count) ==> edits@.hooks == count,
        edits@.intel_rdt == edits.intel_rdt,
        edits.additional_gids is None ==> edits@.additional_gids == 0,
        edits.additional_gids matches Some(gids) ==> edits@.additional_gids == gids@.len(),
{
}

/// What the cache knows is shown in full.
pub proof fn cache_answers_are_shown(
    wire: WireEdits,
    spec: CdiSpec,
    device: CdiDevice,
    found: Seq<Option<CdiDevice>>,
)
    ensures
        wire matches WireEdits::Decoded(edits) ==> wire@ == WireEditsView::Decoded(edits@),
        wire matches WireEdits::NotEncoded(error) ==> wire@ == WireEditsView::NotEncoded(error@),
        wire matches WireEdits::NotDecoded(error) ==> wire@ == WireEditsView::NotDecoded(error@),
        spec@.id == spec.id,
        spec@.vendor == spec.vendor@,
        spec@.class == spec.class@,
        spec@.path == spec.path@,
        spec@.edits is Some <==> spec.edits is Some,
        spec.edits matches Some(edits) ==> spec@.edits == Some(edits@),
        device@.spec == device.spec@,
        device@.edits == device.edits@,
        found_views(found).len() == found.len(),
        forall|i: int|
            0 <= i < found.len() ==> (#[trigger] found_views(found)[i] is Some <==> found[i] is Some),
        forall|i: int|
            0 <= i < found.len() && found[i] is Some ==> #[trigger] found_views(found)[i] == Some(
                found[i]->0@,
            ),
{
}

/// The arguments and the plan of a run are shown in full.
pub proof fn plans_are_shown(
    cli: DevcontainerCli,
    asset: SecureProfileAsset,
    plan: RunPlan,
    paths: WorkspacePaths,
    command: CommandLine,
)
    ensures
        cli@.workspace_folder == cli.workspace_folder@,
        cli@.write_only == cli.write_only,
        cli@.force == cli.force,
        cli@.prompt.len() == cli.prompt@.len(),
        forall|i: int|
            0 <= i < cli.prompt@.len() ==> #[trigger] cli@.prompt[i] == cli.prompt@[i]@,
        asset@.file_name == asset.file_name@,
        asset@.contents == asset.contents@,
        plan@.workspace_folder == plan.workspace_folder@,
        plan@.devcontainer_dir == plan.devcontainer_dir@,
        plan@.config == plan.config@,
        plan@.write_only == plan.write_only,
        plan@.prompt is Some <==> plan.prompt is Some,
        plan.prompt matches Some(prompt) ==> plan@.prompt == Some(prompt@),
        plan_view(Some(plan)) == Some(plan@),
        plan_view(None) is None,
        paths@.workspace_folder == paths.workspace_folder@,
        paths@.devcontainer_dir == paths.devcontainer_dir@,
        paths@.config == paths.config@,
        command@.program == command.program@,
        command@.args.len() == command.args@.len(),
        forall|i: int|
            0 <= i < command.args@.len() ==> #[trigger] command@.args[i] == command.args@[i]@,
{
}

/// What the host answers, and what a run makes of it, is shown in full.
pub proof fn answers_are_shown(
    summary: WriteSummary,
    failure: Failure,
    existing: ExistingFile,
    output: CommandOutput,
    report: ExitReport,
)
    ensures
        summary@.written == summary.written,
        summary@.unchanged == summary.unchanged,
        failure matches Failure::Because(reason) ==> failure@ == FailureView::Because(reason@),
        failure matches Failure::During(context) ==> failure@ == FailureView::During(context@),
        existing matches ExistingFile::Contents(bytes) ==> existing@ == ExistingFileView::Contents(
            bytes@,
        ),
        existing is NotFound <==> existing@ is NotFound,
        existing is Unreadable <==> existing@ is Unreadable,
        output@.success == output.success,
        output@.status == output.status@,
        output@.stdout == output.stdout@,
        output@.stderr == output.stderr@,
        report@.success == report.success,
        report@.status == report.status@,
{
}

/// The stages of a run are shown in full.
pub proof fn stages_are_shown(tool: Tool, next: AfterPrint, stage: Stage)
    ensures
        tool is Devcontainer <==> tool@ is Devcontainer,
        tool matches Tool::Docker { devcontainer } ==> tool@ == (ToolView::Docker {
            devcontainer: devcontainer@,
        }),
        next matches AfterPrint::Written(plan) ==> next@ == AfterPrintView::Written(plan@),
        next is Finish <==> next@ is Finish,
        next matches AfterPrint::Launch { plan, devcontainer } ==> next@ == (
        AfterPrintView::Launch { plan: plan@, devcontainer: devcontainer@ }),
        stage matches Stage::Up { plan, devcontainer } ==> stage@ == (StageView::Up {
            plan: plan@,
            devcontainer: devcontainer@,
        }),
        stage matches Stage::Exec { devcontainer } ==> stage@ == (StageView::Exec {
            devcontainer: devcontainer@,
        }),
{
}

/// The steps of a run are shown in full.
pub proof fn steps_are_shown(step: Step)
    ensures
        step matches Step::ResolveWorkspace(request) ==> (step@ matches StepView::ResolveWorkspace {
            cli,
            assets,
        } && cli == request.cli@ && assets == views(request.assets@)),
        step matches Step::CreateDir(request) ==> (step@ matches StepView::CreateDir {
            dir,
            force,
            assets,
            run,
        } && {
            &&& dir == request.dir@
            &&& force == request.force
            &&& assets == views(request.assets@)
            &&& run is Some <==> request.plan is Some
            &&& request.plan matches Some(plan) ==> run == Some(plan@)
        }),
        step matches Step::ReadFile(request) ==> step@ == StepView::ReadFile(request.writer@),
        step matches Step::WriteFile(request) ==> step@ == (StepView::WriteFile {
            writer: request.writer@,
            path: request.path@,
        }),
        step matches Step::Materialized(summary) ==> step@ == StepView::Materialized(summary@),
        step matches Step::Print(request) ==> step@ == (StepView::Print {
            line: request.line@,
            next: request.next@,
        }),
        step matches Step::FindProgram(request) ==> step@ == (StepView::FindProgram {
            plan: request.plan@,
            tool: request.tool@,
        }),
        step matches Step::RunForOutput(request) ==> step@ == (StepView::RunForOutput {
            command: request.command@,
            plan: request.plan@,
            tool: request.tool@,
        }),
        step matches Step::RunForStatus(request) ==> step@ == (StepView::RunForStatus {
            command: request.command@,
            stage: request.stage@,
        }),
        step is Done <==> step@ is Done,
        step matches Step::Failed(failure) ==> step@ == StepView::Failed(failure@),
{
}

} // verus!
