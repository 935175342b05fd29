//! What the CDI specs of the selected devices ask to change in a container.
//!
//! The CDI cache and the device nodes of the host are read elsewhere; what was read comes in as
//! [`CdiDevice`] values. CDI specs are UTF-8 text, and so are the paths they name.

use vstd::prelude::*;

use crate::model::{option_view, result_view, views};
use crate::text::{copy_optional, copy_texts, join, joined, optional_text, same_text, texts};

verus! {

/// The part of a CDI spec that asks for an edit.
#[derive(Debug, PartialEq, Eq)]
pub enum CdiEditScope {
    /// The edits that hold for every device of a spec.
    Spec { kind: String, path: String },
    /// The edits of one device.
    Device { qualified_name: String, spec_kind: String, spec_path: String },
}

/// The texts of a [`CdiEditScope`].
pub enum CdiEditScopeView {
    Spec { kind: Seq<char>, path: Seq<char> },
    Device { qualified_name: Seq<char>, spec_kind: Seq<char>, spec_path: Seq<char> },
}

impl View for CdiEditScope {
    type V = CdiEditScopeView;

    open spec fn view(&self) -> CdiEditScopeView {
        match self {
            CdiEditScope::Spec { kind, path } => CdiEditScopeView::Spec {
                kind: kind@,
                path: path@,
            },
            CdiEditScope::Device { qualified_name, spec_kind, spec_path } => {
                CdiEditScopeView::Device {
                    qualified_name: qualified_name@,
                    spec_kind: spec_kind@,
                    spec_path: spec_path@,
                }
            },
        }
    }
}

impl Clone for CdiEditScope {
    fn clone(&self) -> (copy: CdiEditScope)
        ensures
            copy == *self,
    {
        match self {
            CdiEditScope::Spec { kind, path } => CdiEditScope::Spec {
                kind: kind.clone(),
                path: path.clone(),
            },
            CdiEditScope::Device { qualified_name, spec_kind, spec_path } => CdiEditScope::Device {
                qualified_name: qualified_name.clone(),
                spec_kind: spec_kind.clone(),
                spec_path: spec_path.clone(),
            },
        }
    }
}

/// A device node of the host that a spec asks for, with what was missing filled in.
#[derive(Debug, Clone, PartialEq, Eq)]
pub struct ResolvedCdiDeviceNode {
    pub host_path: String,
    pub container_path: String,
    pub typ: Option<String>,
    pub major: Option<i64>,
    pub minor: Option<i64>,
    pub file_mode: Option<u32>,
    pub permissions: Option<String>,
    pub uid: Option<u32>,
    pub gid: Option<u32>,
    pub scope: CdiEditScope,
}

/// The texts and numbers of a [`ResolvedCdiDeviceNode`].
pub struct ResolvedCdiDeviceNodeView {
    pub host_path: Seq<char>,
    pub container_path: Seq<char>,
    pub typ: Option<Seq<char>>,
    pub major: Option<i64>,
    pub minor: Option<i64>,
    pub file_mode: Option<u32>,
    pub permissions: Option<Seq<char>>,
    pub uid: Option<u32>,
    pub gid: Option<u32>,
    pub scope: CdiEditScopeView,
}

impl View for ResolvedCdiDeviceNode {
    type V = ResolvedCdiDeviceNodeView;

    open spec fn view(&self) -> ResolvedCdiDeviceNodeView {
        ResolvedCdiDeviceNodeView {
            host_path: self.host_path@,
            container_path: self.container_path@,
            typ: optional_text(self.typ),
            major: self.major,
            minor: self.minor,
            file_mode: self.file_mode,
            permissions: optional_text(self.permissions),
            uid: self.uid,
            gid: self.gid,
            scope: self.scope@,
        }
    }
}

/// A mount that a spec asks for.
#[derive(Debug, Clone, PartialEq, Eq)]
pub struct ResolvedCdiMount {
    pub host_path: String,
    pub container_path: String,
    pub typ: Option<String>,
    pub options: Vec<String>,
    pub scope: CdiEditScope,
}

/// The texts of a [`ResolvedCdiMount`].
pub struct ResolvedCdiMountView {
    pub host_path: Seq<char>,
    pub container_path: Seq<char>,
    pub typ: Option<Seq<char>>,
    pub options: Seq<Seq<char>>,
    pub scope: CdiEditScopeView,
}

impl View for ResolvedCdiMount {
    type V = ResolvedCdiMountView;

    open spec fn view(&self) -> ResolvedCdiMountView {
        ResolvedCdiMountView {
            host_path: self.host_path@,
            container_path: self.container_path@,
            typ: optional_text(self.typ),
            options: texts(self.options@),
            scope: self.scope@,
        }
    }
}

/// A kind of edit that bubblewrap has no counterpart for.
#[derive(Debug, Clone, Copy, PartialEq, Eq, Structural)]
pub enum UnsupportedCdiEditKind {
    Hooks,
    NetDevices,
    IntelRdt,
    AdditionalGids,
}

/// Edits of one kind without counterpart that a spec asks for.
#[derive(Debug, Clone, PartialEq, Eq)]
pub struct UnsupportedCdiEdit {
    pub kind: UnsupportedCdiEditKind,
    pub count: usize,
    pub scope: CdiEditScope,
}

/// The content of an [`UnsupportedCdiEdit`].
pub struct UnsupportedCdiEditView {
    pub kind: UnsupportedCdiEditKind,
    pub count: usize,
    pub scope: CdiEditScopeView,
}

impl View for UnsupportedCdiEdit {
    type V = UnsupportedCdiEditView;

    open spec fn view(&self) -> UnsupportedCdiEditView {
        UnsupportedCdiEditView { kind: self.kind, count: self.count, scope: self.scope@ }
    }
}

/// All the edits that the selected devices ask for, in the order in which they are met.
#[derive(Debug, Clone, PartialEq, Eq)]
pub struct ResolvedCdiEdits {
    pub env: Vec<String>,
    pub device_nodes: Vec<ResolvedCdiDeviceNode>,
    pub mounts: Vec<ResolvedCdiMount>,
    pub unsupported: Vec<UnsupportedCdiEdit>,
}

/// The content of a [`ResolvedCdiEdits`].
#[verifier::ext_equal]
pub struct ResolvedCdiEditsView {
    pub env: Seq<Seq<char>>,
    pub device_nodes: Seq<ResolvedCdiDeviceNodeView>,
    pub mounts: Seq<ResolvedCdiMountView>,
    pub unsupported: Seq<UnsupportedCdiEditView>,
}

impl View for ResolvedCdiEdits {
    type V = ResolvedCdiEditsView;

    open spec fn view(&self) -> ResolvedCdiEditsView {
        ResolvedCdiEditsView {
            env: texts(self.env@),
            device_nodes: views(self.device_nodes@),
            mounts: views(self.mounts@),
            unsupported: views(self.unsupported@),
        }
    }
}

/// No edits.
pub open spec fn no_edits() -> ResolvedCdiEditsView {
    ResolvedCdiEditsView {
        env: Seq::empty(),
        device_nodes: Seq::empty(),
        mounts: Seq::empty(),
        unsupported: Seq::empty(),
    }
}

impl Default for ResolvedCdiEdits {
    fn default() -> (edits: ResolvedCdiEdits)
        ensures
            edits@ == no_edits(),
    {
        ResolvedCdiEdits {
            env: Vec::new(),
            device_nodes: Vec::new(),
            mounts: Vec::new(),
            unsupported: Vec::new(),
        }
    }
}

/// A device node as a spec writes it down.
#[derive(Debug, PartialEq, Eq)]
pub struct RawDeviceNode {
    pub path: String,
    pub host_path: Option<String>,
    pub typ: Option<String>,
    pub major: Option<i64>,
    pub minor: Option<i64>,
    pub file_mode: Option<u32>,
    pub permissions: Option<String>,
    pub uid: Option<u32>,
    pub gid: Option<u32>,
}

/// The texts and numbers of a [`RawDeviceNode`].
pub struct RawDeviceNodeView {
    pub path: Seq<char>,
    pub host_path: Option<Seq<char>>,
    pub typ: Option<Seq<char>>,
    pub major: Option<i64>,
    pub minor: Option<i64>,
    pub file_mode: Option<u32>,
    pub permissions: Option<Seq<char>>,
    pub uid: Option<u32>,
    pub gid: Option<u32>,
}

impl View for RawDeviceNode {
    type V = RawDeviceNodeView;

    open spec fn view(&self) -> RawDeviceNodeView {
        RawDeviceNodeView {
            path: self.path@,
            host_path: optional_text(self.host_path),
            typ: optional_text(self.typ),
            major: self.major,
            minor: self.minor,
            file_mode: self.file_mode,
            permissions: optional_text(self.permissions),
            uid: self.uid,
            gid: self.gid,
        }
    }
}

impl RawDeviceNodeView {
    /// The path of the node on the host: the one in the container, unless the spec gives another.
    pub open spec fn source(self) -> Seq<char> {
        match self.host_path {
            Some(host_path) => host_path,
            None => self.path,
        }
    }

    /// The type that the spec gives the node; an empty one counts as none.
    pub open spec fn declared_type(self) -> Option<Seq<char>> {
        match self.typ {
            Some(typ) => if typ.len() == 0 {
                None
            } else {
                Some(typ)
            },
            None => None,
        }
    }
}

impl RawDeviceNode {
    /// The path on the host at which the node has to be inspected.
    pub fn source_path(&self) -> (path: String)
        ensures
            path@ == self@.source(),
    {
        match &self.host_path {
            Some(host_path) => host_path.clone(),
            None => self.path.clone(),
        }
    }
}

/// What the host says of one of its device nodes.
#[derive(Debug, PartialEq, Eq)]
pub struct HostDevice {
    pub typ: String,
    pub major: i64,
    pub minor: i64,
}

/// The content of a [`HostDevice`].
pub struct HostDeviceView {
    pub typ: Seq<char>,
    pub major: i64,
    pub minor: i64,
}

impl View for HostDevice {
    type V = HostDeviceView;

    open spec fn view(&self) -> HostDeviceView {
        HostDeviceView { typ: self.typ@, major: self.major, minor: self.minor }
    }
}

/// A device node of a spec with what the host says of its [`RawDeviceNode::source_path`], or why
/// the host says nothing.
#[derive(Debug, PartialEq, Eq)]
pub struct InspectedDeviceNode {
    pub node: RawDeviceNode,
    pub host: Result<HostDevice, String>,
}

/// The content of an [`InspectedDeviceNode`].
pub struct InspectedDeviceNodeView {
    pub node: RawDeviceNodeView,
    pub host: Result<HostDeviceView, Seq<char>>,
}

impl View for InspectedDeviceNode {
    type V = InspectedDeviceNodeView;

    open spec fn view(&self) -> InspectedDeviceNodeView {
        InspectedDeviceNodeView { node: self.node@, host: result_view(self.host) }
    }
}

/// A mount as a spec writes it down.
#[derive(Debug, PartialEq, Eq)]
pub struct RawMount {
    pub host_path: String,
    pub container_path: String,
    pub typ: Option<String>,
    pub options: Option<Vec<String>>,
}

/// The texts of a [`RawMount`].
pub struct RawMountView {
    pub host_path: Seq<char>,
    pub container_path: Seq<char>,
    pub typ: Option<Seq<char>>,
    pub options: Option<Seq<Seq<char>>>,
}

impl View for RawMount {
    type V = RawMountView;

    open spec fn view(&self) -> RawMountView {
        RawMountView {
            host_path: self.host_path@,
            container_path: self.container_path@,
            typ: optional_text(self.typ),
            options: match self.options {
                Some(options) => Some(texts(options@)),
                None => None,
            },
        }
    }
}

/// The container edits of a spec or of a device. Of net devices and hooks only their number
/// matters, of the Intel RDT settings only whether there are any.
#[derive(Debug, PartialEq, Eq)]
pub struct RawContainerEdits {
    pub env: Option<Vec<String>>,
    pub device_nodes: Option<Vec<InspectedDeviceNode>>,
    pub net_devices: Option<usize>,
    pub hooks: Option<usize>,
    pub mounts: Option<Vec<RawMount>>,
    pub intel_rdt: bool,
    pub additional_gids: Option<Vec<u32>>,
}

/// The content of a [`RawContainerEdits`], where a missing list counts as an empty one.
pub struct RawContainerEditsView {
    pub env: Seq<Seq<char>>,
    pub device_nodes: Seq<InspectedDeviceNodeView>,
    pub net_devices: usize,
    pub hooks: usize,
    pub mounts: Seq<RawMountView>,
    pub intel_rdt: bool,
    pub additional_gids: usize,
}

impl View for RawContainerEdits {
    type V = RawContainerEditsView;

    open spec fn view(&self) -> RawContainerEditsView {
        RawContainerEditsView {
            env: match self.env {
                Some(env) => texts(env@),
                None => Seq::empty(),
            },
            device_nodes: match self.device_nodes {
                Some(nodes) => views(nodes@),
                None => Seq::empty(),
            },
            net_devices: match self.net_devices {
                Some(count) => count,
                None => 0,
            },
            hooks: match self.hooks {
                Some(count) => count,
                None => 0,
            },
            mounts: match self.mounts {
                Some(mounts) => views(mounts@),
                None => Seq::empty(),
            },
            intel_rdt: self.intel_rdt,
            additional_gids: match self.additional_gids {
                Some(gids) => gids.len(),
                None => 0,
            },
        }
    }
}

/// What became of container edits on their way through the wire format of CDI.
#[derive(Debug, PartialEq, Eq)]
pub enum WireEdits {
    /// The edits could be read.
    Decoded(RawContainerEdits),
    /// They could not be written in the wire format; the text says why.
    NotEncoded(String),
    /// They could not be read back from it; the text says why.
    NotDecoded(String),
}

/// The content of a [`WireEdits`].
pub enum WireEditsView {
    Decoded(RawContainerEditsView),
    NotEncoded(Seq<char>),
    NotDecoded(Seq<char>),
}

impl View for WireEdits {
    type V = WireEditsView;

    open spec fn view(&self) -> WireEditsView {
        match self {
            WireEdits::Decoded(edits) => WireEditsView::Decoded(edits@),
            WireEdits::NotEncoded(error) => WireEditsView::NotEncoded(error@),
            WireEdits::NotDecoded(error) => WireEditsView::NotDecoded(error@),
        }
    }
}

/// A CDI spec, as far as the edits of its devices need it.
#[derive(Debug, PartialEq, Eq)]
pub struct CdiSpec {
    /// The same for two devices exactly where they come from equal specs.
    pub id: usize,
    pub vendor: String,
    pub class: String,
    pub path: String,
    /// The edits for every device of the spec, where it has any.
    pub edits: Option<WireEdits>,
}

/// The content of a [`CdiSpec`].
pub struct CdiSpecView {
    pub id: usize,
    pub vendor: Seq<char>,
    pub class: Seq<char>,
    pub path: Seq<char>,
    pub edits: Option<WireEditsView>,
}

impl View for CdiSpec {
    type V = CdiSpecView;

    open spec fn view(&self) -> CdiSpecView {
        CdiSpecView {
            id: self.id,
            vendor: self.vendor@,
            class: self.class@,
            path: self.path@,
            edits: option_view(self.edits),
        }
    }
}

/// A device that the CDI cache knows.
#[derive(Debug, PartialEq, Eq)]
pub struct CdiDevice {
    pub spec: CdiSpec,
    pub edits: WireEdits,
}

/// The content of a [`CdiDevice`].
pub struct CdiDeviceView {
    pub spec: CdiSpecView,
    pub edits: WireEditsView,
}

impl View for CdiDevice {
    type V = CdiDeviceView;

    open spec fn view(&self) -> CdiDeviceView {
        CdiDeviceView { spec: self.spec@, edits: self.edits@ }
    }
}

/// Whether a node that a spec declares to be of type `node_type` can be served by a node of the
/// host of type `host_type`: the types agree, or the declared type is `u`, another name for `c`.
pub open spec fn types_match(node_type: Seq<char>, host_type: Seq<char>) -> bool {
    node_type == host_type || (node_type == "u"@ && host_type == "c"@)
}

/// Why a device node cannot be used: the host says nothing of it.
pub open spec fn inspection_failure(host_path: Seq<char>, error: Seq<char>) -> Seq<char> {
    "failed to inspect CDI device node host path "@ + host_path + ": "@ + error
}

/// Why a device node cannot be used: it is not of the declared type.
pub open spec fn type_mismatch(
    path: Seq<char>,
    host_path: Seq<char>,
    node_type: Seq<char>,
    host_type: Seq<char>,
) -> Seq<char> {
    "CDI device ("@ + path + ", "@ + host_path + "), host type mismatch ("@ + node_type + ", "@
        + host_type + ")"@
}

/// What `inspected`, asked for by `scope`, resolves to.
pub open spec fn resolved_node(inspected: InspectedDeviceNodeView, scope: CdiEditScopeView) -> Result<
    ResolvedCdiDeviceNodeView,
    Seq<char>,
> {
    let node = inspected.node;
    match inspected.host {
        Err(error) => Err(inspection_failure(node.source(), error)),
        Ok(host) => {
            let typ = match node.declared_type() {
                Some(declared) => declared,
                None => host.typ,
            };
            if node.declared_type() is Some && !types_match(typ, host.typ) {
                Err(type_mismatch(node.path, node.source(), typ, host.typ))
            } else {
                Ok(
                    ResolvedCdiDeviceNodeView {
                        host_path: node.source(),
                        container_path: node.path,
                        typ: Some(typ),
                        major: if node.major is None && typ != "p"@ {
                            Some(host.major)
                        } else {
                            node.major
                        },
                        minor: if node.minor is None && typ != "p"@ {
                            Some(host.minor)
                        } else {
                            node.minor
                        },
                        file_mode: node.file_mode,
                        permissions: node.permissions,
                        uid: node.uid,
                        gid: node.gid,
                        scope,
                    },
                )
            }
        },
    }
}

/// Whether a declared device type agrees with the type on the host.
pub fn device_types_match(node_type: &str, host_type: &str) -> (agree: bool)
    ensures
        agree == types_match(node_type@, host_type@),
{
    same_text(node_type, host_type) || (same_text(node_type, "u") && same_text(host_type, "c"))
}

/// Fills in what a device node of a spec leaves to the host, and checks the rest against it.
pub fn resolve_device_node(inspected: &InspectedDeviceNode, scope: CdiEditScope) -> (result: Result<
    ResolvedCdiDeviceNode,
    String,
>)
    ensures
        result_view(result) == resolved_node(inspected@, scope@),
{
    let node = &inspected.node;
    let host_path = node.source_path();
    let host = match &inspected.host {
        Ok(host) => host,
        Err(error) => {
            let mut reason = "failed to inspect CDI device node host path ".to_owned();
            reason.append(host_path.as_str());
            reason.append(": ");
            reason.append(error.as_str());
            return Err(reason);
        },
    };
    let typ = match &node.typ {
        Some(declared) if !declared.as_str().is_empty() => {
            if !device_types_match(declared.as_str(), host.typ.as_str()) {
                let mut reason = "CDI device (".to_owned();
                reason.append(node.path.as_str());
                reason.append(", ");
                reason.append(host_path.as_str());
                reason.append("), host type mismatch (");
                reason.append(declared.as_str());
                reason.append(", ");
                reason.append(host.typ.as_str());
                reason.append(")");
                return Err(reason);
            }
            declared.clone()
        },
        _ => host.typ.clone(),
    };
    let is_fifo = same_text(typ.as_str(), "p");
    let major: Option<i64> = match node.major {
        Some(major) => Some(major),
        None => if is_fifo {
            None
        } else {
            Some(host.major)
        },
    };
    let minor: Option<i64> = match node.minor {
        Some(minor) => Some(minor),
        None => if is_fifo {
            None
        } else {
            Some(host.minor)
        },
    };
    Ok(
        ResolvedCdiDeviceNode {
            host_path,
            container_path: node.path.clone(),
            typ: Some(typ),
            major,
            minor,
            file_mode: node.file_mode,
            permissions: copy_optional(&node.permissions),
            uid: node.uid,
            gid: node.gid,
            scope,
        },
    )
}

/// The edits, or why they cannot be had.
pub open spec fn decoded(wire: WireEditsView) -> Result<RawContainerEditsView, Seq<char>> {
    match wire {
        WireEditsView::Decoded(edits) => Ok(edits),
        WireEditsView::NotEncoded(error) => Err("failed to encode CDI container edits: "@ + error),
        WireEditsView::NotDecoded(error) => Err("failed to decode CDI container edits: "@ + error),
    }
}

/// The edits that came through the wire format.
pub fn decode_container_edits(wire: &WireEdits) -> (result: Result<&RawContainerEdits, String>)
    ensures
        match result {
            Ok(edits) => decoded(wire@) == Ok::<RawContainerEditsView, Seq<char>>(edits@),
            Err(reason) => decoded(wire@) == Err::<RawContainerEditsView, Seq<char>>(reason@),
        },
{
    match wire {
        WireEdits::Decoded(edits) => Ok(edits),
        WireEdits::NotEncoded(error) => {
            let mut reason = "failed to encode CDI container edits: ".to_owned();
            reason.append(error.as_str());
            Err(reason)
        },
        WireEdits::NotDecoded(error) => {
            let mut reason = "failed to decode CDI container edits: ".to_owned();
            reason.append(error.as_str());
            Err(reason)
        },
    }
}

/// What the nodes before the first that cannot be resolved resolve to.
pub open spec fn resolved_nodes(
    nodes: Seq<InspectedDeviceNodeView>,
    scope: CdiEditScopeView,
) -> Seq<ResolvedCdiDeviceNodeView>
    decreases nodes.len(),
{
    if nodes.len() == 0 {
        Seq::empty()
    } else {
        match resolved_node(nodes[0], scope) {
            Ok(node) => seq![node] + resolved_nodes(nodes.drop_first(), scope),
            Err(_) => Seq::empty(),
        }
    }
}

/// Why the first node that cannot be resolved cannot be resolved.
pub open spec fn first_failure(
    nodes: Seq<InspectedDeviceNodeView>,
    scope: CdiEditScopeView,
) -> Option<Seq<char>>
    decreases nodes.len(),
{
    if nodes.len() == 0 {
        None
    } else {
        match resolved_node(nodes[0], scope) {
            Ok(_) => first_failure(nodes.drop_first(), scope),
            Err(reason) => Some(reason),
        }
    }
}

/// The mount that `scope` asks for.
pub open spec fn resolved_mount(mount: RawMountView, scope: CdiEditScopeView) -> ResolvedCdiMountView {
    ResolvedCdiMountView {
        host_path: mount.host_path,
        container_path: mount.container_path,
        typ: mount.typ,
        options: match mount.options {
            Some(options) => options,
            None => Seq::empty(),
        },
        scope,
    }
}

/// `list` with a note of `count` edits of a kind without counterpart, where there are any.
pub open spec fn with_note(
    list: Seq<UnsupportedCdiEditView>,
    kind: UnsupportedCdiEditKind,
    count: usize,
    scope: CdiEditScopeView,
) -> Seq<UnsupportedCdiEditView> {
    if count > 0 {
        list.push(UnsupportedCdiEditView { kind, count, scope })
    } else {
        list
    }
}

/// `list` with a note for each kind without counterpart that `edits` holds edits of.
pub open spec fn with_notes(
    list: Seq<UnsupportedCdiEditView>,
    edits: RawContainerEditsView,
    scope: CdiEditScopeView,
) -> Seq<UnsupportedCdiEditView> {
    let list = with_note(list, UnsupportedCdiEditKind::Hooks, edits.hooks, scope);
    let list = with_note(list, UnsupportedCdiEditKind::NetDevices, edits.net_devices, scope);
    let list = with_note(
        list,
        UnsupportedCdiEditKind::IntelRdt,
        if edits.intel_rdt {
            1
        } else {
            0
        },
        scope,
    );
    with_note(list, UnsupportedCdiEditKind::AdditionalGids, edits.additional_gids, scope)
}

impl ResolvedCdiEditsView {
    /// The edits after those that `scope` asks for were added, and whether all of them could be.
    /// Edits that cannot be read change nothing. Where a device node cannot be resolved, the
    /// environment entries and the nodes before it were added, and nothing after it.
    pub open spec fn with_edits(self, wire: WireEditsView, scope: CdiEditScopeView) -> (
        ResolvedCdiEditsView,
        Result<(), Seq<char>>,
    ) {
        match decoded(wire) {
            Err(reason) => (self, Err(reason)),
            Ok(edits) => {
                let env = self.env + edits.env;
                let device_nodes = self.device_nodes + resolved_nodes(edits.device_nodes, scope);
                match first_failure(edits.device_nodes, scope) {
                    Some(reason) => (
                        ResolvedCdiEditsView { env, device_nodes, ..self },
                        Err(reason),
                    ),
                    None => (
                        ResolvedCdiEditsView {
                            env,
                            device_nodes,
                            mounts: self.mounts + edits.mounts.map_values(
                                |mount: RawMountView| resolved_mount(mount, scope),
                            ),
                            unsupported: with_notes(self.unsupported, edits, scope),
                        },
                        Ok(()),
                    ),
                }
            },
        }
    }
}

impl ResolvedCdiEdits {
    /// Notes `count` edits of a kind without counterpart, where there are any.
    pub fn report_unsupported(
        &mut self,
        kind: UnsupportedCdiEditKind,
        count: usize,
        scope: CdiEditScope,
    )
        ensures
            final(self)@ == (ResolvedCdiEditsView {
                unsupported: with_note(old(self)@.unsupported, kind, count, scope@),
                ..old(self)@
            }),
    {
        if count > 0 {
            let ghost before = self.unsupported@;
            self.unsupported.push(UnsupportedCdiEdit { kind, count, scope });
            assert(views(self.unsupported@) == views(before).push(
                UnsupportedCdiEditView { kind, count, scope: scope@ },
            ));
        }
    }

    /// Adds the edits that `scope` asks for.
    pub fn append_container_edits(&mut self, wire: &WireEdits, scope: CdiEditScope) -> (result:
        Result<(), String>)
        ensures
            final(self)@ == old(self)@.with_edits(wire@, scope@).0,
            result_view(result) == old(self)@.with_edits(wire@, scope@).1,
    {
        let edits = match decode_container_edits(wire) {
            Ok(edits) => edits,
            Err(reason) => {
                return Err(reason);
            },
        };
        let ghost before = self@;
        let ghost at = scope@;

        if let Some(env) = &edits.env {
            let mut env = copy_texts(env);
            let ghost old_env = self.env@;
            let ghost new_env = env@;
            self.env.append(&mut env);
            assert(texts(self.env@) == texts(old_env) + texts(new_env));
        }
        assert(self@.env == before.env + edits@.env);

        if let Some(nodes) = &edits.device_nodes {
            let ghost all = views(nodes@);
            assert(all.skip(0) == all);
            assert(before.device_nodes + resolved_nodes(all, at) == self@.device_nodes
                + resolved_nodes(all.skip(0), at));
            for i in 0..nodes.len()
                invariant
                    all == views(nodes@),
                    all == edits@.device_nodes,
                    decoded(wire@) == Ok::<RawContainerEditsView, Seq<char>>(edits@),
                    at == scope@,
                    before == old(self)@,
                    self@.env == before.env + edits@.env,
                    self@.mounts == before.mounts,
                    self@.unsupported == before.unsupported,
                    self@.device_nodes + resolved_nodes(all.skip(i as int), at)
                        == before.device_nodes + resolved_nodes(all, at),
                    first_failure(all.skip(i as int), at) == first_failure(all, at),
            {
                let ghost rest = all.skip(i as int);
                assert(rest[0] == nodes@[i as int]@);
                assert(rest.drop_first() == all.skip(i + 1));
                match resolve_device_node(&nodes[i], scope.clone()) {
                    Ok(node) => {
                        let ghost nodes_before = self.device_nodes@;
                        self.device_nodes.push(node);
                        assert(views(self.device_nodes@) == views(nodes_before).push(node@));
                        assert(views(nodes_before).push(node@) + resolved_nodes(
                            all.skip(i + 1),
                            at,
                        ) == views(nodes_before) + (seq![node@] + resolved_nodes(
                            all.skip(i + 1),
                            at,
                        )));
                    },
                    Err(reason) => {
                        assert(self@.device_nodes + Seq::<ResolvedCdiDeviceNodeView>::empty()
                            == self@.device_nodes);
                        return Err(reason);
                    },
                }
            }
            assert(all.skip(nodes.len() as int) == Seq::<InspectedDeviceNodeView>::empty());
        }
        assert(self@.device_nodes == before.device_nodes + resolved_nodes(edits@.device_nodes, at));

        let ghost to_mount = |mount: RawMountView| resolved_mount(mount, at);
        if let Some(mounts) = &edits.mounts {
            let ghost all = views(mounts@);
            assert(self@.mounts == before.mounts + all.take(0).map_values(to_mount));
            for i in 0..mounts.len()
                invariant
                    all == views(mounts@),
                    at == scope@,
                    to_mount == (|mount: RawMountView| resolved_mount(mount, at)),
                    self@.env == before.env + edits@.env,
                    self@.device_nodes == before.device_nodes + resolved_nodes(
                        edits@.device_nodes,
                        at,
                    ),
                    self@.unsupported == before.unsupported,
                    self@.mounts == before.mounts + all.take(i as int).map_values(to_mount),
            {
                let mount = &mounts[i];
                let ghost mounts_before = self.mounts@;
                let options = match &mount.options {
                    Some(options) => copy_texts(options),
                    None => Vec::new(),
                };
                let resolved = ResolvedCdiMount {
                    host_path: mount.host_path.clone(),
                    container_path: mount.container_path.clone(),
                    typ: copy_optional(&mount.typ),
                    options,
                    scope: scope.clone(),
                };
                assert(resolved@.options == to_mount(all[i as int]).options);
                assert(resolved@ == to_mount(all[i as int]));
                self.mounts.push(resolved);
                assert(views(self.mounts@) == views(mounts_before).push(to_mount(all[i as int])));
                assert(all.take(i + 1).map_values(to_mount) == all.take(i as int).map_values(
                    to_mount,
                ).push(to_mount(all[i as int])));
            }
            assert(all.take(mounts.len() as int) == all);
        }
        assert(self@.mounts == before.mounts + edits@.mounts.map_values(to_mount));

        let hooks: usize = match edits.hooks {
            Some(count) => count,
            None => 0,
        };
        self.report_unsupported(UnsupportedCdiEditKind::Hooks, hooks, scope.clone());
        let net_devices: usize = match edits.net_devices {
            Some(count) => count,
            None => 0,
        };
        self.report_unsupported(UnsupportedCdiEditKind::NetDevices, net_devices, scope.clone());
        let intel_rdt: usize = if edits.intel_rdt {
            1
        } else {
            0
        };
        self.report_unsupported(UnsupportedCdiEditKind::IntelRdt, intel_rdt, scope.clone());
        let additional_gids: usize = match &edits.additional_gids {
            Some(gids) => gids.len(),
            None => 0,
        };
        self.report_unsupported(UnsupportedCdiEditKind::AdditionalGids, additional_gids, scope);
        Ok(())
    }
}

impl CdiSpecView {
    /// The kind of the spec's devices.
    pub open spec fn kind(self) -> Seq<char> {
        self.vendor + "/"@ + self.class
    }

    /// The scope of the edits for every device of the spec.
    pub open spec fn scope(self) -> CdiEditScopeView {
        CdiEditScopeView::Spec { kind: self.kind(), path: self.path }
    }

    /// The scope of the edits of the device `qualified_name` of the spec.
    pub open spec fn device_scope(self, qualified_name: Seq<char>) -> CdiEditScopeView {
        CdiEditScopeView::Device { qualified_name, spec_kind: self.kind(), spec_path: self.path }
    }
}

/// How far the resolution of a list of devices has come.
pub struct CdiProgress {
    /// The edits of the devices so far.
    pub resolved: ResolvedCdiEditsView,
    /// The specs whose own edits were added.
    pub seen_specs: Seq<usize>,
    /// The devices that the cache does not know.
    pub unresolved: Seq<Seq<char>>,
}

/// What the cache said of the device at position `i`; nothing where it was not asked.
pub open spec fn lookup(found: Seq<Option<CdiDeviceView>>, i: int) -> Option<CdiDeviceView> {
    if 0 <= i < found.len() {
        found[i]
    } else {
        None
    }
}

/// Why there are no edits: the cache does not know the devices.
pub open spec fn unresolvable(devices: Seq<Seq<char>>) -> Seq<char> {
    "unresolvable CDI devices "@ + joined(devices, ", "@)
}

/// Nothing resolved yet.
pub open spec fn no_progress() -> CdiProgress {
    CdiProgress { resolved: no_edits(), seen_specs: Seq::empty(), unresolved: Seq::empty() }
}

impl CdiProgress {
    /// The progress after the edits that `scope` asks for.
    pub open spec fn after_edits(self, wire: WireEditsView, scope: CdiEditScopeView) -> Result<
        CdiProgress,
        Seq<char>,
    > {
        match self.resolved.with_edits(wire, scope).1 {
            Ok(_) => Ok(
                CdiProgress { resolved: self.resolved.with_edits(wire, scope).0, ..self },
            ),
            Err(reason) => Err(reason),
        }
    }

    /// The progress after the edits for every device of `spec`, which are added once, with the
    /// first device of the spec.
    pub open spec fn after_spec(self, spec: CdiSpecView) -> Result<CdiProgress, Seq<char>> {
        if self.seen_specs.contains(spec.id) {
            Ok(self)
        } else {
            let noted = CdiProgress { seen_specs: self.seen_specs.push(spec.id), ..self };
            match spec.edits {
                Some(wire) => noted.after_edits(wire, spec.scope()),
                None => Ok(noted),
            }
        }
    }

    /// The progress after the device `qualified_name`, of which the cache said `found`.
    pub open spec fn after_device(
        self,
        qualified_name: Seq<char>,
        found: Option<CdiDeviceView>,
    ) -> Result<CdiProgress, Seq<char>> {
        match found {
            None => Ok(
                CdiProgress { unresolved: self.unresolved.push(qualified_name), ..self },
            ),
            Some(device) => match self.after_spec(device.spec) {
                Ok(progress) => progress.after_edits(
                    device.edits,
                    device.spec.device_scope(qualified_name),
                ),
                Err(reason) => Err(reason),
            },
        }
    }

    /// What the devices from position `i` on make of the progress.
    pub open spec fn resolution_from(
        self,
        devices: Seq<Seq<char>>,
        found: Seq<Option<CdiDeviceView>>,
        i: int,
    ) -> Result<ResolvedCdiEditsView, Seq<char>>
        decreases devices.len() - i,
    {
        if i >= devices.len() {
            if self.unresolved.len() > 0 {
                Err(unresolvable(self.unresolved))
            } else {
                Ok(self.resolved)
            }
        } else {
            match self.after_device(devices[i], lookup(found, i)) {
                Ok(progress) => progress.resolution_from(devices, found, i + 1),
                Err(reason) => Err(reason),
            }
        }
    }
}

/// The edits of `devices`, of which the cache said `found`, or why there are none.
pub open spec fn resolution(devices: Seq<Seq<char>>, found: Seq<Option<CdiDeviceView>>) -> Result<
    ResolvedCdiEditsView,
    Seq<char>,
> {
    no_progress().resolution_from(devices, found, 0)
}

/// The view of each answer of the cache.
pub open spec fn found_views(found: Seq<Option<CdiDevice>>) -> Seq<Option<CdiDeviceView>> {
    found.map_values(|device: Option<CdiDevice>| option_view(device))
}

/// Whether `seen` holds `id`.
fn was_seen(seen: &Vec<usize>, id: usize) -> (found: bool)
    ensures
        found == seen@.contains(id),
{
    for i in 0..seen.len()
        invariant
            forall|j: int| 0 <= j < i ==> seen@[j] != id,
    {
        if seen[i] == id {
            return true;
        }
    }
    false
}

/// Collects the edits of `devices`, where `found` holds what the CDI cache knows of each of them.
/// A device without an entry in `found` counts as unknown to the cache.
pub fn resolve_cdi_edits(devices: &[String], found: &[Option<CdiDevice>]) -> (result: Result<
    ResolvedCdiEdits,
    String,
>)
    ensures
        result_view(result) == resolution(texts(devices@), found_views(found@)),
{
    let mut resolved = ResolvedCdiEdits::default();
    let mut seen_specs: Vec<usize> = Vec::new();
    let mut unresolved: Vec<String> = Vec::new();

    let ghost names = texts(devices@);
    let ghost known = found_views(found@);
    assert(texts(unresolved@) == Seq::<Seq<char>>::empty());
    for i in 0..devices.len()
        invariant
            names == texts(devices@),
            known == found_views(found@),
            (CdiProgress {
                resolved: resolved@,
                seen_specs: seen_specs@,
                unresolved: texts(unresolved@),
            }).resolution_from(names, known, i as int) == resolution(names, known),
    {
        let qualified_name = &devices[i];
        let ghost progress = CdiProgress {
            resolved: resolved@,
            seen_specs: seen_specs@,
            unresolved: texts(unresolved@),
        };
        if i >= found.len() || found[i].is_none() {
            assert(lookup(known, i as int) is None);
            let ghost before = unresolved@;
            unresolved.push(qualified_name.clone());
            assert(texts(unresolved@) == texts(before).push(names[i as int]));
        } else if let Some(device) = &found[i] {
            assert(lookup(known, i as int) == Some(device@));
            let spec = &device.spec;
            let mut spec_kind = spec.vendor.clone();
            spec_kind.append("/");
            spec_kind.append(spec.class.as_str());

            if !was_seen(&seen_specs, spec.id) {
                seen_specs.push(spec.id);
                if let Some(edits) = &spec.edits {
                    let scope = CdiEditScope::Spec {
                        kind: spec_kind.clone(),
                        path: spec.path.clone(),
                    };
                    match resolved.append_container_edits(edits, scope) {
                        Ok(_) => {},
                        Err(reason) => {
                            return Err(reason);
                        },
                    }
                }
            }
            let scope = CdiEditScope::Device {
                qualified_name: qualified_name.clone(),
                spec_kind,
                spec_path: spec.path.clone(),
            };
            match resolved.append_container_edits(&device.edits, scope) {
                Ok(_) => {},
                Err(reason) => {
                    return Err(reason);
                },
            }
        }
    }

    if unresolved.len() > 0 {
        let mut reason = "unresolvable CDI devices ".to_owned();
        let names = join(&unresolved, ", ");
        reason.append(names.as_str());
        return Err(reason);
    }
    Ok(resolved)
}

} // verus!
