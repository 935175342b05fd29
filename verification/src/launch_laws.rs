//! What a launch gets of the CDI devices that it asks for.

use vstd::prelude::*;

use crate::bwrap::{BwrapCdiDeviceView, BwrapCdiMountView};
use crate::cdi::{launch_outcome, translation, CdiPolicyView};
use crate::cdi_resolver::{
    lookup, resolution, resolved_mount, resolved_node, CdiDeviceView, CdiEditScopeView,
    InspectedDeviceNodeView, RawMountView, ResolvedCdiEditsView,
    WireEditsView,
};
use crate::resolver_laws::{
    includes, resolvable_nodes_resolve, selected_devices_are_resolved_in_full, specs_agree,
};
use crate::translation_laws::plain_edits_are_applied;

verus! {

/// A launch sets, provides and makes exactly what bubblewrap can apply of the edits of the granted
/// devices, and tells of the denied devices and then of the edits that it drops. It fails where the
/// policy does, for its reason, and where the edits cannot be had, for theirs.
pub proof fn launch_applies_the_edits_of_the_granted_devices(
    policy: CdiPolicyView,
    available: Seq<Seq<char>>,
    found: Seq<Option<CdiDeviceView>>,
)
    ensures
        policy.outcome(available) matches Err(reason) ==> (launch_outcome(
            policy,
            available,
            found,
        ) matches Err(launch_reason) && launch_reason == reason),
        policy.outcome(available) matches Ok(filtered) ==> {
            &&& resolution(filtered.devices, found) matches Err(reason) ==> (launch_outcome(
                policy,
                available,
                found,
            ) matches Err(launch_reason) && launch_reason
                == "failed to resolve CDI devices for sandbox: "@ + reason)
            &&& resolution(filtered.devices, found) matches Ok(edits) ==> {
                &&& launch_outcome(policy, available, found) matches Ok(applied)
                &&& applied.env == translation(edits).env
                &&& applied.devices == translation(edits).devices
                &&& applied.mounts == translation(edits).mounts
                &&& applied.warnings == filtered.warnings + translation(edits).warnings
            }
        },
{
}

/// Whether a mount of a spec asks for nothing but a bind mount, writable or read-only.
pub open spec fn is_plain_raw_mount(mount: RawMountView) -> bool {
    &&& mount.host_path.len() > 0 && mount.host_path[0] == '/'
    &&& mount.container_path.len() > 0 && mount.container_path[0] == '/'
    &&& mount.typ matches Some(typ) ==> typ.len() == 0 || typ == "bind"@ || typ == "none"@
    &&& mount.options matches Some(options) ==> {
        &&& options.len() == 0 || options.contains("bind"@) || options.contains("rbind"@)
        &&& forall|i: int|
            0 <= i < options.len() ==> #[trigger] options[i] == "bind"@ || options[i] == "rbind"@
                || options[i] == "ro"@
    }
}

/// Whether a mount of a spec asks to be read-only.
pub open spec fn asks_to_be_read_only(mount: RawMountView) -> bool {
    mount.options matches Some(options) && options.contains("ro"@)
}

/// The path on the host of a device node of a spec.
pub open spec fn host_path_of(inspected: InspectedDeviceNodeView) -> Seq<char> {
    match inspected.node.host_path {
        Some(path) => path,
        None => inspected.node.path,
    }
}

/// Whether a device node of a spec asks for nothing but a device of the host as it is.
pub open spec fn is_plain_raw_node(inspected: InspectedDeviceNodeView) -> bool {
    let node = inspected.node;
    &&& node.path.len() > 0 && node.path[0] == '/'
    &&& host_path_of(inspected).len() > 0 && host_path_of(inspected)[0] == '/'
    &&& node.permissions matches Some(permissions) ==> permissions.len() == 0 || permissions
        == "rwm"@
    &&& node.uid is None && node.gid is None && node.file_mode is None
    &&& match node.typ {
        Some(typ) => typ == "c"@ || typ == "b"@ || typ == "u"@,
        None => inspected.host matches Ok(host) && (host.typ == "c"@ || host.typ == "b"@),
    }
}

/// Whether a launch gets everything that `wire` asks for and bubblewrap can apply.
pub open spec fn gets_what_is_asked(
    env: Seq<(Seq<char>, Seq<char>)>,
    devices: Seq<BwrapCdiDeviceView>,
    mounts: Seq<BwrapCdiMountView>,
    wire: WireEditsView,
) -> bool {
    wire matches WireEditsView::Decoded(asked) && {
        &&& forall|i: int|
            0 <= i < asked.mounts.len() && is_plain_raw_mount(#[trigger] asked.mounts[i])
                ==> mounts.contains(
                BwrapCdiMountView {
                    host_path: asked.mounts[i].host_path,
                    container_path: asked.mounts[i].container_path,
                    read_only: asks_to_be_read_only(asked.mounts[i]),
                },
            )
        &&& forall|i: int|
            0 <= i < asked.device_nodes.len() && is_plain_raw_node(#[trigger] asked.device_nodes[i])
                ==> devices.contains(
                BwrapCdiDeviceView {
                    host_path: host_path_of(asked.device_nodes[i]),
                    container_path: asked.device_nodes[i].node.path,
                },
            )
        &&& forall|i: int, key: Seq<char>, value: Seq<char>|
            0 <= i < asked.env.len() && #[trigger] asked.env[i] == #[trigger] (key + seq!['=']
                + value) && key.len() > 0 && !key.contains('=') ==> env.contains((key, value))
    }
}

proof fn included_edits_are_applied(
    edits: ResolvedCdiEditsView,
    wire: WireEditsView,
    scope: CdiEditScopeView,
)
    requires
        includes(edits, wire, scope),
    ensures
        gets_what_is_asked(
            translation(edits).env,
            translation(edits).devices,
            translation(edits).mounts,
            wire,
        ),
{
    let asked = wire->Decoded_0;
    plain_edits_are_applied(edits);
    assert forall|i: int|
        0 <= i < asked.mounts.len() && is_plain_raw_mount(
            #[trigger] asked.mounts[i],
        ) implies translation(edits).mounts.contains(
        BwrapCdiMountView {
            host_path: asked.mounts[i].host_path,
            container_path: asked.mounts[i].container_path,
            read_only: asks_to_be_read_only(asked.mounts[i]),
        },
    ) by {
        let mount = resolved_mount(asked.mounts[i], scope);
        let k = edits.mounts.index_of(mount);
        assert(edits.mounts[k] == mount);
    }
    assert forall|i: int|
        0 <= i < asked.device_nodes.len() && is_plain_raw_node(
            #[trigger] asked.device_nodes[i],
        ) implies translation(edits).devices.contains(
        BwrapCdiDeviceView {
            host_path: host_path_of(asked.device_nodes[i]),
            container_path: asked.device_nodes[i].node.path,
        },
    ) by {
        resolvable_nodes_resolve(asked.device_nodes[i], scope);
        let node = resolved_node(asked.device_nodes[i], scope)->Ok_0;
        reveal_strlit("c");
        reveal_strlit("b");
        reveal_strlit("u");
        let k = edits.device_nodes.index_of(node);
        assert(edits.device_nodes[k] == node);
    }
    assert forall|i: int, key: Seq<char>, value: Seq<char>|
        0 <= i < asked.env.len() && #[trigger] asked.env[i] == #[trigger] (key + seq!['=']
            + value) && key.len() > 0 && !key.contains('=') implies translation(
        edits,
    ).env.contains((key, value)) by {
        let entry = asked.env[i];
        let k = edits.env.index_of(entry);
        assert(edits.env[k] == key + seq!['='] + value);
    }
}

/// Whenever a launch succeeds, the cache knows every granted device, and everything that bubblewrap
/// can apply of what a granted device or its spec asks for reaches the sandbox: every plain bind
/// mount, every plain device node and every well-formed environment entry.
pub proof fn launch_gets_what_its_devices_ask_for(
    policy: CdiPolicyView,
    available: Seq<Seq<char>>,
    found: Seq<Option<CdiDeviceView>>,
)
    requires
        specs_agree(found),
    ensures
        launch_outcome(policy, available, found) matches Ok(applied) ==> {
            &&& policy.outcome(available) matches Ok(filtered)
            &&& filtered.devices.len() <= found.len()
            &&& forall|i: int|
                0 <= i < filtered.devices.len() ==> {
                    &&& #[trigger] found[i] matches Some(device)
                    &&& gets_what_is_asked(
                        applied.env,
                        applied.devices,
                        applied.mounts,
                        device.edits,
                    )
                    &&& device.spec.edits matches Some(wire) ==> gets_what_is_asked(
                        applied.env,
                        applied.devices,
                        applied.mounts,
                        wire,
                    )
                }
        },
{
    if launch_outcome(policy, available, found) is Ok {
        let applied = launch_outcome(policy, available, found)->Ok_0;
        let filtered = policy.outcome(available)->Ok_0;
        let devices = filtered.devices;
        let edits = resolution(devices, found)->Ok_0;
        launch_applies_the_edits_of_the_granted_devices(policy, available, found);
        selected_devices_are_resolved_in_full(devices, found);
        if devices.len() > 0 {
            let last = devices.len() - 1;
            assert(crate::resolver_laws::includes_device(edits, devices, found, last));
            assert(lookup(found, last) is Some);
        }
        assert forall|i: int| 0 <= i < devices.len() implies {
            &&& #[trigger] found[i] matches Some(device)
            &&& gets_what_is_asked(applied.env, applied.devices, applied.mounts, device.edits)
            &&& device.spec.edits matches Some(wire) ==> gets_what_is_asked(
                applied.env,
                applied.devices,
                applied.mounts,
                wire,
            )
        } by {
            assert(crate::resolver_laws::includes_device(edits, devices, found, i));
            let device = lookup(found, i)->0;
            assert(found[i] == Some(device));
            included_edits_are_applied(edits, device.edits, device.spec.device_scope(devices[i]));
            if device.spec.edits is Some {
                included_edits_are_applied(edits, device.spec.edits->0, device.spec.scope());
            }
        }
    }
}

} // verus!
