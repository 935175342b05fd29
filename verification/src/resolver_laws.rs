//! What holds of the edits that the CDI specs of the selected devices ask for, and of a launch as
//! a whole.

use vstd::prelude::*;

use crate::bwrap::no_bwrap_edits;
use crate::cdi::{launch_outcome, translation, CdiPolicyView};
use crate::cdi_laws::{deny_list_wins, is_denied};
use crate::cdi_resolver::{
    decoded, first_failure, lookup, no_edits, no_progress, resolution, resolved_mount,
    resolved_node, resolved_nodes, types_match, unresolvable, with_note, CdiDeviceView,
    CdiEditScopeView, CdiProgress, CdiSpecView, InspectedDeviceNodeView, ResolvedCdiDeviceNodeView,
    ResolvedCdiEditsView, ResolvedCdiMountView, UnsupportedCdiEditKind, UnsupportedCdiEditView,
    WireEditsView,
};
use crate::translation_laws::{only_requested_edits_are_applied, paths_are_absolute};

verus! {

/// Whether the host has a device node as the spec declares it: there is one, and where the spec
/// declares a type, it is of that type, or a character device where `u` is declared.
pub open spec fn is_resolvable(inspected: InspectedDeviceNodeView) -> bool {
    inspected.host matches Ok(host) && (inspected.node.typ matches Some(declared) ==> declared.len()
        == 0 || declared == host.typ || (declared == "u"@ && host.typ == "c"@))
}

/// A node resolves exactly where the host has it as declared, whoever asks for it. It then keeps
/// everything that the spec declares of it, file mode, permissions and owner included, and takes
/// from the host only what the spec leaves open: its type, and, unless it is a fifo, the device
/// numbers. The path on the host is the path in the container where the spec names no other.
pub proof fn resolvable_nodes_resolve(inspected: InspectedDeviceNodeView, scope: CdiEditScopeView)
    ensures
        resolved_node(inspected, scope) is Ok <==> is_resolvable(inspected),
        resolved_node(inspected, scope) matches Ok(node) ==> {
            let asked = inspected.node;
            let host = inspected.host->Ok_0;
            &&& node.container_path == asked.path
            &&& asked.host_path matches Some(path) ==> node.host_path == path
            &&& asked.host_path is None ==> node.host_path == asked.path
            &&& node.typ is Some
            &&& asked.typ matches Some(declared) ==> declared.len() > 0 ==> node.typ->0 == declared
            &&& asked.typ matches Some(declared) ==> declared.len() == 0 ==> node.typ->0
                == host.typ
            &&& asked.typ is None ==> node.typ->0 == host.typ
            &&& asked.major is Some ==> node.major == asked.major
            &&& asked.major is None && node.typ->0 != "p"@ ==> node.major == Some(host.major)
            &&& asked.major is None && node.typ->0 == "p"@ ==> node.major is None
            &&& asked.minor is Some ==> node.minor == asked.minor
            &&& asked.minor is None && node.typ->0 != "p"@ ==> node.minor == Some(host.minor)
            &&& asked.minor is None && node.typ->0 == "p"@ ==> node.minor is None
            &&& node.file_mode == asked.file_mode
            &&& node.permissions == asked.permissions
            &&& node.uid == asked.uid
            &&& node.gid == asked.gid
            &&& node.scope == scope
        },
        resolved_node(inspected, scope) matches Err(reason) ==> {
            let asked = inspected.node;
            let source = match asked.host_path {
                Some(path) => path,
                None => asked.path,
            };
            &&& inspected.host matches Err(error) ==> reason
                == "failed to inspect CDI device node host path "@ + source + ": "@ + error
            &&& inspected.host matches Ok(host) ==> reason == "CDI device ("@ + asked.path + ", "@
                + source + "), host type mismatch ("@ + asked.typ->0 + ", "@ + host.typ + ")"@
        },
        forall|declared: Seq<char>, host_type: Seq<char>| #[trigger]
            types_match(declared, host_type) <==> declared == host_type || (declared == "u"@
                && host_type == "c"@),
{
}

/// Whether all of a container's edits can be had.
pub open spec fn is_usable(wire: WireEditsView) -> bool {
    wire matches WireEditsView::Decoded(edits) && forall|i: int|
        0 <= i < edits.device_nodes.len() ==> is_resolvable(#[trigger] edits.device_nodes[i])
}

/// A list of nodes resolves exactly where each of them does, and then to one node each.
pub proof fn nodes_resolve_one_by_one(
    nodes: Seq<InspectedDeviceNodeView>,
    scope: CdiEditScopeView,
)
    ensures
        first_failure(nodes, scope) is None <==> forall|i: int|
            0 <= i < nodes.len() ==> is_resolvable(#[trigger] nodes[i]),
        first_failure(nodes, scope) is None ==> {
            &&& resolved_nodes(nodes, scope).len() == nodes.len()
            &&& forall|i: int|
                0 <= i < nodes.len() ==> resolved_node(nodes[i], scope) == Ok::<_, Seq<char>>(
                    #[trigger] resolved_nodes(nodes, scope)[i],
                )
        },
    decreases nodes.len(),
{
    if nodes.len() > 0 {
        let rest = nodes.drop_first();
        nodes_resolve_one_by_one(rest, scope);
        resolvable_nodes_resolve(nodes[0], scope);
        if first_failure(nodes, scope) is None {
            assert forall|i: int| 0 <= i < nodes.len() implies is_resolvable(
                #[trigger] nodes[i],
            ) by {
                if i > 0 {
                    assert(nodes[i] == rest[i - 1]);
                }
            }
            assert forall|i: int| 0 <= i < nodes.len() implies resolved_node(nodes[i], scope)
                == Ok::<_, Seq<char>>(#[trigger] resolved_nodes(nodes, scope)[i]) by {
                if i > 0 {
                    assert(nodes[i] == rest[i - 1]);
                    assert(resolved_nodes(nodes, scope)[i] == resolved_nodes(rest, scope)[i - 1]);
                }
            }
        }
        if forall|i: int| 0 <= i < nodes.len() ==> is_resolvable(#[trigger] nodes[i]) {
            assert(is_resolvable(nodes[0]));
            assert forall|i: int| 0 <= i < rest.len() implies is_resolvable(#[trigger] rest[i]) by {
                assert(rest[i] == nodes[i + 1]);
            }
        }
    }
}

/// Whether all that `before` holds stands at the beginning of what `after` holds.
pub open spec fn extends(before: ResolvedCdiEditsView, after: ResolvedCdiEditsView) -> bool {
    &&& before.env.is_prefix_of(after.env)
    &&& before.device_nodes.is_prefix_of(after.device_nodes)
    &&& before.mounts.is_prefix_of(after.mounts)
    &&& before.unsupported.is_prefix_of(after.unsupported)
}

/// Edits are only ever added, in order: nothing that was resolved before is changed or moved.
pub proof fn edits_are_only_added(
    before: ResolvedCdiEditsView,
    wire: WireEditsView,
    scope: CdiEditScopeView,
)
    ensures
        extends(before, before.with_edits(wire, scope).0),
{
}

/// Edits can be added exactly where they are usable, whatever was added before; then every
/// environment entry, every node and every mount is added.
pub proof fn usable_edits_are_added(
    before: ResolvedCdiEditsView,
    wire: WireEditsView,
    scope: CdiEditScopeView,
)
    ensures
        before.with_edits(wire, scope).1 is Ok <==> is_usable(wire),
        is_usable(wire) ==> {
            let after = before.with_edits(wire, scope).0;
            let edits = wire->Decoded_0;
            &&& after.env == before.env + edits.env
            &&& after.device_nodes.len() == before.device_nodes.len() + edits.device_nodes.len()
            &&& after.mounts.len() == before.mounts.len() + edits.mounts.len()
        },
{
    match decoded(wire) {
        Ok(edits) => {
            nodes_resolve_one_by_one(edits.device_nodes, scope);
        },
        Err(_) => {},
    }
}

/// The edits for every device of a spec are added once, however many of its devices are selected.
pub proof fn spec_edits_are_added_once(progress: CdiProgress, spec: CdiSpecView, again: CdiSpecView)
    requires
        spec.id == again.id,
    ensures
        progress.after_spec(spec) matches Ok(after) ==> after.after_spec(again) == Ok::<
            CdiProgress,
            Seq<char>,
        >(after),
{
    let noted = progress.seen_specs.push(spec.id);
    assert(noted[noted.len() - 1] == spec.id);
    assert(noted.contains(spec.id));
}

/// The devices from position `i` on that the cache does not know.
pub open spec fn unknown_from(
    devices: Seq<Seq<char>>,
    found: Seq<Option<CdiDeviceView>>,
    i: int,
) -> Seq<Seq<char>>
    decreases devices.len() - i,
{
    if i >= devices.len() {
        Seq::empty()
    } else if lookup(found, i) is None {
        seq![devices[i]] + unknown_from(devices, found, i + 1)
    } else {
        unknown_from(devices, found, i + 1)
    }
}

/// Whether the edits of a device and of its spec can be had.
pub open spec fn is_usable_device(device: CdiDeviceView) -> bool {
    is_usable(device.edits) && (device.spec.edits matches Some(wire) ==> is_usable(wire))
}

/// Whether answers of the cache with the same spec id agree on the spec.
pub open spec fn specs_agree(found: Seq<Option<CdiDeviceView>>) -> bool {
    forall|i: int, j: int|
        #![trigger found[i], found[j]]
        0 <= i < found.len() && 0 <= j < found.len() && found[i] is Some && found[j] is Some
            && found[i]->0.spec.id == found[j]->0.spec.id ==> found[i]->0.spec
            == found[j]->0.spec
}

/// Whether the edits of every device from position `i` on that the cache knows can be had.
pub open spec fn are_usable_from(
    devices: Seq<Seq<char>>,
    found: Seq<Option<CdiDeviceView>>,
    i: int,
) -> bool {
    forall|j: int|
        i <= j < devices.len() && lookup(found, j) is Some ==> is_usable_device(
            (#[trigger] lookup(found, j))->0,
        )
}

/// Whether the edits of the specs seen so far can be had.
spec fn seen_specs_are_usable(progress: CdiProgress, found: Seq<Option<CdiDeviceView>>) -> bool {
    forall|j: int|
        0 <= j < found.len() && found[j] is Some && progress.seen_specs.contains(
            (#[trigger] found[j])->0.spec.id,
        ) ==> (found[j]->0.spec.edits matches Some(wire) ==> is_usable(wire))
}

proof fn resolution_from_is_exact(
    progress: CdiProgress,
    devices: Seq<Seq<char>>,
    found: Seq<Option<CdiDeviceView>>,
    i: int,
)
    requires
        0 <= i <= devices.len(),
        specs_agree(found),
        seen_specs_are_usable(progress, found),
    ensures
        ({
            let outcome = progress.resolution_from(devices, found, i);
            let unknown = progress.unresolved + unknown_from(devices, found, i);
            if are_usable_from(devices, found, i) {
                if unknown.len() > 0 {
                    outcome == Err::<ResolvedCdiEditsView, Seq<char>>(unresolvable(unknown))
                } else {
                    outcome is Ok
                }
            } else {
                outcome is Err
            }
        }),
    decreases devices.len() - i,
{
    if i == devices.len() {
        assert(progress.unresolved + unknown_from(devices, found, i) == progress.unresolved);
    } else {
        match lookup(found, i) {
            None => {
                let after = progress.after_device(devices[i], None)->Ok_0;
                resolution_from_is_exact(after, devices, found, i + 1);
                assert(after.unresolved + unknown_from(devices, found, i + 1)
                    == progress.unresolved + unknown_from(devices, found, i));
                assert(are_usable_from(devices, found, i + 1) ==> are_usable_from(
                    devices,
                    found,
                    i,
                )) by {
                    assert forall|j: int|
                        are_usable_from(devices, found, i + 1) && i <= j < devices.len() && lookup(
                            found,
                            j,
                        ) is Some implies is_usable_device((#[trigger] lookup(found, j))->0) by {
                        if j > i {
                            assert(i + 1 <= j);
                        }
                    }
                }
            },
            Some(device) => {
                let spec = device.spec;
                assert(found[i] == Some(device));
                let seen = progress.seen_specs.contains(spec.id);
                let noted = CdiProgress {
                    seen_specs: progress.seen_specs.push(spec.id),
                    ..progress
                };
                let with_spec = progress.after_spec(spec);
                if spec.edits is Some {
                    usable_edits_are_added(noted.resolved, spec.edits->0, spec.scope());
                }
                assert(with_spec is Ok <==> (spec.edits matches Some(wire) ==> is_usable(wire)));
                if with_spec is Ok {
                    let middle = with_spec->Ok_0;
                    usable_edits_are_added(
                        middle.resolved,
                        device.edits,
                        spec.device_scope(devices[i]),
                    );
                    let after = progress.after_device(devices[i], Some(device));
                    assert(after is Ok <==> is_usable(device.edits));
                    if after is Ok {
                        let next = after->Ok_0;
                        assert(seen_specs_are_usable(next, found)) by {
                            assert forall|j: int|
                                0 <= j < found.len() && found[j] is Some
                                    && next.seen_specs.contains(
                                    (#[trigger] found[j])->0.spec.id,
                                ) implies (found[j]->0.spec.edits matches Some(wire) ==> is_usable(
                                wire,
                            )) by {
                                let id = found[j]->0.spec.id;
                                if !seen {
                                    vstd::seq_lib::lemma_seq_contains_after_push(
                                        progress.seen_specs,
                                        spec.id,
                                        id,
                                    );
                                    if id == spec.id {
                                        assert(found[j]->0.spec == found[i]->0.spec);
                                    }
                                }
                            }
                        }
                        resolution_from_is_exact(next, devices, found, i + 1);
                        assert forall|j: int|
                            are_usable_from(devices, found, i + 1) && i <= j < devices.len()
                                && lookup(found, j) is Some implies is_usable_device(
                            (#[trigger] lookup(found, j))->0,
                        ) by {
                            if j > i {
                                assert(i + 1 <= j);
                            }
                        }
                    } else {
                        assert(!is_usable_device(lookup(found, i)->0));
                    }
                } else {
                    assert(!is_usable_device(lookup(found, i)->0));
                }
            },
        }
    }
}

/// The devices resolve exactly where the cache knows all of them and all their edits can be had;
/// where only devices are unknown, the reason names exactly those, in order.
pub proof fn resolution_is_exact(devices: Seq<Seq<char>>, found: Seq<Option<CdiDeviceView>>)
    requires
        specs_agree(found),
    ensures
        ({
            let unknown = unknown_from(devices, found, 0);
            if are_usable_from(devices, found, 0) {
                if unknown.len() > 0 {
                    resolution(devices, found) == Err::<ResolvedCdiEditsView, Seq<char>>(
                        unresolvable(unknown),
                    )
                } else {
                    resolution(devices, found) is Ok
                }
            } else {
                resolution(devices, found) is Err
            }
        }),
{
    resolution_from_is_exact(no_progress(), devices, found, 0);
    assert(no_progress().unresolved + unknown_from(devices, found, 0) == unknown_from(
        devices,
        found,
        0,
    ));
}

/// Whether `scope` is one of the `devices` or the spec of one.
pub open spec fn is_selected(
    scope: CdiEditScopeView,
    devices: Seq<Seq<char>>,
    found: Seq<Option<CdiDeviceView>>,
) -> bool {
    exists|i: int|
        0 <= i < devices.len() && (#[trigger] lookup(found, i) matches Some(device) && (scope
            == device.spec.device_scope(devices[i]) || scope == device.spec.scope()))
}

/// Whether `wire` asks for the environment entry `entry`.
pub open spec fn sets_entry(wire: WireEditsView, entry: Seq<char>) -> bool {
    wire matches WireEditsView::Decoded(asked) && asked.env.contains(entry)
}

/// Whether one of the `devices` or the spec of one asks for the environment entry `entry`.
pub open spec fn is_selected_entry(
    entry: Seq<char>,
    devices: Seq<Seq<char>>,
    found: Seq<Option<CdiDeviceView>>,
) -> bool {
    exists|i: int|
        0 <= i < devices.len() && (#[trigger] lookup(found, i) matches Some(device) && (sets_entry(
            device.edits,
            entry,
        ) || (device.spec.edits matches Some(wire) && sets_entry(wire, entry))))
}

/// Whether everything in `edits` is asked for by one of the `devices` or the spec of one.
pub open spec fn come_from_selected(
    edits: ResolvedCdiEditsView,
    devices: Seq<Seq<char>>,
    found: Seq<Option<CdiDeviceView>>,
) -> bool {
    &&& forall|i: int|
        0 <= i < edits.env.len() ==> is_selected_entry(#[trigger] edits.env[i], devices, found)
    &&& forall|i: int|
        0 <= i < edits.device_nodes.len() ==> is_selected(
            (#[trigger] edits.device_nodes[i]).scope,
            devices,
            found,
        )
    &&& forall|i: int|
        0 <= i < edits.mounts.len() ==> is_selected(
            (#[trigger] edits.mounts[i]).scope,
            devices,
            found,
        )
    &&& forall|i: int|
        0 <= i < edits.unsupported.len() ==> is_selected(
            (#[trigger] edits.unsupported[i]).scope,
            devices,
            found,
        )
}

proof fn resolved_nodes_keep_the_scope(
    nodes: Seq<InspectedDeviceNodeView>,
    scope: CdiEditScopeView,
)
    ensures
        forall|i: int|
            0 <= i < resolved_nodes(nodes, scope).len() ==> (#[trigger] resolved_nodes(
                nodes,
                scope,
            )[i]).scope == scope,
    decreases nodes.len(),
{
    if nodes.len() > 0 {
        resolved_nodes_keep_the_scope(nodes.drop_first(), scope);
    }
}

proof fn added_edits_come_from_selected(
    before: ResolvedCdiEditsView,
    wire: WireEditsView,
    scope: CdiEditScopeView,
    devices: Seq<Seq<char>>,
    found: Seq<Option<CdiDeviceView>>,
)
    requires
        come_from_selected(before, devices, found),
        is_selected(scope, devices, found),
        forall|entry: Seq<char>| #[trigger]
            sets_entry(wire, entry) ==> is_selected_entry(entry, devices, found),
    ensures
        come_from_selected(before.with_edits(wire, scope).0, devices, found),
{
    match decoded(wire) {
        Ok(edits) => {
            resolved_nodes_keep_the_scope(edits.device_nodes, scope);
            let after = before.with_edits(wire, scope).0;
            assert forall|i: int| 0 <= i < after.env.len() implies is_selected_entry(
                #[trigger] after.env[i],
                devices,
                found,
            ) by {
                if i >= before.env.len() {
                    assert(after.env[i] == edits.env[i - before.env.len()]);
                    assert(sets_entry(wire, after.env[i]));
                } else {
                    assert(after.env[i] == before.env[i]);
                }
            }
        },
        Err(_) => {},
    }
}

proof fn resolution_from_comes_from_selected(
    progress: CdiProgress,
    devices: Seq<Seq<char>>,
    found: Seq<Option<CdiDeviceView>>,
    i: int,
)
    requires
        0 <= i <= devices.len(),
        come_from_selected(progress.resolved, devices, found),
    ensures
        progress.resolution_from(devices, found, i) matches Ok(edits) ==> come_from_selected(
            edits,
            devices,
            found,
        ),
    decreases devices.len() - i,
{
    if i < devices.len() {
        match progress.after_device(devices[i], lookup(found, i)) {
            Ok(next) => {
                if lookup(found, i) is Some {
                    let device = lookup(found, i)->0;
                    assert(is_selected(device.spec.scope(), devices, found));
                    assert(is_selected(device.spec.device_scope(devices[i]), devices, found));
                    let middle = progress.after_spec(device.spec)->Ok_0;
                    if device.spec.edits is Some {
                        added_edits_come_from_selected(
                            progress.resolved,
                            device.spec.edits->0,
                            device.spec.scope(),
                            devices,
                            found,
                        );
                    }
                    assert(come_from_selected(middle.resolved, devices, found));
                    added_edits_come_from_selected(
                        middle.resolved,
                        device.edits,
                        device.spec.device_scope(devices[i]),
                        devices,
                        found,
                    );
                }
                resolution_from_comes_from_selected(next, devices, found, i + 1);
            },
            Err(_) => {},
        }
    }
}

/// Every environment entry, device node, mount and unsupported edit is asked for by one of the
/// devices or the spec of one: a device that was not selected adds nothing.
pub proof fn edits_come_from_selected_devices(
    devices: Seq<Seq<char>>,
    found: Seq<Option<CdiDeviceView>>,
)
    ensures
        resolution(devices, found) matches Ok(edits) ==> come_from_selected(edits, devices, found),
{
    resolution_from_comes_from_selected(no_progress(), devices, found, 0);
}

/// Whether `edits` holds everything that `wire` asks for in the name of `scope`.
pub open spec fn includes(
    edits: ResolvedCdiEditsView,
    wire: WireEditsView,
    scope: CdiEditScopeView,
) -> bool {
    wire matches WireEditsView::Decoded(asked) && {
        &&& forall|i: int|
            0 <= i < asked.env.len() ==> edits.env.contains(#[trigger] asked.env[i])
        &&& forall|i: int|
            0 <= i < asked.device_nodes.len() ==> (resolved_node(
                #[trigger] asked.device_nodes[i],
                scope,
            ) matches Ok(node) && edits.device_nodes.contains(node))
        &&& forall|i: int|
            0 <= i < asked.mounts.len() ==> edits.mounts.contains(
                resolved_mount(#[trigger] asked.mounts[i], scope),
            )
        &&& asked.hooks > 0 ==> edits.unsupported.contains(
            UnsupportedCdiEditView {
                kind: UnsupportedCdiEditKind::Hooks,
                count: asked.hooks,
                scope,
            },
        )
        &&& asked.net_devices > 0 ==> edits.unsupported.contains(
            UnsupportedCdiEditView {
                kind: UnsupportedCdiEditKind::NetDevices,
                count: asked.net_devices,
                scope,
            },
        )
        &&& asked.intel_rdt ==> edits.unsupported.contains(
            UnsupportedCdiEditView { kind: UnsupportedCdiEditKind::IntelRdt, count: 1, scope },
        )
        &&& asked.additional_gids > 0 ==> edits.unsupported.contains(
            UnsupportedCdiEditView {
                kind: UnsupportedCdiEditKind::AdditionalGids,
                count: asked.additional_gids,
                scope,
            },
        )
    }
}

proof fn extensions_hold_the_members<A>(before: Seq<A>, after: Seq<A>, item: A)
    requires
        before.is_prefix_of(after),
        before.contains(item),
    ensures
        after.contains(item),
{
    let k = before.index_of(item);
    assert(after[k] == before[k]);
}

proof fn extensions_include_as_much(
    before: ResolvedCdiEditsView,
    after: ResolvedCdiEditsView,
    wire: WireEditsView,
    scope: CdiEditScopeView,
)
    requires
        extends(before, after),
        includes(before, wire, scope),
    ensures
        includes(after, wire, scope),
{
    assert forall|entry: Seq<char>| before.env.contains(entry) implies #[trigger] after.env.contains(
        entry,
    ) by {
        extensions_hold_the_members(before.env, after.env, entry);
    }
    assert forall|node: ResolvedCdiDeviceNodeView|
        before.device_nodes.contains(node) implies #[trigger] after.device_nodes.contains(node) by {
        extensions_hold_the_members(before.device_nodes, after.device_nodes, node);
    }
    assert forall|mount: ResolvedCdiMountView|
        before.mounts.contains(mount) implies #[trigger] after.mounts.contains(mount) by {
        extensions_hold_the_members(before.mounts, after.mounts, mount);
    }
    assert forall|note: UnsupportedCdiEditView|
        before.unsupported.contains(note) implies #[trigger] after.unsupported.contains(note) by {
        extensions_hold_the_members(before.unsupported, after.unsupported, note);
    }
}

proof fn notes_are_added(
    list: Seq<UnsupportedCdiEditView>,
    kind: UnsupportedCdiEditKind,
    count: usize,
    scope: CdiEditScopeView,
)
    ensures
        list.is_prefix_of(with_note(list, kind, count, scope)),
        count > 0 ==> with_note(list, kind, count, scope).contains(
            UnsupportedCdiEditView { kind, count, scope },
        ),
{
    let after = with_note(list, kind, count, scope);
    if count > 0 {
        assert(after[after.len() - 1] == (UnsupportedCdiEditView { kind, count, scope }));
    }
}

/// Edits that could be added are included, and what was included before still is.
pub proof fn added_edits_are_included(
    before: ResolvedCdiEditsView,
    wire: WireEditsView,
    scope: CdiEditScopeView,
)
    ensures
        extends(before, before.with_edits(wire, scope).0),
        before.with_edits(wire, scope).1 is Ok ==> includes(
            before.with_edits(wire, scope).0,
            wire,
            scope,
        ),
{
    edits_are_only_added(before, wire, scope);
    if before.with_edits(wire, scope).1 is Ok {
        let after = before.with_edits(wire, scope).0;
        let asked = decoded(wire)->Ok_0;
        nodes_resolve_one_by_one(asked.device_nodes, scope);
        assert forall|i: int| 0 <= i < asked.env.len() implies after.env.contains(
            #[trigger] asked.env[i],
        ) by {
            assert(after.env[before.env.len() + i] == asked.env[i]);
        }
        assert forall|i: int| 0 <= i < asked.device_nodes.len() implies (resolved_node(
            #[trigger] asked.device_nodes[i],
            scope,
        ) matches Ok(node) && after.device_nodes.contains(node)) by {
            let nodes = resolved_nodes(asked.device_nodes, scope);
            assert(resolved_node(asked.device_nodes[i], scope) == Ok::<_, Seq<char>>(nodes[i]));
            assert(after.device_nodes[before.device_nodes.len() + i] == nodes[i]);
        }
        assert forall|i: int| 0 <= i < asked.mounts.len() implies after.mounts.contains(
            resolved_mount(#[trigger] asked.mounts[i], scope),
        ) by {
            assert(after.mounts[before.mounts.len() + i] == resolved_mount(asked.mounts[i], scope));
        }
        let hooks = with_note(
            before.unsupported,
            UnsupportedCdiEditKind::Hooks,
            asked.hooks,
            scope,
        );
        let net_devices = with_note(
            hooks,
            UnsupportedCdiEditKind::NetDevices,
            asked.net_devices,
            scope,
        );
        let rdt_count: usize = if asked.intel_rdt {
            1
        } else {
            0
        };
        let intel_rdt = with_note(net_devices, UnsupportedCdiEditKind::IntelRdt, rdt_count, scope);
        notes_are_added(before.unsupported, UnsupportedCdiEditKind::Hooks, asked.hooks, scope);
        notes_are_added(hooks, UnsupportedCdiEditKind::NetDevices, asked.net_devices, scope);
        notes_are_added(net_devices, UnsupportedCdiEditKind::IntelRdt, rdt_count, scope);
        notes_are_added(
            intel_rdt,
            UnsupportedCdiEditKind::AdditionalGids,
            asked.additional_gids,
            scope,
        );
        let end = after.unsupported;
        assert forall|note: UnsupportedCdiEditView|
            hooks.contains(note) || net_devices.contains(note) || intel_rdt.contains(
                note,
            ) implies #[trigger] end.contains(note) by {
            if hooks.contains(note) {
                extensions_hold_the_members(hooks, net_devices, note);
            }
            if net_devices.contains(note) {
                extensions_hold_the_members(net_devices, intel_rdt, note);
            }
            extensions_hold_the_members(intel_rdt, end, note);
        }
    }
}

/// Whether the edits of the specs seen so far are included.
spec fn seen_specs_are_included(progress: CdiProgress, found: Seq<Option<CdiDeviceView>>) -> bool {
    forall|j: int|
        0 <= j < found.len() && found[j] is Some && progress.seen_specs.contains(
            (#[trigger] found[j])->0.spec.id,
        ) ==> (found[j]->0.spec.edits matches Some(wire) ==> includes(
            progress.resolved,
            wire,
            found[j]->0.spec.scope(),
        ))
}

/// Whether the edits of the device at position `i` and of its spec are included.
pub open spec fn includes_device(
    edits: ResolvedCdiEditsView,
    devices: Seq<Seq<char>>,
    found: Seq<Option<CdiDeviceView>>,
    i: int,
) -> bool {
    lookup(found, i) matches Some(device) && {
        &&& includes(edits, device.edits, device.spec.device_scope(devices[i]))
        &&& device.spec.edits matches Some(wire) ==> includes(edits, wire, device.spec.scope())
    }
}

proof fn resolution_from_includes_the_rest(
    progress: CdiProgress,
    devices: Seq<Seq<char>>,
    found: Seq<Option<CdiDeviceView>>,
    i: int,
)
    requires
        0 <= i <= devices.len(),
        specs_agree(found),
        seen_specs_are_included(progress, found),
    ensures
        progress.resolution_from(devices, found, i) matches Ok(edits) ==> {
            &&& extends(progress.resolved, edits)
            &&& progress.unresolved.len() == 0
            &&& forall|j: int|
                i <= j < devices.len() ==> #[trigger] includes_device(edits, devices, found, j)
        },
    decreases devices.len() - i,
{
    if i < devices.len() && progress.resolution_from(devices, found, i) is Ok {
        let edits = progress.resolution_from(devices, found, i)->Ok_0;
        let next = progress.after_device(devices[i], lookup(found, i))->Ok_0;
        match lookup(found, i) {
            None => {
                resolution_from_includes_the_rest(next, devices, found, i + 1);
                assert(next.unresolved.len() > 0);
            },
            Some(device) => {
                let spec = device.spec;
                assert(found[i] == Some(device));
                let seen = progress.seen_specs.contains(spec.id);
                let middle = progress.after_spec(spec)->Ok_0;
                if spec.edits is Some {
                    added_edits_are_included(progress.resolved, spec.edits->0, spec.scope());
                }
                assert(extends(progress.resolved, middle.resolved));
                assert(spec.edits matches Some(wire) ==> includes(
                    middle.resolved,
                    wire,
                    spec.scope(),
                ));
                added_edits_are_included(
                    middle.resolved,
                    device.edits,
                    spec.device_scope(devices[i]),
                );
                assert(extends(progress.resolved, next.resolved));
                if spec.edits is Some {
                    extensions_include_as_much(
                        middle.resolved,
                        next.resolved,
                        spec.edits->0,
                        spec.scope(),
                    );
                }
                assert(seen_specs_are_included(next, found)) by {
                    assert forall|j: int|
                        0 <= j < found.len() && found[j] is Some && next.seen_specs.contains(
                            (#[trigger] found[j])->0.spec.id,
                        ) implies (found[j]->0.spec.edits matches Some(wire) ==> includes(
                        next.resolved,
                        wire,
                        found[j]->0.spec.scope(),
                    )) by {
                        let other = found[j]->0.spec;
                        if !seen {
                            vstd::seq_lib::lemma_seq_contains_after_push(
                                progress.seen_specs,
                                spec.id,
                                other.id,
                            );
                        }
                        if other.id == spec.id {
                            assert(found[j]->0.spec == found[i]->0.spec);
                        } else if other.edits is Some {
                            extensions_include_as_much(
                                progress.resolved,
                                next.resolved,
                                other.edits->0,
                                other.scope(),
                            );
                        }
                    }
                }
                resolution_from_includes_the_rest(next, devices, found, i + 1);
                extensions_include_as_much(
                    next.resolved,
                    edits,
                    device.edits,
                    spec.device_scope(devices[i]),
                );
                if spec.edits is Some {
                    extensions_include_as_much(
                        next.resolved,
                        edits,
                        spec.edits->0,
                        spec.scope(),
                    );
                }
                assert forall|j: int| i <= j < devices.len() implies #[trigger] includes_device(
                    edits,
                    devices,
                    found,
                    j,
                ) by {
                    if j > i {
                        assert(i + 1 <= j);
                    }
                }
            },
        }
    }
}

/// Nothing that a selected device or its spec asks for is lost on the way.
pub proof fn selected_devices_are_resolved_in_full(
    devices: Seq<Seq<char>>,
    found: Seq<Option<CdiDeviceView>>,
)
    requires
        specs_agree(found),
    ensures
        resolution(devices, found) matches Ok(edits) ==> forall|i: int|
            0 <= i < devices.len() ==> #[trigger] includes_device(edits, devices, found, i),
{
    resolution_from_includes_the_rest(no_progress(), devices, found, 0);
}

/// A sandbox that asks for no device is launched as if there were no CDI: no edits, no warnings.
pub proof fn launch_without_requests_changes_nothing(
    policy: CdiPolicyView,
    available: Seq<Seq<char>>,
    found: Seq<Option<CdiDeviceView>>,
)
    requires
        policy.requested.len() == 0,
    ensures
        launch_outcome(policy, available, found) == Ok::<_, Seq<char>>(no_bwrap_edits()),
{
    let filtered = policy.outcome(available)->Ok_0;
    assert(filtered.devices == Seq::<Seq<char>>::empty());
    assert(filtered.warnings == Seq::<Seq<char>>::empty());
    assert(resolution(filtered.devices, found) == Ok::<_, Seq<char>>(no_edits()));
    let applied = translation(no_edits());
    assert(applied.env == no_bwrap_edits().env);
    assert(applied.devices == no_bwrap_edits().devices);
    assert(applied.mounts == no_bwrap_edits().mounts);
    assert(filtered.warnings + applied.warnings == no_bwrap_edits().warnings);
}

/// Whether `scope` is the device `device`.
pub open spec fn is_scope_of(scope: CdiEditScopeView, device: Seq<char>) -> bool {
    scope matches CdiEditScopeView::Device { qualified_name, .. } && qualified_name == device
}

/// A denied device asks for nothing in a launch: no device node and no mount is there on its
/// behalf.
pub proof fn denied_devices_ask_for_nothing(
    policy: CdiPolicyView,
    available: Seq<Seq<char>>,
    found: Seq<Option<CdiDeviceView>>,
    device: Seq<char>,
)
    requires
        is_denied(policy, device),
    ensures
        policy.outcome(available) matches Ok(filtered) ==> (resolution(
            filtered.devices,
            found,
        ) matches Ok(edits) ==> {
            &&& forall|i: int|
                0 <= i < edits.device_nodes.len() ==> !is_scope_of(
                    (#[trigger] edits.device_nodes[i]).scope,
                    device,
                )
            &&& forall|i: int|
                0 <= i < edits.mounts.len() ==> !is_scope_of(
                    (#[trigger] edits.mounts[i]).scope,
                    device,
                )
        }),
{
    if policy.outcome(available) is Ok {
        let devices = policy.outcome(available)->Ok_0.devices;
        deny_list_wins(policy, available, device);
        edits_come_from_selected_devices(devices, found);
        assert forall|scope: CdiEditScopeView| is_selected(scope, devices, found) implies !(
        #[trigger] is_scope_of(scope, device)) by {
            let i = choose|i: int|
                0 <= i < devices.len() && (#[trigger] lookup(found, i) matches Some(known) && (scope
                    == known.spec.device_scope(devices[i]) || scope == known.spec.scope()));
            assert(devices.contains(devices[i]));
        }
    }
}

/// A launch tells of the denied devices first, provides nothing at relative paths, and happens only
/// where the policy lets it.
pub proof fn launch_keeps_to_the_policy(
    policy: CdiPolicyView,
    available: Seq<Seq<char>>,
    found: Seq<Option<CdiDeviceView>>,
)
    ensures
        launch_outcome(policy, available, found) matches Ok(applied) ==> {
            &&& policy.outcome(available) matches Ok(filtered)
            &&& filtered.warnings.is_prefix_of(applied.warnings)
            &&& paths_are_absolute(applied)
        },
{
    match policy.outcome(available) {
        Ok(filtered) => match resolution(filtered.devices, found) {
            Ok(edits) => {
                only_requested_edits_are_applied(edits);
            },
            Err(_) => {},
        },
        Err(_) => {},
    }
}

} // verus!
