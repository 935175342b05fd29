//! Which edits the selected devices come to, part by part.

use vstd::prelude::*;

use crate::cdi_resolver::{
    decoded, first_failure, lookup, no_edits, no_progress, resolution, resolved_node,
    resolved_nodes, with_note,
    CdiDeviceView, CdiEditScopeView, CdiProgress, InspectedDeviceNodeView,
    ResolvedCdiDeviceNodeView, ResolvedCdiEditsView, UnsupportedCdiEditKind, UnsupportedCdiEditView,
    WireEditsView,
};
use crate::resolver_laws::{
    is_resolvable, is_usable, nodes_resolve_one_by_one, resolvable_nodes_resolve,
    usable_edits_are_added,
};
use crate::text::joined;

verus! {

/// A note of `count` edits of one kind, where there are any.
pub open spec fn noted(
    kind: UnsupportedCdiEditKind,
    count: usize,
    scope: CdiEditScopeView,
) -> Seq<UnsupportedCdiEditView> {
    if count > 0 {
        seq![UnsupportedCdiEditView { kind, count, scope }]
    } else {
        Seq::empty()
    }
}

proof fn nodes_before_the_first_failure_resolve(
    nodes: Seq<InspectedDeviceNodeView>,
    scope: CdiEditScopeView,
)
    ensures
        ({
            let resolved = resolved_nodes(nodes, scope);
            let k = resolved.len() as int;
            &&& k <= nodes.len()
            &&& forall|i: int|
                0 <= i < k ==> resolved_node(nodes[i], scope) == Ok::<
                    _,
                    Seq<char>,
                >(#[trigger] resolved[i])
            &&& match first_failure(nodes, scope) {
                Some(reason) => k < nodes.len() && !is_resolvable(nodes[k]) && resolved_node(
                    nodes[k],
                    scope,
                ) == Err::<ResolvedCdiDeviceNodeView, Seq<char>>(reason),
                None => k == nodes.len(),
            }
        }),
    decreases nodes.len(),
{
    if nodes.len() > 0 {
        let rest = nodes.drop_first();
        nodes_before_the_first_failure_resolve(rest, scope);
        resolvable_nodes_resolve(nodes[0], scope);
        let resolved = resolved_nodes(nodes, scope);
        let later = resolved_nodes(rest, scope);
        if resolved_node(nodes[0], scope) is Ok {
            assert(resolved == seq![resolved_node(nodes[0], scope)->Ok_0] + later);
            assert forall|i: int| 0 <= i < resolved.len() implies resolved_node(nodes[i], scope)
                == Ok::<_, Seq<char>>(#[trigger] resolved[i]) by {
                if i > 0 {
                    assert(resolved[i] == later[i - 1]);
                    assert(nodes[i] == rest[i - 1]);
                }
            }
            assert(first_failure(nodes, scope) == first_failure(rest, scope));
            assert(resolved.len() == later.len() + 1);
            if later.len() < rest.len() {
                assert(nodes[resolved.len() as int] == rest[later.len() as int]);
            }
        } else {
            assert(resolved == Seq::<ResolvedCdiDeviceNodeView>::empty());
            let reason = resolved_node(nodes[0], scope)->Err_0;
            assert(first_failure(nodes, scope) == Some(reason));
        }
    }
}

/// What becomes of the edits that a spec or a device asks for. They are all added, behind what was
/// there, where every device node can be had: the environment entries as they are, one node each,
/// the mounts with their paths, type and options, and a note with the number of each kind without
/// counterpart. Where a node cannot be had, its reason is given, and neither it nor anything after
/// it is added; where the edits could not be read, nothing is.
pub proof fn edits_are_added_as_asked(
    before: ResolvedCdiEditsView,
    wire: WireEditsView,
    scope: CdiEditScopeView,
)
    ensures
        ({
            let (after, result) = before.with_edits(wire, scope);
            match wire {
                WireEditsView::NotEncoded(error) => after == before && result == Err::<
                    (),
                    Seq<char>,
                >("failed to encode CDI container edits: "@ + error),
                WireEditsView::NotDecoded(error) => after == before && result == Err::<
                    (),
                    Seq<char>,
                >("failed to decode CDI container edits: "@ + error),
                WireEditsView::Decoded(asked) => {
                    let nodes = asked.device_nodes;
                    let count = after.device_nodes.len() - before.device_nodes.len();
                    &&& after.env == before.env + asked.env
                    &&& before.device_nodes.is_prefix_of(after.device_nodes)
                    &&& 0 <= count <= nodes.len()
                    &&& forall|i: int|
                        0 <= i < count ==> resolved_node(#[trigger] nodes[i], scope) == Ok::<
                            _,
                            Seq<char>,
                        >(after.device_nodes[before.device_nodes.len() + i])
                    &&& result is Ok <==> forall|i: int|
                        0 <= i < nodes.len() ==> is_resolvable(#[trigger] nodes[i])
                    &&& match result {
                        Ok(_) => {
                            &&& count == nodes.len()
                            &&& before.mounts.is_prefix_of(after.mounts)
                            &&& after.mounts.len() == before.mounts.len() + asked.mounts.len()
                            &&& forall|i: int|
                                0 <= i < asked.mounts.len() ==> {
                                    let mount = after.mounts[before.mounts.len() + i];
                                    &&& mount.host_path == (#[trigger] asked.mounts[i]).host_path
                                    &&& mount.container_path == asked.mounts[i].container_path
                                    &&& mount.typ == asked.mounts[i].typ
                                    &&& asked.mounts[i].options is None ==> mount.options.len() == 0
                                    &&& asked.mounts[i].options matches Some(options)
                                        ==> mount.options == options
                                    &&& mount.scope == scope
                                }
                            &&& after.unsupported == before.unsupported + noted(
                                UnsupportedCdiEditKind::Hooks,
                                asked.hooks,
                                scope,
                            ) + noted(UnsupportedCdiEditKind::NetDevices, asked.net_devices, scope)
                                + noted(
                                UnsupportedCdiEditKind::IntelRdt,
                                if asked.intel_rdt {
                                    1
                                } else {
                                    0
                                },
                                scope,
                            ) + noted(
                                UnsupportedCdiEditKind::AdditionalGids,
                                asked.additional_gids,
                                scope,
                            )
                        },
                        Err(reason) => {
                            &&& count < nodes.len()
                            &&& resolved_node(nodes[count], scope) == Err::<ResolvedCdiDeviceNodeView, Seq<char>>(reason)
                            &&& after.mounts == before.mounts
                            &&& after.unsupported == before.unsupported
                        },
                    }
                },
            }
        }),
{
    match wire {
        WireEditsView::Decoded(asked) => {
            let (after, result) = before.with_edits(wire, scope);
            let nodes = asked.device_nodes;
            nodes_before_the_first_failure_resolve(nodes, scope);
            nodes_resolve_one_by_one(nodes, scope);
            let resolved = resolved_nodes(nodes, scope);
            assert forall|i: int| 0 <= i < resolved.len() implies resolved_node(
                #[trigger] nodes[i],
                scope,
            ) == Ok::<_, Seq<char>>(after.device_nodes[before.device_nodes.len() + i]) by {
                assert(after.device_nodes[before.device_nodes.len() + i] == resolved[i]);
            }
        },
        _ => {},
    }
}

/// The edits of a wire, and the scope in whose name they are asked for.
pub struct Part {
    pub wire: WireEditsView,
    pub scope: CdiEditScopeView,
}

/// What the device at position `i` adds: the edits for every device of its spec, where it is the
/// first of its spec, and then its own. A device that the cache does not know adds nothing.
pub open spec fn parts_of(
    devices: Seq<Seq<char>>,
    found: Seq<Option<CdiDeviceView>>,
    i: int,
) -> Seq<Part> {
    if i < found.len() && found[i] is Some {
        let device = found[i]->0;
        let spec = device.spec;
        let kind = spec.vendor + "/"@ + spec.class;
        let own = seq![
            Part {
                wire: device.edits,
                scope: CdiEditScopeView::Device {
                    qualified_name: devices[i],
                    spec_kind: kind,
                    spec_path: spec.path,
                },
            },
        ];
        if spec.edits is Some && !(exists|j: int|
            0 <= j < i && #[trigger] found[j] is Some && found[j]->0.spec.id == spec.id) {
            seq![
                Part {
                    wire: spec.edits->0,
                    scope: CdiEditScopeView::Spec { kind, path: spec.path },
                },
            ] + own
        } else {
            own
        }
    } else {
        Seq::empty()
    }
}

/// What the first `n` devices add, one after the other.
pub open spec fn all_parts(
    devices: Seq<Seq<char>>,
    found: Seq<Option<CdiDeviceView>>,
    n: nat,
) -> Seq<Part> {
    Seq::new(n, |i: int| parts_of(devices, found, i)).flatten()
}

/// The names of those of the first `n` devices that the cache does not know.
pub open spec fn unknown_names(
    devices: Seq<Seq<char>>,
    found: Seq<Option<CdiDeviceView>>,
    n: nat,
) -> Seq<Seq<char>> {
    Seq::new(
        n,
        |i: int|
            if i < found.len() && found[i] is Some {
                Seq::empty()
            } else {
                seq![devices[i]]
            },
    ).flatten()
}

/// `edits` with those of `part` added.
pub open spec fn with_part(edits: ResolvedCdiEditsView, part: Part) -> ResolvedCdiEditsView {
    edits.with_edits(part.wire, part.scope).0
}

/// Nothing, and then `parts` added one after the other.
pub open spec fn added_up(parts: Seq<Part>) -> ResolvedCdiEditsView {
    parts.fold_left(
        ResolvedCdiEditsView {
            env: Seq::empty(),
            device_nodes: Seq::empty(),
            mounts: Seq::empty(),
            unsupported: Seq::empty(),
        },
        |edits: ResolvedCdiEditsView, part: Part| with_part(edits, part),
    )
}

proof fn one_more_device(devices: Seq<Seq<char>>, found: Seq<Option<CdiDeviceView>>, n: nat)
    ensures
        all_parts(devices, found, n + 1) == all_parts(devices, found, n) + parts_of(
            devices,
            found,
            n as int,
        ),
        unknown_names(devices, found, n + 1) == unknown_names(devices, found, n) + (if n
            < found.len() && found[n as int] is Some {
            Seq::empty()
        } else {
            seq![devices[n as int]]
        }),
{
    let lists = Seq::new(n, |i: int| parts_of(devices, found, i));
    let more = Seq::new(n + 1, |i: int| parts_of(devices, found, i));
    assert(more == lists.push(parts_of(devices, found, n as int)));
    lists.lemma_flatten_push(parts_of(devices, found, n as int));
    let name = |i: int|
        if i < found.len() && found[i] is Some {
            Seq::empty()
        } else {
            seq![devices[i]]
        };
    let names = Seq::new(n, name);
    assert(Seq::new(n + 1, name) == names.push(name(n as int)));
    names.lemma_flatten_push(name(n as int));
}

proof fn parts_of_fewer_devices_come_first(
    devices: Seq<Seq<char>>,
    found: Seq<Option<CdiDeviceView>>,
    n: nat,
    all: nat,
)
    requires
        n <= all,
    ensures
        all_parts(devices, found, n).is_prefix_of(all_parts(devices, found, all)),
    decreases all,
{
    if n < all {
        let before = (all - 1) as nat;
        parts_of_fewer_devices_come_first(devices, found, n, before);
        one_more_device(devices, found, before);
    }
}

proof fn one_more_part(parts: Seq<Part>, part: Part)
    ensures
        added_up(parts.push(part)) == with_part(added_up(parts), part),
{
    assert(parts.push(part).drop_last() == parts);
}

/// Whether `progress` is where the first `n` devices lead, all of whose parts could be had.
spec fn has_come_to(
    progress: CdiProgress,
    devices: Seq<Seq<char>>,
    found: Seq<Option<CdiDeviceView>>,
    n: nat,
) -> bool {
    &&& progress.resolved == added_up(all_parts(devices, found, n))
    &&& progress.unresolved == unknown_names(devices, found, n)
    &&& forall|id: usize| #[trigger]
        progress.seen_specs.contains(id) <==> exists|j: int|
            0 <= j < n && j < found.len() && #[trigger] found[j] is Some && found[j]->0.spec.id
                == id
    &&& forall|m: int|
        0 <= m < all_parts(devices, found, n).len() ==> is_usable(
            (#[trigger] all_parts(devices, found, n)[m]).wire,
        )
}

/// What the parts of `n` devices come to.
pub open spec fn comes_to(
    outcome: Result<ResolvedCdiEditsView, Seq<char>>,
    parts: Seq<Part>,
    unknown: Seq<Seq<char>>,
) -> bool {
    if forall|m: int| 0 <= m < parts.len() ==> is_usable((#[trigger] parts[m]).wire) {
        if unknown.len() > 0 {
            outcome == Err::<ResolvedCdiEditsView, Seq<char>>(
                "unresolvable CDI devices "@ + joined(unknown, ", "@),
            )
        } else {
            outcome == Ok::<ResolvedCdiEditsView, Seq<char>>(added_up(parts))
        }
    } else {
        exists|k: int|
            {
                &&& 0 <= k < parts.len()
                &&& !is_usable((#[trigger] parts[k]).wire)
                &&& forall|m: int| 0 <= m < k ==> is_usable((#[trigger] parts[m]).wire)
                &&& outcome matches Err(reason)
                &&& no_edits().with_edits(parts[k].wire, parts[k].scope).1 == Err::<(), Seq<char>>(
                    reason,
                )
            }
    }
}

proof fn unusable_part_ends_it(
    outcome: Result<ResolvedCdiEditsView, Seq<char>>,
    parts: Seq<Part>,
    unknown: Seq<Seq<char>>,
    k: int,
    before: ResolvedCdiEditsView,
)
    requires
        0 <= k < parts.len(),
        !is_usable(parts[k].wire),
        forall|m: int| 0 <= m < k ==> is_usable((#[trigger] parts[m]).wire),
        outcome is Err,
        before.with_edits(parts[k].wire, parts[k].scope).1 == Err::<(), Seq<char>>(
            outcome->Err_0,
        ),
    ensures
        comes_to(outcome, parts, unknown),
{
    let part = parts[k];
    edits_are_added_as_asked(before, part.wire, part.scope);
    edits_are_added_as_asked(no_edits(), part.wire, part.scope);
    assert(before.with_edits(part.wire, part.scope).1 == no_edits().with_edits(
        part.wire,
        part.scope,
    ).1);
}

#[verifier::rlimit(50)]
proof fn resolution_from_adds_up(
    progress: CdiProgress,
    devices: Seq<Seq<char>>,
    found: Seq<Option<CdiDeviceView>>,
    n: nat,
)
    requires
        n <= devices.len(),
        has_come_to(progress, devices, found, n),
    ensures
        comes_to(
            progress.resolution_from(devices, found, n as int),
            all_parts(devices, found, devices.len()),
            unknown_names(devices, found, devices.len()),
        ),
    decreases devices.len() - n,
{
    let i = n as int;
    if n < devices.len() {
        one_more_device(devices, found, n);
        parts_of_fewer_devices_come_first(devices, found, n, devices.len());
        parts_of_fewer_devices_come_first(devices, found, n + 1, devices.len());
        let parts = all_parts(devices, found, n);
        let next_parts = all_parts(devices, found, n + 1);
        let all = all_parts(devices, found, devices.len());
        let unknown = unknown_names(devices, found, devices.len());
        let outcome = progress.resolution_from(devices, found, i);
        match lookup(found, i) {
            None => {
                let next = progress.after_device(devices[i], None)->Ok_0;
                assert(next_parts == parts);
                assert(next.unresolved == unknown_names(devices, found, n + 1));
                assert(has_come_to(next, devices, found, n + 1)) by {
                    assert forall|id: usize| #[trigger]
                        next.seen_specs.contains(id) <==> exists|j: int|
                            0 <= j < n + 1 && j < found.len() && #[trigger] found[j] is Some
                                && found[j]->0.spec.id == id by {
                        if exists|j: int|
                            0 <= j < n + 1 && j < found.len() && #[trigger] found[j] is Some
                                && found[j]->0.spec.id == id {
                            let j = choose|j: int|
                                0 <= j < n + 1 && j < found.len() && #[trigger] found[j] is Some
                                    && found[j]->0.spec.id == id;
                            assert(j != n);
                            assert(0 <= j < n && found[j] is Some);
                        }
                    }
                }
                resolution_from_adds_up(next, devices, found, n + 1);
            },
            Some(device) => {
                let spec = device.spec;
                assert(found[i] == Some(device));
                let seen = progress.seen_specs.contains(spec.id);
                assert(seen <==> exists|j: int|
                    0 <= j < i && #[trigger] found[j] is Some && found[j]->0.spec.id == spec.id) by {
                    if seen {
                        let j = choose|j: int|
                            0 <= j < n && j < found.len() && #[trigger] found[j] is Some
                                && found[j]->0.spec.id == spec.id;
                        assert(0 <= j < i && found[j] is Some);
                    }
                    if exists|j: int|
                        0 <= j < i && #[trigger] found[j] is Some && found[j]->0.spec.id
                            == spec.id {
                        let j = choose|j: int|
                            0 <= j < i && #[trigger] found[j] is Some && found[j]->0.spec.id
                                == spec.id;
                        assert(0 <= j < n && j < found.len() && found[j] is Some);
                    }
                }
                let own = Part {
                    wire: device.edits,
                    scope: spec.device_scope(devices[i]),
                };
                let of_spec = Part { wire: spec.edits->0, scope: spec.scope() };
                let adds_spec = !seen && spec.edits is Some;
                let middle_parts = if adds_spec {
                    parts.push(of_spec)
                } else {
                    parts
                };
                assert(next_parts == middle_parts.push(own));
                let middle = progress.after_spec(spec);
                if adds_spec {
                    usable_edits_are_added(progress.resolved, of_spec.wire, of_spec.scope);
                    one_more_part(parts, of_spec);
                    assert(next_parts[parts.len() as int] == of_spec);
                    if middle is Err {
                        let k = parts.len() as int;
                        assert(all[k] == next_parts[k]);
                        assert forall|m: int| 0 <= m < k implies is_usable(
                            (#[trigger] all[m]).wire,
                        ) by {
                            assert(all[m] == parts[m]);
                        }
                        unusable_part_ends_it(outcome, all, unknown, k, progress.resolved);
                    }
                }
                if middle is Ok {
                    let halfway = middle->Ok_0;
                    assert(halfway.resolved == added_up(middle_parts));
                    usable_edits_are_added(halfway.resolved, own.wire, own.scope);
                    one_more_part(middle_parts, own);
                    let k = middle_parts.len() as int;
                    assert(next_parts[k] == own);
                    assert forall|m: int| 0 <= m < k implies is_usable(
                        (#[trigger] next_parts[m]).wire,
                    ) by {
                        assert(next_parts[m] == middle_parts[m]);
                        if m < parts.len() {
                            assert(middle_parts[m] == parts[m]);
                        }
                    }
                    let after = progress.after_device(devices[i], Some(device));
                    if after is Err {
                        assert(all[k] == next_parts[k]);
                        assert forall|m: int| 0 <= m < k implies is_usable(
                            (#[trigger] all[m]).wire,
                        ) by {
                            assert(all[m] == next_parts[m]);
                        }
                        unusable_part_ends_it(outcome, all, unknown, k, halfway.resolved);
                    } else {
                        let next = after->Ok_0;
                        assert(next.resolved == added_up(next_parts));
                        assert(unknown_names(devices, found, n + 1) == unknown_names(
                            devices,
                            found,
                            n,
                        ));
                        assert forall|id: usize| #[trigger]
                            next.seen_specs.contains(id) <==> exists|j: int|
                                0 <= j < n + 1 && j < found.len() && #[trigger] found[j] is Some
                                    && found[j]->0.spec.id == id by {
                            if !seen {
                                vstd::seq_lib::lemma_seq_contains_after_push(
                                    progress.seen_specs,
                                    spec.id,
                                    id,
                                );
                            }
                            if next.seen_specs.contains(id) {
                                if id == spec.id {
                                    assert(0 <= i < n + 1 && found[i] is Some);
                                } else {
                                    assert(progress.seen_specs.contains(id));
                                    let j = choose|j: int|
                                        0 <= j < n && j < found.len() && #[trigger] found[j] is Some
                                            && found[j]->0.spec.id == id;
                                    assert(0 <= j < n + 1 && found[j] is Some);
                                }
                            }
                            if exists|j: int|
                                0 <= j < n + 1 && j < found.len() && #[trigger] found[j] is Some
                                    && found[j]->0.spec.id == id {
                                let j = choose|j: int|
                                    0 <= j < n + 1 && j < found.len() && #[trigger] found[j] is Some
                                        && found[j]->0.spec.id == id;
                                if j < n {
                                    assert(0 <= j < n && found[j] is Some);
                                    assert(progress.seen_specs.contains(id));
                                }
                            }
                        }
                        assert forall|m: int| 0 <= m < next_parts.len() implies is_usable(
                            (#[trigger] next_parts[m]).wire,
                        ) by {}
                        resolution_from_adds_up(next, devices, found, n + 1);
                    }
                }
            },
        }
    }
}

/// The edits of a list of devices are those of its parts, added one after the other: for each
/// device in turn, the edits of its spec, where it is the first of that spec, and then its own.
/// There are none where a part cannot be had, and the reason is that of the first such part;
/// otherwise there are none where the cache does not know a device, and the reason names exactly
/// the unknown ones.
pub proof fn resolution_adds_up_the_parts(
    devices: Seq<Seq<char>>,
    found: Seq<Option<CdiDeviceView>>,
)
    ensures
        comes_to(
            resolution(devices, found),
            all_parts(devices, found, devices.len()),
            unknown_names(devices, found, devices.len()),
        ),
{
    let start = no_progress();
    assert(all_parts(devices, found, 0) == Seq::<Part>::empty());
    assert(unknown_names(devices, found, 0) == Seq::<Seq<char>>::empty());
    assert(added_up(Seq::empty()) == no_edits());
    resolution_from_adds_up(start, devices, found, 0);
}

/// The parts of the resolution that can be asked for on their own: reading edits, looking a device
/// up, noting edits without counterpart, and starting from nothing.
pub proof fn parts_of_the_resolution_are_plain(
    wire: WireEditsView,
    found: Seq<Option<CdiDeviceView>>,
    i: int,
    list: Seq<UnsupportedCdiEditView>,
    kind: UnsupportedCdiEditKind,
    count: usize,
    scope: CdiEditScopeView,
)
    ensures
        wire matches WireEditsView::Decoded(asked) ==> (decoded(wire) matches Ok(edits) && edits
            == asked),
        wire matches WireEditsView::NotEncoded(error) ==> (decoded(wire) matches Err(reason)
            && reason == "failed to encode CDI container edits: "@ + error),
        wire matches WireEditsView::NotDecoded(error) ==> (decoded(wire) matches Err(reason)
            && reason == "failed to decode CDI container edits: "@ + error),
        0 <= i < found.len() ==> lookup(found, i) == found[i],
        i < 0 || i >= found.len() ==> lookup(found, i) is None,
        count > 0 ==> with_note(list, kind, count, scope) == list.push(
            UnsupportedCdiEditView { kind, count, scope },
        ),
        count == 0 ==> with_note(list, kind, count, scope) == list,
        no_edits().env.len() == 0 && no_edits().device_nodes.len() == 0 && no_edits().mounts.len()
            == 0 && no_edits().unsupported.len() == 0,
{
}

} // verus!
