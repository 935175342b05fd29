//! What holds of the edits that bubblewrap applies.

use vstd::prelude::*;
use vstd::seq_lib::*;

use crate::bwrap::{BwrapCdiDeviceView, BwrapCdiEditsView, BwrapCdiMountView};
use crate::cdi::{
    device_objection, env_objection, env_pair, is_supported_option, kind_text, mount_objection,
    mount_outcome, scope_text, translated_device, translated_mount, translation,
    unsupported_options, unsupported_text,
};
use crate::cdi_resolver::{
    CdiEditScopeView, ResolvedCdiDeviceNodeView, ResolvedCdiEditsView, ResolvedCdiMountView,
    UnsupportedCdiEditKind, UnsupportedCdiEditView,
};
use crate::text::joined;
use crate::text_laws::{
    ascending_lists_are_known_by_their_members, is_ascending, sorted_distinct_is_ascending,
};

verus! {

proof fn complementary_maps_share_a_list<A, B, C>(
    list: Seq<A>,
    f: spec_fn(A) -> Option<B>,
    g: spec_fn(A) -> Option<C>,
)
    requires
        forall|a: A| #[trigger] f(a) is Some <==> g(a) is None,
    ensures
        list.filter_map(f).len() + list.filter_map(g).len() == list.len(),
    decreases list.len(),
{
    if list.len() > 0 {
        complementary_maps_share_a_list(list.drop_last(), f, g);
        assert(f(list.last()) is Some <==> g(list.last()) is None);
    }
}

/// Nothing is dropped in silence: each edit is either applied or warned about, and none is both.
pub proof fn every_edit_is_applied_or_warned_about(edits: ResolvedCdiEditsView)
    ensures
        ({
            let applied = translation(edits);
            applied.env.len() + applied.devices.len() + applied.mounts.len()
                + applied.warnings.len() == edits.env.len() + edits.device_nodes.len()
                + edits.mounts.len() + edits.unsupported.len()
        }),
        forall|entry: Seq<char>| #[trigger] env_pair(entry) is Some <==> env_objection(entry) is None,
        forall|device: ResolvedCdiDeviceNodeView| #[trigger]
            translated_device(device) is Some <==> device_objection(device) is None,
        forall|mount: ResolvedCdiMountView| #[trigger]
            translated_mount(mount) is Some <==> mount_objection(mount) is None,
{
    complementary_maps_share_a_list(
        edits.env,
        |entry: Seq<char>| env_pair(entry),
        |entry: Seq<char>| env_objection(entry),
    );
    complementary_maps_share_a_list(
        edits.device_nodes,
        |device: ResolvedCdiDeviceNodeView| translated_device(device),
        |device: ResolvedCdiDeviceNodeView| device_objection(device),
    );
    complementary_maps_share_a_list(
        edits.mounts,
        |mount: ResolvedCdiMountView| translated_mount(mount),
        |mount: ResolvedCdiMountView| mount_objection(mount),
    );
}

/// Whether a device node asks for nothing but the device of the host as it is.
pub open spec fn is_plain_device(device: ResolvedCdiDeviceNodeView) -> bool {
    &&& device.host_path.len() > 0 && device.host_path[0] == '/'
    &&& device.container_path.len() > 0 && device.container_path[0] == '/'
    &&& device.permissions matches Some(permissions) ==> permissions.len() == 0 || permissions
        == "rwm"@
    &&& device.typ matches Some(typ) ==> typ == "c"@ || typ == "b"@ || typ == "u"@
    &&& device.uid is None
    &&& device.gid is None
    &&& device.file_mode is None
}

/// Whether a mount asks for nothing but a bind mount, writable or read-only.
pub open spec fn is_plain_bind_mount(mount: ResolvedCdiMountView) -> bool {
    &&& mount.host_path.len() > 0 && mount.host_path[0] == '/'
    &&& mount.container_path.len() > 0 && mount.container_path[0] == '/'
    &&& mount.typ matches Some(typ) ==> typ.len() == 0 || typ == "bind"@ || typ == "none"@
    &&& mount.options.len() == 0 || mount.options.contains("bind"@) || mount.options.contains(
        "rbind"@,
    )
    &&& forall|i: int|
        0 <= i < mount.options.len() ==> #[trigger] mount.options[i] == "bind"@ || mount.options[i]
            == "rbind"@ || mount.options[i] == "ro"@
}

/// The options that are warned about are those asked for that bubblewrap cannot apply, each once
/// and in ascending order.
pub proof fn unsupported_options_are_exact(options: Seq<Seq<char>>)
    ensures
        is_ascending(unsupported_options(options)),
        forall|option: Seq<char>| #[trigger]
            unsupported_options(options).contains(option) <==> options.contains(option) && option
                != "bind"@ && option != "rbind"@ && option != "ro"@,
{
    let unsupported = |option: Seq<char>| !is_supported_option(option);
    let rest = options.filter(unsupported);
    sorted_distinct_is_ascending(rest);
    assert forall|option: Seq<char>| #[trigger]
        unsupported_options(options).contains(option) <==> options.contains(option)
            && !is_supported_option(option) by {
        if rest.contains(option) {
            options.lemma_filter_contains_rev(unsupported, option);
            let k = rest.index_of(option);
            assert(unsupported(rest[k]));
        }
        if options.contains(option) && !is_supported_option(option) {
            let k = options.index_of(option);
            assert(unsupported(options[k]));
            assert(rest.contains(options[k]));
        }
    }
}

/// A device is provided exactly where it is plain, and under the paths that were asked for.
pub proof fn plain_devices_are_provided(device: ResolvedCdiDeviceNodeView)
    ensures
        translated_device(device) is Some <==> is_plain_device(device),
        translated_device(device) matches Some(provided) ==> provided == (BwrapCdiDeviceView {
            host_path: device.host_path,
            container_path: device.container_path,
        }),
{
}

/// A mount is made exactly where it is a plain bind mount, at the paths that were asked for, and
/// read-only exactly where that was asked for.
pub proof fn plain_bind_mounts_are_made(mount: ResolvedCdiMountView)
    ensures
        translated_mount(mount) is Some <==> is_plain_bind_mount(mount),
        translated_mount(mount) matches Some(made) ==> made == (BwrapCdiMountView {
            host_path: mount.host_path,
            container_path: mount.container_path,
            read_only: mount.options.contains("ro"@),
        }),
{
    let options = mount.options;
    let unsupported = unsupported_options(options);
    unsupported_options_are_exact(options);
    if unsupported.len() > 0 {
        assert(unsupported.contains(unsupported[0]));
        let i = options.index_of(unsupported[0]);
        assert(!is_supported_option(options[i]));
    } else {
        assert forall|i: int| 0 <= i < options.len() implies is_supported_option(
            #[trigger] options[i],
        ) by {
            assert(options.contains(options[i]));
            assert(!unsupported.contains(options[i]));
        }
    }
}

/// Whether a path begins with a slash.
pub open spec fn begins_at_the_root(path: Seq<char>) -> bool {
    path.len() > 0 && path[0] == '/'
}

/// Whether everything that bubblewrap provides stands at absolute paths.
pub open spec fn paths_are_absolute(applied: BwrapCdiEditsView) -> bool {
    &&& forall|i: int|
        0 <= i < applied.devices.len() ==> begins_at_the_root(
            (#[trigger] applied.devices[i]).host_path,
        ) && begins_at_the_root(applied.devices[i].container_path)
    &&& forall|i: int|
        0 <= i < applied.mounts.len() ==> begins_at_the_root(
            (#[trigger] applied.mounts[i]).host_path,
        ) && begins_at_the_root(applied.mounts[i].container_path)
}

/// What bubblewrap applies was asked for: each device, mount and variable comes from an edit, and
/// every path is absolute.
pub proof fn only_requested_edits_are_applied(edits: ResolvedCdiEditsView)
    ensures
        paths_are_absolute(translation(edits)),
        forall|device: BwrapCdiDeviceView| #[trigger]
            translation(edits).devices.contains(device) ==> exists|asked: ResolvedCdiDeviceNodeView|
                #[trigger] edits.device_nodes.contains(asked) && translated_device(asked) == Some(
                    device,
                ),
        forall|mount: BwrapCdiMountView| #[trigger]
            translation(edits).mounts.contains(mount) ==> exists|asked: ResolvedCdiMountView|
                #[trigger] edits.mounts.contains(asked) && translated_mount(asked) == Some(mount),
        forall|pair: (Seq<char>, Seq<char>)| #[trigger]
            translation(edits).env.contains(pair) ==> exists|asked: Seq<char>| #[trigger]
                edits.env.contains(asked) && env_pair(asked) == Some(pair),
{
    let applied = translation(edits);
    let to_device = |device: ResolvedCdiDeviceNodeView| translated_device(device);
    let to_mount = |mount: ResolvedCdiMountView| translated_mount(mount);
    let to_pair = |entry: Seq<char>| env_pair(entry);
    assert forall|device: BwrapCdiDeviceView| #[trigger] applied.devices.contains(device) implies exists|
        asked: ResolvedCdiDeviceNodeView,
    | #[trigger] edits.device_nodes.contains(asked) && translated_device(asked) == Some(device) by {
        edits.device_nodes.lemma_filter_map_contains(to_device, device);
        let asked = choose|asked: ResolvedCdiDeviceNodeView| #[trigger]
            edits.device_nodes.contains(asked) && to_device(asked) == Some(device);
        assert(edits.device_nodes.contains(asked) && translated_device(asked) == Some(device));
    }
    assert forall|mount: BwrapCdiMountView| #[trigger] applied.mounts.contains(mount) implies exists|
        asked: ResolvedCdiMountView,
    | #[trigger] edits.mounts.contains(asked) && translated_mount(asked) == Some(mount) by {
        edits.mounts.lemma_filter_map_contains(to_mount, mount);
        let asked = choose|asked: ResolvedCdiMountView| #[trigger]
            edits.mounts.contains(asked) && to_mount(asked) == Some(mount);
        assert(edits.mounts.contains(asked) && translated_mount(asked) == Some(mount));
    }
    assert forall|pair: (Seq<char>, Seq<char>)| #[trigger] applied.env.contains(pair) implies exists|
        asked: Seq<char>,
    | #[trigger] edits.env.contains(asked) && env_pair(asked) == Some(pair) by {
        edits.env.lemma_filter_map_contains(to_pair, pair);
        let asked = choose|asked: Seq<char>| #[trigger]
            edits.env.contains(asked) && to_pair(asked) == Some(pair);
        assert(edits.env.contains(asked) && env_pair(asked) == Some(pair));
    }
    assert forall|i: int| 0 <= i < applied.devices.len() implies begins_at_the_root(
        (#[trigger] applied.devices[i]).host_path,
    ) && begins_at_the_root(applied.devices[i].container_path) by {
        assert(applied.devices.contains(applied.devices[i]));
    }
    assert forall|i: int| 0 <= i < applied.mounts.len() implies begins_at_the_root(
        (#[trigger] applied.mounts[i]).host_path,
    ) && begins_at_the_root(applied.mounts[i].container_path) by {
        assert(applied.mounts.contains(applied.mounts[i]));
    }
}

/// An environment entry reads back from the variable and the value that are set; the name of a
/// variable is not empty and holds no `=`.
pub proof fn variables_read_back(entry: Seq<char>)
    ensures
        env_pair(entry) matches Some((key, value)) ==> {
            &&& key + seq!['='] + value == entry
            &&& key.len() > 0
            &&& !key.contains('=')
        },
        env_pair(entry) is None <==> !entry.contains('=') || entry[0] == '=',
{
    entry.index_of_first_ensures('=');
    match entry.index_of_first('=') {
        Some(i) => {
            let key = entry.take(i);
            if key.contains('=') {
                let k = key.index_of('=');
                assert(entry[k] == '=');
            }
            assert(key + seq!['='] + entry.skip(i + 1) == entry);
        },
        None => {},
    }
}

/// What becomes of a mount depends on which options it has, not on their order or number.
pub proof fn mount_depends_on_the_set_of_its_options(
    mount: ResolvedCdiMountView,
    options: Seq<Seq<char>>,
)
    requires
        forall|option: Seq<char>| #[trigger]
            mount.options.contains(option) <==> options.contains(option),
    ensures
        mount_outcome(ResolvedCdiMountView { options, ..mount }) == mount_outcome(mount),
{
    unsupported_options_are_exact(mount.options);
    unsupported_options_are_exact(options);
    assert forall|option: Seq<char>| #[trigger]
        unsupported_options(mount.options).contains(option) <==> unsupported_options(
            options,
        ).contains(option) by {
        assert(mount.options.contains(option) <==> options.contains(option));
    }
    ascending_lists_are_known_by_their_members(
        unsupported_options(mount.options),
        unsupported_options(options),
    );
    if mount.options.len() > 0 {
        assert(mount.options.contains(mount.options[0]));
    }
    if options.len() > 0 {
        assert(options.contains(options[0]));
        assert(mount.options.contains(options[0]));
    }
}

/// The edits of `first` and then those of `second`.
pub open spec fn edits_in_turn(
    first: ResolvedCdiEditsView,
    second: ResolvedCdiEditsView,
) -> ResolvedCdiEditsView {
    ResolvedCdiEditsView {
        env: first.env + second.env,
        device_nodes: first.device_nodes + second.device_nodes,
        mounts: first.mounts + second.mounts,
        unsupported: first.unsupported + second.unsupported,
    }
}

proof fn filter_map_works_part_by_part<A, B>(a: Seq<A>, b: Seq<A>, f: spec_fn(A) -> Option<B>)
    ensures
        (a + b).filter_map(f) == a.filter_map(f) + b.filter_map(f),
    decreases b.len(),
{
    if b.len() == 0 {
        assert(a + b == a);
        assert(a.filter_map(f) + b.filter_map(f) == a.filter_map(f));
    } else {
        assert((a + b).drop_last() == a + b.drop_last());
        filter_map_works_part_by_part(a, b.drop_last(), f);
    }
}

/// Each edit is dealt with on its own: what bubblewrap applies of two lists of edits is what it
/// applies of the first and then of the second, and the warnings are those of both.
pub proof fn edits_are_translated_one_by_one(
    first: ResolvedCdiEditsView,
    second: ResolvedCdiEditsView,
)
    ensures
        ({
            let a = translation(first);
            let b = translation(second);
            let both = translation(edits_in_turn(first, second));
            &&& both.env == a.env + b.env
            &&& both.devices == a.devices + b.devices
            &&& both.mounts == a.mounts + b.mounts
            &&& both.warnings.to_multiset() == a.warnings.to_multiset().add(
                b.warnings.to_multiset(),
            )
        }),
{
    let to_pair = |entry: Seq<char>| env_pair(entry);
    let to_env_warning = |entry: Seq<char>| env_objection(entry);
    let to_device = |device: ResolvedCdiDeviceNodeView| translated_device(device);
    let to_device_warning = |device: ResolvedCdiDeviceNodeView| device_objection(device);
    let to_mount = |mount: ResolvedCdiMountView| translated_mount(mount);
    let to_mount_warning = |mount: ResolvedCdiMountView| mount_objection(mount);
    let to_note = |unsupported: UnsupportedCdiEditView| unsupported_text(unsupported);
    filter_map_works_part_by_part(first.env, second.env, to_pair);
    filter_map_works_part_by_part(first.env, second.env, to_env_warning);
    filter_map_works_part_by_part(first.device_nodes, second.device_nodes, to_device);
    filter_map_works_part_by_part(first.device_nodes, second.device_nodes, to_device_warning);
    filter_map_works_part_by_part(first.mounts, second.mounts, to_mount);
    filter_map_works_part_by_part(first.mounts, second.mounts, to_mount_warning);
    assert((first.unsupported + second.unsupported).map_values(to_note)
        == first.unsupported.map_values(to_note) + second.unsupported.map_values(to_note));
    let (e1, e2) = (first.env.filter_map(to_env_warning), second.env.filter_map(to_env_warning));
    let (d1, d2) = (
        first.device_nodes.filter_map(to_device_warning),
        second.device_nodes.filter_map(to_device_warning),
    );
    let (m1, m2) = (
        first.mounts.filter_map(to_mount_warning),
        second.mounts.filter_map(to_mount_warning),
    );
    let (n1, n2) = (
        first.unsupported.map_values(to_note),
        second.unsupported.map_values(to_note),
    );
    parts_make_up_the_multiset(e1, d1, m1, n1);
    parts_make_up_the_multiset(e2, d2, m2, n2);
    parts_make_up_the_multiset(e1 + e2, d1 + d2, m1 + m2, n1 + n2);
    lemma_multiset_commutative(e1, e2);
    lemma_multiset_commutative(d1, d2);
    lemma_multiset_commutative(m1, m2);
    lemma_multiset_commutative(n1, n2);
}

proof fn parts_make_up_the_multiset<A>(a: Seq<A>, b: Seq<A>, c: Seq<A>, d: Seq<A>)
    ensures
        (a + b + c + d).to_multiset() == a.to_multiset().add(b.to_multiset()).add(
            c.to_multiset(),
        ).add(d.to_multiset()),
{
    lemma_multiset_commutative(a, b);
    lemma_multiset_commutative(a + b, c);
    lemma_multiset_commutative(a + b + c, d);
}

/// Who asks for an edit, and what it is, in words.
pub proof fn scopes_and_kinds_have_their_names(scope: CdiEditScopeView)
    ensures
        scope matches CdiEditScopeView::Spec { kind, path } ==> scope_text(scope) == "CDI spec "@
            + kind + " at "@ + path,
        scope matches CdiEditScopeView::Device { qualified_name, .. } ==> scope_text(scope)
            == "CDI device "@ + qualified_name,
        kind_text(UnsupportedCdiEditKind::Hooks) == "hooks"@,
        kind_text(UnsupportedCdiEditKind::NetDevices) == "netDevices"@,
        kind_text(UnsupportedCdiEditKind::IntelRdt) == "intelRdt"@,
        kind_text(UnsupportedCdiEditKind::AdditionalGids) == "additionalGids"@,
{
}

/// Nothing but the environment entries `env`.
pub open spec fn only_env(env: Seq<Seq<char>>) -> ResolvedCdiEditsView {
    ResolvedCdiEditsView {
        env,
        device_nodes: Seq::empty(),
        mounts: Seq::empty(),
        unsupported: Seq::empty(),
    }
}

/// Nothing but the device nodes `device_nodes`.
pub open spec fn only_nodes(device_nodes: Seq<ResolvedCdiDeviceNodeView>) -> ResolvedCdiEditsView {
    ResolvedCdiEditsView {
        env: Seq::empty(),
        device_nodes,
        mounts: Seq::empty(),
        unsupported: Seq::empty(),
    }
}

/// Nothing but the mounts `mounts`.
pub open spec fn only_mounts(mounts: Seq<ResolvedCdiMountView>) -> ResolvedCdiEditsView {
    ResolvedCdiEditsView {
        env: Seq::empty(),
        device_nodes: Seq::empty(),
        mounts,
        unsupported: Seq::empty(),
    }
}

/// Nothing but the edits `unsupported`.
pub open spec fn only_unsupported(
    unsupported: Seq<UnsupportedCdiEditView>,
) -> ResolvedCdiEditsView {
    ResolvedCdiEditsView {
        env: Seq::empty(),
        device_nodes: Seq::empty(),
        mounts: Seq::empty(),
        unsupported,
    }
}

proof fn single_items_are_mapped<A, B>(item: A, f: spec_fn(A) -> Option<B>)
    ensures
        seq![item].filter_map(f) == (match f(item) {
            Some(b) => seq![b],
            None => Seq::empty(),
        }),
{
    Seq::<A>::lemma_filter_map_singleton(item, f);
}

/// What becomes of one environment entry: it sets the variable before its first `=`, where there is
/// one that is not empty, and otherwise there is a warning that quotes it.
pub proof fn one_entry_is_set_or_warned_about(entry: Seq<char>)
    ensures
        ({
            let applied = translation(only_env(seq![entry]));
            &&& applied.devices.len() == 0 && applied.mounts.len() == 0
            &&& if entry.contains('=') && entry[0] != '=' {
                &&& applied.warnings.len() == 0
                &&& applied.env.len() == 1
                &&& applied.env[0].0 + seq!['='] + applied.env[0].1 == entry
                &&& !applied.env[0].0.contains('=')
            } else {
                &&& applied.env.len() == 0
                &&& applied.warnings == seq![
                    "CDI requested malformed environment entry `"@ + entry
                        + "`, which Codex cannot apply in bubblewrap; dropping env"@,
                ]
            }
        }),
{
    single_items_are_mapped(entry, |e: Seq<char>| env_pair(e));
    single_items_are_mapped(entry, |e: Seq<char>| env_objection(e));
    variables_read_back(entry);
}

/// What becomes of one device node: a plain one is provided under its own paths, without a warning;
/// any other is dropped with one warning, which says who asked for it, where in the container, and
/// what stands against it.
pub proof fn one_device_node_is_provided_or_warned_about(device: ResolvedCdiDeviceNodeView)
    ensures
        ({
            let applied = translation(only_nodes(seq![device]));
            let who = scope_text(device.scope);
            let absolute = device.host_path.len() > 0 && device.host_path[0] == '/'
                && device.container_path.len() > 0 && device.container_path[0] == '/';
            let unrestricted = device.permissions matches Some(permissions) ==> permissions.len()
                == 0 || permissions == "rwm"@;
            let is_device = device.typ matches Some(typ) ==> typ == "c"@ || typ == "b"@ || typ
                == "u"@;
            &&& applied.env.len() == 0 && applied.mounts.len() == 0
            &&& if absolute && unrestricted && is_device && device.uid is None && device.gid is None
                && device.file_mode is None {
                &&& applied.warnings.len() == 0
                &&& applied.devices.len() == 1
                &&& applied.devices[0].host_path == device.host_path
                &&& applied.devices[0].container_path == device.container_path
            } else {
                &&& applied.devices.len() == 0
                &&& applied.warnings == seq![
                    if !absolute {
                        who + " requested device node "@ + device.container_path + " from "@
                            + device.host_path
                            + ", but Codex only supports absolute device paths in bubblewrap; dropping device node"@
                    } else if !unrestricted {
                        who + " requested device node "@ + device.container_path
                            + " with permissions `"@ + device.permissions->0
                            + "`, which Codex cannot apply in bubblewrap; dropping device node"@
                    } else if !is_device {
                        who + " requested non-device node "@ + device.container_path
                            + " with type `"@ + device.typ->0
                            + "`, which Codex cannot apply in bubblewrap; dropping device node"@
                    } else {
                        who + " requested ownership or mode changes for device node "@
                            + device.container_path
                            + ", which Codex cannot apply in bubblewrap; dropping device node"@
                    },
                ]
            }
            &&& device_objection(device) is Some <==> applied.warnings.len() == 1
            &&& device_objection(device) matches Some(warning) ==> applied.warnings[0] == warning
        }),
{
    single_items_are_mapped(device, |d: ResolvedCdiDeviceNodeView| translated_device(d));
    single_items_are_mapped(device, |d: ResolvedCdiDeviceNodeView| device_objection(d));
}

/// What becomes of one mount: a plain bind mount is made at its own paths, read-only where that was
/// asked for, without a warning; any other is dropped with one warning, which says who asked for it,
/// where in the container, and what stands against it.
pub proof fn one_mount_is_made_or_warned_about(mount: ResolvedCdiMountView)
    ensures
        ({
            let applied = translation(only_mounts(seq![mount]));
            let who = scope_text(mount.scope);
            let absolute = mount.host_path.len() > 0 && mount.host_path[0] == '/'
                && mount.container_path.len() > 0 && mount.container_path[0] == '/';
            let bind_type = mount.typ matches Some(typ) ==> typ.len() == 0 || typ == "bind"@ || typ
                == "none"@;
            let bind_options = mount.options.len() == 0 || mount.options.contains("bind"@)
                || mount.options.contains("rbind"@);
            let known_options = forall|i: int|
                0 <= i < mount.options.len() ==> #[trigger] mount.options[i] == "bind"@
                    || mount.options[i] == "rbind"@ || mount.options[i] == "ro"@;
            &&& applied.env.len() == 0 && applied.devices.len() == 0
            &&& if absolute && bind_type && bind_options && known_options {
                &&& applied.warnings.len() == 0
                &&& applied.mounts.len() == 1
                &&& applied.mounts[0].host_path == mount.host_path
                &&& applied.mounts[0].container_path == mount.container_path
                &&& applied.mounts[0].read_only == mount.options.contains("ro"@)
            } else {
                &&& applied.mounts.len() == 0
                &&& applied.warnings == seq![
                    if !absolute {
                        who + " requested mount "@ + mount.container_path + " from "@
                            + mount.host_path
                            + ", but Codex only supports absolute mount paths in bubblewrap; dropping mount"@
                    } else if !bind_type {
                        who + " requested mount "@ + mount.container_path + " with type `"@
                            + mount.typ->0
                            + "`, which Codex cannot apply in bubblewrap; dropping mount"@
                    } else if !bind_options {
                        who + " requested mount "@ + mount.container_path
                            + " without bind or rbind semantics, which Codex cannot apply in bubblewrap; dropping mount"@
                    } else {
                        who + " requested mount "@ + mount.container_path
                            + " with unsupported options `"@ + joined(
                            unsupported_options(mount.options),
                            ","@,
                        ) + "`, which Codex cannot apply in bubblewrap; dropping mount"@
                    },
                ]
            }
            &&& mount_outcome(mount) is Ok <==> applied.mounts.len() == 1
            &&& mount_outcome(mount) matches Ok(made) ==> applied.mounts[0] == made
            &&& mount_outcome(mount) matches Err(warning) ==> applied.warnings[0] == warning
        }),
{
    single_items_are_mapped(mount, |m: ResolvedCdiMountView| translated_mount(m));
    single_items_are_mapped(mount, |m: ResolvedCdiMountView| mount_objection(m));
    plain_bind_mounts_are_made(mount);
}

/// Edits without counterpart are dropped with one warning, which says who asked for them and names
/// their kind twice.
pub proof fn one_unsupported_edit_is_warned_about(unsupported: UnsupportedCdiEditView)
    ensures
        ({
            let applied = translation(only_unsupported(seq![unsupported]));
            let kind = kind_text(unsupported.kind);
            &&& applied.env.len() == 0 && applied.devices.len() == 0 && applied.mounts.len() == 0
            &&& applied.warnings == seq![
                scope_text(unsupported.scope) + " requested "@ + kind
                    + ", which Codex cannot apply in bubblewrap; dropping "@ + kind,
            ]
            &&& unsupported_text(unsupported) == applied.warnings[0]
        }),
{
    assert(seq![unsupported].map_values(|u: UnsupportedCdiEditView| unsupported_text(u)) == seq![
        unsupported_text(unsupported),
    ]);
}

/// Edits of one kind are dealt with one after the other, warnings included.
pub proof fn edits_of_one_kind_are_translated_in_order(
    first: ResolvedCdiEditsView,
    second: ResolvedCdiEditsView,
)
    ensures
        translation(only_env(first.env + second.env)).warnings == translation(
            only_env(first.env),
        ).warnings + translation(only_env(second.env)).warnings,
        translation(only_nodes(first.device_nodes + second.device_nodes)).warnings == translation(
            only_nodes(first.device_nodes),
        ).warnings + translation(only_nodes(second.device_nodes)).warnings,
        translation(only_mounts(first.mounts + second.mounts)).warnings == translation(
            only_mounts(first.mounts),
        ).warnings + translation(only_mounts(second.mounts)).warnings,
        translation(only_unsupported(first.unsupported + second.unsupported)).warnings
            == translation(only_unsupported(first.unsupported)).warnings + translation(
            only_unsupported(second.unsupported),
        ).warnings,
{
    filter_map_works_part_by_part(first.env, second.env, |e: Seq<char>| env_objection(e));
    filter_map_works_part_by_part(
        first.device_nodes,
        second.device_nodes,
        |d: ResolvedCdiDeviceNodeView| device_objection(d),
    );
    filter_map_works_part_by_part(
        first.mounts,
        second.mounts,
        |m: ResolvedCdiMountView| mount_objection(m),
    );
    kinds_are_translated_apart(only_env(first.env + second.env));
    kinds_are_translated_apart(only_env(first.env));
    kinds_are_translated_apart(only_env(second.env));
    let to_note = |u: UnsupportedCdiEditView| unsupported_text(u);
    assert((first.unsupported + second.unsupported).map_values(to_note)
        == first.unsupported.map_values(to_note) + second.unsupported.map_values(to_note));
    warnings_of_one_kind(first);
    warnings_of_one_kind(second);
    warnings_of_one_kind(edits_in_turn(first, second));
}

proof fn warnings_of_one_kind(edits: ResolvedCdiEditsView)
    ensures
        translation(only_env(edits.env)).warnings == edits.env.filter_map(
            |e: Seq<char>| env_objection(e),
        ),
        translation(only_nodes(edits.device_nodes)).warnings == edits.device_nodes.filter_map(
            |d: ResolvedCdiDeviceNodeView| device_objection(d),
        ),
        translation(only_mounts(edits.mounts)).warnings == edits.mounts.filter_map(
            |m: ResolvedCdiMountView| mount_objection(m),
        ),
        translation(only_unsupported(edits.unsupported)).warnings == edits.unsupported.map_values(
            |u: UnsupportedCdiEditView| unsupported_text(u),
        ),
{
    let none = Seq::<Seq<char>>::empty();
    assert(Seq::<Seq<char>>::empty().filter_map(|e: Seq<char>| env_objection(e)) == none);
    assert(Seq::<ResolvedCdiDeviceNodeView>::empty().filter_map(
        |d: ResolvedCdiDeviceNodeView| device_objection(d),
    ) == none);
    assert(Seq::<ResolvedCdiMountView>::empty().filter_map(
        |m: ResolvedCdiMountView| mount_objection(m),
    ) == none);
    assert(Seq::<UnsupportedCdiEditView>::empty().map_values(
        |u: UnsupportedCdiEditView| unsupported_text(u),
    ) == none);
    assert(translation(only_env(edits.env)).warnings == edits.env.filter_map(
        |e: Seq<char>| env_objection(e),
    ));
    assert(translation(only_nodes(edits.device_nodes)).warnings == edits.device_nodes.filter_map(
        |d: ResolvedCdiDeviceNodeView| device_objection(d),
    ));
    assert(translation(only_mounts(edits.mounts)).warnings == edits.mounts.filter_map(
        |m: ResolvedCdiMountView| mount_objection(m),
    ));
    assert(translation(only_unsupported(edits.unsupported)).warnings
        == edits.unsupported.map_values(|u: UnsupportedCdiEditView| unsupported_text(u)));
}

/// The kinds of edits do not touch each other: what bubblewrap sets, provides and makes comes from
/// the entries, the nodes and the mounts alone, and the warnings come kind by kind, about the
/// environment first, then about nodes, mounts and edits without counterpart.
pub proof fn kinds_are_translated_apart(edits: ResolvedCdiEditsView)
    ensures
        translation(edits).env == translation(only_env(edits.env)).env,
        translation(edits).devices == translation(only_nodes(edits.device_nodes)).devices,
        translation(edits).mounts == translation(only_mounts(edits.mounts)).mounts,
        translation(edits).warnings == translation(only_env(edits.env)).warnings + translation(
            only_nodes(edits.device_nodes),
        ).warnings + translation(only_mounts(edits.mounts)).warnings + translation(
            only_unsupported(edits.unsupported),
        ).warnings,
{
    warnings_of_one_kind(edits);
}

proof fn mapped_items_are_there<A, B>(list: Seq<A>, f: spec_fn(A) -> Option<B>, i: int)
    requires
        0 <= i < list.len(),
        f(list[i]) is Some,
    ensures
        list.filter_map(f).contains(f(list[i])->0),
    decreases list.len(),
{
    let before = list.drop_last();
    let b = f(list[i])->0;
    if i < before.len() {
        assert(before[i] == list[i]);
        mapped_items_are_there(before, f, i);
        let k = before.filter_map(f).index_of(b);
        assert(list.filter_map(f)[k] == b);
    } else {
        let all = list.filter_map(f);
        assert(all[all.len() - 1] == b);
    }
}

/// Every plain device node among the edits is among the devices that bubblewrap provides, with its
/// own paths; likewise every plain bind mount and every well-formed environment entry.
pub proof fn plain_edits_are_applied(edits: ResolvedCdiEditsView)
    ensures
        forall|i: int|
            0 <= i < edits.device_nodes.len() && is_plain_device(#[trigger] edits.device_nodes[i])
                ==> translation(edits).devices.contains(
                BwrapCdiDeviceView {
                    host_path: edits.device_nodes[i].host_path,
                    container_path: edits.device_nodes[i].container_path,
                },
            ),
        forall|i: int|
            0 <= i < edits.mounts.len() && is_plain_bind_mount(#[trigger] edits.mounts[i])
                ==> translation(edits).mounts.contains(
                BwrapCdiMountView {
                    host_path: edits.mounts[i].host_path,
                    container_path: edits.mounts[i].container_path,
                    read_only: edits.mounts[i].options.contains("ro"@),
                },
            ),
        forall|i: int, key: Seq<char>, value: Seq<char>|
            0 <= i < edits.env.len() && #[trigger] edits.env[i] == #[trigger] (key + seq!['=']
                + value) && key.len() > 0 && !key.contains('=') ==> translation(edits).env.contains(
                (key, value),
            ),
{
    assert forall|i: int|
        0 <= i < edits.device_nodes.len() && is_plain_device(
            #[trigger] edits.device_nodes[i],
        ) implies translation(edits).devices.contains(
        BwrapCdiDeviceView {
            host_path: edits.device_nodes[i].host_path,
            container_path: edits.device_nodes[i].container_path,
        },
    ) by {
        plain_devices_are_provided(edits.device_nodes[i]);
        mapped_items_are_there(
            edits.device_nodes,
            |d: ResolvedCdiDeviceNodeView| translated_device(d),
            i,
        );
    }
    assert forall|i: int|
        0 <= i < edits.mounts.len() && is_plain_bind_mount(
            #[trigger] edits.mounts[i],
        ) implies translation(edits).mounts.contains(
        BwrapCdiMountView {
            host_path: edits.mounts[i].host_path,
            container_path: edits.mounts[i].container_path,
            read_only: edits.mounts[i].options.contains("ro"@),
        },
    ) by {
        plain_bind_mounts_are_made(edits.mounts[i]);
        mapped_items_are_there(edits.mounts, |m: ResolvedCdiMountView| translated_mount(m), i);
    }
    assert forall|i: int, key: Seq<char>, value: Seq<char>|
        0 <= i < edits.env.len() && #[trigger] edits.env[i] == #[trigger] (key + seq!['=']
            + value) && key.len() > 0 && !key.contains('=') implies translation(edits).env.contains(
        (key, value),
    ) by {
        entries_are_read_at_the_first_sign(key, value);
        mapped_items_are_there(edits.env, |e: Seq<char>| env_pair(e), i);
    }
}

proof fn entries_are_read_at_the_first_sign(key: Seq<char>, value: Seq<char>)
    requires
        key.len() > 0,
        !key.contains('='),
    ensures
        env_pair(key + seq!['='] + value) == Some((key, value)),
{
    let entry = key + seq!['='] + value;
    assert(entry[key.len() as int] == '=');
    assert(entry.contains('='));
    assert(entry[0] == key[0]);
    assert(key.contains(key[0]));
    variables_read_back(entry);
    let (k, v) = env_pair(entry)->0;
    let n = k.len() as int;
    assert(entry[n] == '=') by {
        assert((k + seq!['='] + v)[n] == '=');
    }
    if n < key.len() {
        assert(key[n] == entry[n]);
        assert(key.contains(key[n]));
    }
    if n > key.len() {
        assert(k[key.len() as int] == entry[key.len() as int]);
        assert(k.contains(k[key.len() as int]));
    }
    assert(k == entry.take(n));
    assert(key == entry.take(n));
    assert(v == entry.skip(n + 1));
    assert(value == entry.skip(n + 1));
}

} // verus!
