//! What holds of the profile files, whatever folder they are written to.

use vstd::prelude::*;
use vstd::utf8::encode_utf8;

use crate::answer_laws::profile_files_have_their_texts;
use crate::devcontainer_cmd::{
    after_files, no_files, next_file, ExistingFileView, FailureView, ProfileWriterView,
    RunPlanView, SecureProfileAssetView, SecureProfileContents, StepView, WriteSummaryView,
};
use crate::os_text::OsTextView;
use crate::text::{occurs_in, replaced};
use crate::text_laws::{replacing_leaves_no_occurrence, replacing_nothing_changes_nothing};

verus! {

/// The Dockerfile that is written names no file in the folder that it comes from, every other file
/// is written as it is, and rendering a rendered file changes nothing.
pub proof fn rendered_files_name_the_generated_folder(asset: SecureProfileAssetView)
    ensures
        asset.file_name == "Dockerfile.secure"@ ==> !occurs_in(asset.rendered(), ".devcontainer/"@),
        asset.file_name == "Dockerfile.secure"@ ==> asset.rendered() == replaced(
            asset.contents,
            ".devcontainer/"@,
            ".codex-devcontainer/"@,
        ),
        asset.file_name != "Dockerfile.secure"@ ==> asset.rendered() == asset.contents,
        (SecureProfileAssetView { contents: asset.rendered(), ..asset }).rendered()
            == asset.rendered(),
{
    let from = ".devcontainer/"@;
    let to = ".codex-devcontainer/"@;
    reveal_strlit(".devcontainer/");
    reveal_strlit(".codex-devcontainer/");
    replacing_leaves_no_occurrence(asset.contents, from, to, 1);
    replacing_nothing_changes_nothing(replaced(asset.contents, from, to), from, to);
}

/// How a host spells paths.
pub struct Paths {
    /// The path of a name in a folder.
    pub join: spec_fn(OsTextView, Seq<char>) -> OsTextView,
}

/// Where a profile file goes.
pub open spec fn destination(
    paths: Paths,
    dir: OsTextView,
    asset: SecureProfileAssetView,
) -> OsTextView {
    (paths.join)(dir, asset.file_name)
}

/// The bytes of a profile file as they are written.
pub open spec fn rendered_bytes(asset: SecureProfileAssetView) -> Seq<u8> {
    encode_utf8(asset.rendered())
}

/// Whether no two of `assets` go to the same place.
pub open spec fn destinations_differ(
    paths: Paths,
    dir: OsTextView,
    assets: Seq<SecureProfileAssetView>,
) -> bool {
    forall|i: int, j: int|
        #![trigger assets[i], assets[j]]
        0 <= i < j < assets.len() ==> destination(paths, dir, assets[i]) != destination(paths, dir, assets[j])
}

/// What a host whose files are `files` finds at `path`.
pub open spec fn found_at(files: Map<OsTextView, Seq<u8>>, path: OsTextView) -> ExistingFileView {
    if files.contains_key(path) {
        ExistingFileView::Contents(files[path])
    } else {
        ExistingFileView::NotFound
    }
}

/// Whether a profile file is in place.
pub open spec fn is_in_place(
    paths: Paths,
    files: Map<OsTextView, Seq<u8>>,
    dir: OsTextView,
    asset: SecureProfileAssetView,
) -> bool {
    files.contains_key(destination(paths, dir, asset)) && files[destination(paths, dir, asset)]
        == rendered_bytes(asset)
}

/// Whether a file with other contents stands where a profile file goes.
pub open spec fn is_in_the_way(
    paths: Paths,
    files: Map<OsTextView, Seq<u8>>,
    dir: OsTextView,
    asset: SecureProfileAssetView,
) -> bool {
    files.contains_key(destination(paths, dir, asset)) && files[destination(paths, dir, asset)]
        != rendered_bytes(asset)
}

/// How many of `assets` are in place.
pub open spec fn count_in_place(
    paths: Paths,
    files: Map<OsTextView, Seq<u8>>,
    dir: OsTextView,
    assets: Seq<SecureProfileAssetView>,
) -> nat
    decreases assets.len(),
{
    if assets.len() == 0 {
        0
    } else if is_in_place(paths, files, dir, assets[0]) {
        1 + count_in_place(paths, files, dir, assets.drop_first())
    } else {
        count_in_place(paths, files, dir, assets.drop_first())
    }
}

/// `files` with `assets` in place.
pub open spec fn with_assets(
    paths: Paths,
    files: Map<OsTextView, Seq<u8>>,
    dir: OsTextView,
    assets: Seq<SecureProfileAssetView>,
) -> Map<OsTextView, Seq<u8>>
    decreases assets.len(),
{
    if assets.len() == 0 {
        files
    } else {
        with_assets(
            paths,
            files.insert(destination(paths, dir, assets[0]), rendered_bytes(assets[0])),
            dir,
            assets.drop_first(),
        )
    }
}

/// The first of `assets` that something else stands in the way of, by position; their number where
/// there is none.
pub open spec fn first_in_the_way(
    paths: Paths,
    files: Map<OsTextView, Seq<u8>>,
    dir: OsTextView,
    assets: Seq<SecureProfileAssetView>,
) -> nat
    decreases assets.len(),
{
    if assets.len() == 0 || is_in_the_way(paths, files, dir, assets[0]) {
        0
    } else {
        1 + first_in_the_way(paths, files, dir, assets.drop_first())
    }
}

/// How many answers are left to give while the files are written.
pub open spec fn answers_left(step: StepView) -> nat {
    match step {
        StepView::CreateDir { assets, .. } => 2 * assets.len() + 1,
        StepView::ReadFile(writer) => 2 * writer.remaining.len() + 2,
        StepView::WriteFile { writer, .. } => 2 * writer.remaining.len() + 1,
        _ => 0,
    }
}

/// The step after `step`, and the files by then, on a host whose files are `files` and which
/// creates and writes what it is asked to.
pub open spec fn obeyed(paths: Paths, step: StepView, files: Map<OsTextView, Seq<u8>>) -> (
    StepView,
    Map<OsTextView, Seq<u8>>,
) {
    match step {
        StepView::CreateDir { dir, force, assets, run } => (
            next_file(dir, force, assets, no_files(), run),
            files,
        ),
        StepView::ReadFile(writer) => {
            let path = destination(paths, writer.dir, writer.current);
            (writer.after_read(path, found_at(files, path)), files)
        },
        StepView::WriteFile { writer, path } => (
            writer.after_write(path, true),
            files.insert(path, writer.contents()),
        ),
        _ => (step, files),
    }
}

/// The first step after `step` that does not ask for a profile file, and the files by then, on
/// such a host.
pub open spec fn settled(paths: Paths, step: StepView, files: Map<OsTextView, Seq<u8>>) -> (
    StepView,
    Map<OsTextView, Seq<u8>>,
)
    decreases answers_left(step),
{
    if answers_left(step) == 0 {
        (step, files)
    } else {
        settled(paths, obeyed(paths, step, files).0, obeyed(paths, step, files).1)
    }
}

/// The reason for which a file in the way ends a run that does not overwrite.
pub open spec fn in_the_way(path: OsTextView) -> Seq<char> {
    path.shown + " already exists with different contents; rerun with --force to overwrite it"@
}

/// What comes of writing `assets`, of which some were dealt with before, as `summary` counts.
pub open spec fn writing_outcome(
    paths: Paths,
    dir: OsTextView,
    force: bool,
    assets: Seq<SecureProfileAssetView>,
    summary: WriteSummaryView,
    plan: Option<RunPlanView>,
    files: Map<OsTextView, Seq<u8>>,
) -> (StepView, Map<OsTextView, Seq<u8>>) {
    let stop = first_in_the_way(paths, files, dir, assets);
    if force || stop == assets.len() {
        (
            after_files(
                WriteSummaryView {
                    written: (summary.written + assets.len() - count_in_place(
                        paths,
                        files,
                        dir,
                        assets,
                    )) as nat,
                    unchanged: summary.unchanged + count_in_place(paths, files, dir, assets),
                },
                plan,
            ),
            with_assets(paths, files, dir, assets),
        )
    } else {
        (
            StepView::Failed(
                FailureView::Because(in_the_way(destination(paths, dir, assets[stop as int]))),
            ),
            with_assets(paths, files, dir, assets.take(stop as int)),
        )
    }
}

proof fn writing_elsewhere_changes_nothing(
    paths: Paths,
    files: Map<OsTextView, Seq<u8>>,
    dir: OsTextView,
    assets: Seq<SecureProfileAssetView>,
    path: OsTextView,
    bytes: Seq<u8>,
)
    requires
        forall|i: int| 0 <= i < assets.len() ==> destination(paths, dir, #[trigger] assets[i]) != path,
    ensures
        count_in_place(paths, files.insert(path, bytes), dir, assets) == count_in_place(
            paths,
            files,
            dir,
            assets,
        ),
        first_in_the_way(paths, files.insert(path, bytes), dir, assets) == first_in_the_way(
            paths,
            files,
            dir,
            assets,
        ),
    decreases assets.len(),
{
    if assets.len() > 0 {
        let rest = assets.drop_first();
        assert forall|i: int| 0 <= i < rest.len() implies destination(paths, dir, #[trigger] rest[i])
            != path by {
            assert(rest[i] == assets[i + 1]);
        }
        writing_elsewhere_changes_nothing(paths, files, dir, rest, path, bytes);
        assert(destination(paths, dir, assets[0]) != path);
    }
}

proof fn no_more_in_place_than_there_are(
    paths: Paths,
    files: Map<OsTextView, Seq<u8>>,
    dir: OsTextView,
    assets: Seq<SecureProfileAssetView>,
)
    ensures
        count_in_place(paths, files, dir, assets) <= assets.len(),
        first_in_the_way(paths, files, dir, assets) <= assets.len(),
    decreases assets.len(),
{
    if assets.len() > 0 {
        no_more_in_place_than_there_are(paths, files, dir, assets.drop_first());
    }
}

proof fn settled_files_are_as_stated(
    paths: Paths,
    dir: OsTextView,
    force: bool,
    assets: Seq<SecureProfileAssetView>,
    summary: WriteSummaryView,
    plan: Option<RunPlanView>,
    files: Map<OsTextView, Seq<u8>>,
)
    requires
        destinations_differ(paths, dir, assets),
    ensures
        settled(paths, next_file(dir, force, assets, summary, plan), files) == writing_outcome(
            paths,
            dir,
            force,
            assets,
            summary,
            plan,
            files,
        ),
    decreases assets.len(),
{
    if assets.len() > 0 {
        let first = assets[0];
        let rest = assets.drop_first();
        let path = destination(paths, dir, first);
        let bytes = rendered_bytes(first);
        let writer = ProfileWriterView {
            dir,
            force,
            current: first,
            remaining: rest,
            summary,
            plan,
        };
        let reading = StepView::ReadFile(writer);
        assert(next_file(dir, force, assets, summary, plan) == reading);
        assert(destinations_differ(paths, dir, rest)) by {
            assert forall|i: int, j: int|
                #![trigger rest[i], rest[j]]
                0 <= i < j < rest.len() implies destination(paths, dir, rest[i]) != destination(
                paths,
                dir,
                rest[j],
            ) by {
                assert(rest[i] == assets[i + 1] && rest[j] == assets[j + 1]);
            }
        }
        assert forall|i: int| 0 <= i < rest.len() implies destination(paths, dir, #[trigger] rest[i])
            != path by {
            assert(rest[i] == assets[i + 1] && first == assets[0]);
        }
        writing_elsewhere_changes_nothing(paths, files, dir, rest, path, bytes);
        no_more_in_place_than_there_are(paths, files, dir, rest);
        let stop = first_in_the_way(paths, files, dir, assets);
        let later = first_in_the_way(paths, files, dir, rest);
        if is_in_place(paths, files, dir, first) {
            assert(files.insert(path, bytes) == files);
            let counted = WriteSummaryView { unchanged: summary.unchanged + 1, ..summary };
            let after = next_file(dir, force, rest, counted, plan);
            assert(settled(paths, reading, files) == settled(paths, after, files));
            settled_files_are_as_stated(paths, dir, force, rest, counted, plan, files);
            if !force && later < rest.len() {
                assert(assets.take(stop as int).drop_first() == rest.take(later as int));
            }
        } else if is_in_the_way(paths, files, dir, first) && !force {
            let failed = writer.after_read(path, found_at(files, path));
            assert(settled(paths, reading, files) == settled(paths, failed, files));
            assert(assets.take(0) == Seq::<SecureProfileAssetView>::empty());
        } else {
            let writing = StepView::WriteFile { writer, path };
            let counted = WriteSummaryView { written: summary.written + 1, ..summary };
            let after = next_file(dir, force, rest, counted, plan);
            let files_after = files.insert(path, bytes);
            assert(settled(paths, reading, files) == settled(paths, writing, files));
            assert(settled(paths, writing, files) == settled(paths, after, files_after));
            settled_files_are_as_stated(paths, dir, force, rest, counted, plan, files_after);
            if !force && later < rest.len() {
                assert(assets.take(stop as int).drop_first() == rest.take(later as int));
            }
        }
    }
}

/// What comes of writing the profile files, on a host that creates and writes what it is asked to.
/// Unless a file is in the way and may not be overwritten, all of them are in place in the end, and
/// each is counted once, as unchanged where it was in place before and as written where it was not.
/// Otherwise the run fails at the first file in the way, and the files before it are in place.
pub proof fn profile_is_written_or_refused(
    paths: Paths,
    dir: OsTextView,
    force: bool,
    assets: Seq<SecureProfileAssetView>,
    plan: Option<RunPlanView>,
    files: Map<OsTextView, Seq<u8>>,
)
    requires
        destinations_differ(paths, dir, assets),
    ensures
        settled(paths, StepView::CreateDir { dir, force, assets, run: plan }, files) == writing_outcome(
            paths,
            dir,
            force,
            assets,
            no_files(),
            plan,
            files,
        ),
        count_in_place(paths, files, dir, assets) <= assets.len(),
        first_in_the_way(paths, files, dir, assets) <= assets.len(),
{
    let creating = StepView::CreateDir { dir, force, assets, run: plan };
    let reading = next_file(dir, force, assets, no_files(), plan);
    assert(settled(paths, creating, files) == settled(paths, reading, files));
    settled_files_are_as_stated(paths, dir, force, assets, no_files(), plan, files);
    no_more_in_place_than_there_are(paths, files, dir, assets);
}

/// Whether `path` is where one of `assets` goes.
pub open spec fn is_destination(
    paths: Paths,
    dir: OsTextView,
    assets: Seq<SecureProfileAssetView>,
    path: OsTextView,
) -> bool {
    exists|i: int| 0 <= i < assets.len() && destination(paths, dir, #[trigger] assets[i]) == path
}

/// Putting files in place puts each of them in place and touches no other file.
pub proof fn assets_are_put_in_place(
    paths: Paths,
    files: Map<OsTextView, Seq<u8>>,
    dir: OsTextView,
    assets: Seq<SecureProfileAssetView>,
)
    requires
        destinations_differ(paths, dir, assets),
    ensures
        forall|i: int|
            0 <= i < assets.len() ==> is_in_place(
                paths,
                with_assets(paths, files, dir, assets),
                dir,
                #[trigger] assets[i],
            ),
        forall|path: OsTextView|
            #![trigger with_assets(paths, files, dir, assets).contains_key(path)]
            #![trigger with_assets(paths, files, dir, assets)[path]]
            !is_destination(paths, dir, assets, path) ==> {
                &&& with_assets(paths, files, dir, assets).contains_key(path) == files.contains_key(path)
                &&& files.contains_key(path) ==> with_assets(paths, files, dir, assets)[path]
                    == files[path]
            },
    decreases assets.len(),
{
    if assets.len() > 0 {
        let first = assets[0];
        let rest = assets.drop_first();
        let path_of_first = destination(paths, dir, first);
        let middle = files.insert(path_of_first, rendered_bytes(first));
        let end = with_assets(paths, middle, dir, rest);
        assert(with_assets(paths, files, dir, assets) == end);
        assert(destinations_differ(paths, dir, rest)) by {
            assert forall|i: int, j: int|
                #![trigger rest[i], rest[j]]
                0 <= i < j < rest.len() implies destination(paths, dir, rest[i]) != destination(
                paths,
                dir,
                rest[j],
            ) by {
                assert(rest[i] == assets[i + 1] && rest[j] == assets[j + 1]);
            }
        }
        assets_are_put_in_place(paths, middle, dir, rest);
        assert(!is_destination(paths, dir, rest, path_of_first)) by {
            assert forall|i: int| 0 <= i < rest.len() implies destination(paths, dir, #[trigger] rest[i])
                != path_of_first by {
                assert(rest[i] == assets[i + 1] && first == assets[0]);
            }
        }
        assert(middle.contains_key(path_of_first));
        assert(end.contains_key(path_of_first));
        assert(end[path_of_first] == rendered_bytes(first));
        assert forall|i: int| 0 <= i < assets.len() implies is_in_place(
            paths,
            end,
            dir,
            #[trigger] assets[i],
        ) by {
            if i > 0 {
                assert(assets[i] == rest[i - 1]);
            }
        }
        assert forall|path: OsTextView|
            #![trigger end.contains_key(path)]
            #![trigger end[path]]
            !is_destination(paths, dir, assets, path) implies {
            &&& end.contains_key(path) == files.contains_key(path)
            &&& files.contains_key(path) ==> end[path] == files[path]
        } by {
            assert(destination(paths, dir, assets[0]) != path);
            if is_destination(paths, dir, rest, path) {
                let i = choose|i: int|
                    0 <= i < rest.len() && destination(paths, dir, #[trigger] rest[i]) == path;
                assert(assets[i + 1] == rest[i]);
            }
        }
    }
}

proof fn files_in_place_stay(
    paths: Paths,
    files: Map<OsTextView, Seq<u8>>,
    dir: OsTextView,
    assets: Seq<SecureProfileAssetView>,
)
    requires
        forall|i: int| 0 <= i < assets.len() ==> is_in_place(paths, files, dir, #[trigger] assets[i]),
    ensures
        count_in_place(paths, files, dir, assets) == assets.len(),
        first_in_the_way(paths, files, dir, assets) == assets.len(),
        with_assets(paths, files, dir, assets) == files,
    decreases assets.len(),
{
    if assets.len() > 0 {
        let rest = assets.drop_first();
        assert(is_in_place(paths, files, dir, assets[0]));
        assert forall|i: int| 0 <= i < rest.len() implies is_in_place(
            paths,
            files,
            dir,
            #[trigger] rest[i],
        ) by {
            assert(rest[i] == assets[i + 1]);
        }
        files_in_place_stay(paths, files, dir, rest);
        assert(files.insert(destination(paths, dir, assets[0]), rendered_bytes(assets[0])) == files);
    }
}

proof fn nothing_is_in_place_in_an_empty_folder(
    paths: Paths,
    files: Map<OsTextView, Seq<u8>>,
    dir: OsTextView,
    assets: Seq<SecureProfileAssetView>,
)
    requires
        forall|i: int|
            0 <= i < assets.len() ==> !files.contains_key(destination(paths, dir, #[trigger] assets[i])),
    ensures
        count_in_place(paths, files, dir, assets) == 0,
        first_in_the_way(paths, files, dir, assets) == assets.len(),
    decreases assets.len(),
{
    if assets.len() > 0 {
        let rest = assets.drop_first();
        assert(!files.contains_key(destination(paths, dir, assets[0])));
        assert forall|i: int| 0 <= i < rest.len() implies !files.contains_key(
            destination(paths, dir, #[trigger] rest[i]),
        ) by {
            assert(rest[i] == assets[i + 1]);
        }
        nothing_is_in_place_in_an_empty_folder(paths, files, dir, rest);
    }
}

proof fn first_in_the_way_is_first(
    paths: Paths,
    files: Map<OsTextView, Seq<u8>>,
    dir: OsTextView,
    assets: Seq<SecureProfileAssetView>,
)
    ensures
        ({
            let stop = first_in_the_way(paths, files, dir, assets);
            &&& stop <= assets.len()
            &&& stop < assets.len() ==> is_in_the_way(paths, files, dir, assets[stop as int])
            &&& forall|i: int|
                0 <= i < stop ==> !is_in_the_way(paths, files, dir, #[trigger] assets[i])
        }),
    decreases assets.len(),
{
    if assets.len() > 0 && !is_in_the_way(paths, files, dir, assets[0]) {
        let rest = assets.drop_first();
        first_in_the_way_is_first(paths, files, dir, rest);
        let later = first_in_the_way(paths, files, dir, rest);
        if later < rest.len() {
            assert(rest[later as int] == assets[later as int + 1]);
        }
        assert forall|i: int| 0 <= i < first_in_the_way(paths, files, dir, assets) implies !is_in_the_way(
            paths,
            files,
            dir,
            #[trigger] assets[i],
        ) by {
            if i > 0 {
                assert(assets[i] == rest[i - 1]);
            }
        }
    }
}

/// Where nothing stands in the folder yet, every profile file is written.
pub proof fn fresh_folder_gets_every_file(
    paths: Paths,
    dir: OsTextView,
    force: bool,
    assets: Seq<SecureProfileAssetView>,
    plan: Option<RunPlanView>,
    files: Map<OsTextView, Seq<u8>>,
)
    requires
        destinations_differ(paths, dir, assets),
        forall|i: int|
            0 <= i < assets.len() ==> !files.contains_key(destination(paths, dir, #[trigger] assets[i])),
    ensures
        ({
            let (step, after) = settled(paths, StepView::CreateDir { dir, force, assets, run: plan }, files);
            &&& step == after_files(WriteSummaryView { written: assets.len(), unchanged: 0 }, plan)
            &&& forall|i: int|
                0 <= i < assets.len() ==> is_in_place(paths, after, dir, #[trigger] assets[i])
        }),
{
    profile_is_written_or_refused(paths, dir, force, assets, plan, files);
    nothing_is_in_place_in_an_empty_folder(paths, files, dir, assets);
    assets_are_put_in_place(paths, files, dir, assets);
}

/// By force every profile file is put in place, whatever stood there, and no other file is touched.
pub proof fn force_puts_every_file_in_place(
    paths: Paths,
    dir: OsTextView,
    assets: Seq<SecureProfileAssetView>,
    plan: Option<RunPlanView>,
    files: Map<OsTextView, Seq<u8>>,
)
    requires
        destinations_differ(paths, dir, assets),
    ensures
        ({
            let (step, after) = settled(
                paths,
                StepView::CreateDir { dir, force: true, assets, run: plan },
                files,
            );
            &&& step !is Failed
            &&& forall|i: int|
                0 <= i < assets.len() ==> is_in_place(paths, after, dir, #[trigger] assets[i])
            &&& forall|path: OsTextView|
                files.contains_key(path) && !is_destination(paths, dir, assets, path) ==> #[trigger]
                after.contains_key(path) && after[path] == files[path]
        }),
{
    profile_is_written_or_refused(paths, dir, true, assets, plan, files);
    assets_are_put_in_place(paths, files, dir, assets);
}

/// Without force no file that exists is changed, and the run fails exactly where one is in the way;
/// the reason then names the first such file.
pub proof fn nothing_is_overwritten_without_force(
    paths: Paths,
    dir: OsTextView,
    assets: Seq<SecureProfileAssetView>,
    plan: Option<RunPlanView>,
    files: Map<OsTextView, Seq<u8>>,
)
    requires
        destinations_differ(paths, dir, assets),
    ensures
        ({
            let (step, after) = settled(
                paths,
                StepView::CreateDir { dir, force: false, assets, run: plan },
                files,
            );
            &&& forall|path: OsTextView|
                files.contains_key(path) ==> #[trigger] after.contains_key(path) && after[path]
                    == files[path]
            &&& step is Failed <==> exists|i: int|
                0 <= i < assets.len() && is_in_the_way(paths, files, dir, #[trigger] assets[i])
            &&& step matches StepView::Failed(failure) ==> exists|i: int|
                0 <= i < assets.len() && is_in_the_way(paths, files, dir, #[trigger] assets[i]) && failure
                    == FailureView::Because(in_the_way(destination(paths, dir, assets[i]))) && forall|
                    j: int,
                | 0 <= j < i ==> !is_in_the_way(paths, files, dir, #[trigger] assets[j])
        }),
{
    profile_is_written_or_refused(paths, dir, false, assets, plan, files);
    first_in_the_way_is_first(paths, files, dir, assets);
    let (step, after) = settled(paths, StepView::CreateDir { dir, force: false, assets, run: plan }, files);
    let stop = first_in_the_way(paths, files, dir, assets);
    let placed = assets.take(stop as int);
    assert(assets.take(assets.len() as int) == assets);
    assert(after == with_assets(paths, files, dir, placed));
    assert(destinations_differ(paths, dir, placed)) by {
        assert forall|i: int, j: int|
            #![trigger placed[i], placed[j]]
            0 <= i < j < placed.len() implies destination(paths, dir, placed[i]) != destination(
            paths,
            dir,
            placed[j],
        ) by {
            assert(placed[i] == assets[i] && placed[j] == assets[j]);
        }
    }
    assets_are_put_in_place(paths, files, dir, placed);
    assert forall|path: OsTextView| files.contains_key(path) implies #[trigger] after.contains_key(
        path,
    ) && after[path] == files[path] by {
        if is_destination(paths, dir, placed, path) {
            let i = choose|i: int|
                0 <= i < placed.len() && destination(paths, dir, #[trigger] placed[i]) == path;
            assert(is_in_place(paths, after, dir, placed[i]));
            assert(!is_in_the_way(paths, files, dir, assets[i]));
        }
    }
    if stop < assets.len() {
        assert(is_in_the_way(paths, files, dir, assets[stop as int]));
    } else {
        assert forall|i: int| 0 <= i < assets.len() implies !is_in_the_way(
            paths,
            files,
            dir,
            #[trigger] assets[i],
        ) by {}
    }
}

/// A run after a successful one, by force or not, finds every profile file in place and changes
/// nothing.
pub proof fn second_run_changes_nothing(
    paths: Paths,
    dir: OsTextView,
    force: bool,
    force_again: bool,
    assets: Seq<SecureProfileAssetView>,
    plan: Option<RunPlanView>,
    files: Map<OsTextView, Seq<u8>>,
)
    requires
        destinations_differ(paths, dir, assets),
        settled(paths, StepView::CreateDir { dir, force, assets, run: plan }, files).0 !is Failed,
    ensures
        ({
            let after = settled(paths, StepView::CreateDir { dir, force, assets, run: plan }, files).1;
            settled(paths, StepView::CreateDir { dir, force: force_again, assets, run: plan }, after) == (
                after_files(WriteSummaryView { written: 0, unchanged: assets.len() }, plan),
                after,
            )
        }),
{
    profile_is_written_or_refused(paths, dir, force, assets, plan, files);
    let after = settled(paths, StepView::CreateDir { dir, force, assets, run: plan }, files).1;
    assert(after == with_assets(paths, files, dir, assets));
    assets_are_put_in_place(paths, files, dir, assets);
    files_in_place_stay(paths, after, dir, assets);
    profile_is_written_or_refused(paths, dir, force_again, assets, plan, after);
}

/// Whether `c` stands for itself in the names of files on any host.
pub open spec fn is_plain_character(c: char) -> bool {
    'a' <= c <= 'z' || 'A' <= c <= 'Z' || '0' <= c <= '9' || c == '-' || c == '_' || c == '.'
}

/// Whether `name` is the name of a file in a folder on any host: it holds no separator or other
/// special character, and does not begin with a dot.
pub open spec fn is_plain_name(name: Seq<char>) -> bool {
    &&& name.len() > 0
    &&& name[0] != '.'
    &&& forall|i: int| 0 <= i < name.len() ==> is_plain_character(#[trigger] name[i])
}

/// Whether different plain names in `dir` have different paths.
pub open spec fn names_tell_apart(paths: Paths, dir: OsTextView) -> bool {
    forall|a: Seq<char>, b: Seq<char>|
        is_plain_name(a) && is_plain_name(b) && a != b ==> #[trigger] (paths.join)(dir, a)
            != #[trigger] (paths.join)(dir, b)
}

/// The files of the secure profile have different plain names, so they go to different places,
/// whatever the folder.
pub proof fn profile_files_do_not_collide(
    paths: Paths,
    contents: SecureProfileContents,
    dir: OsTextView,
)
    requires
        names_tell_apart(paths, dir),
    ensures
        forall|i: int|
            0 <= i < contents.assets().len() ==> is_plain_name(
                (#[trigger] contents.assets()[i]).file_name,
            ),
        destinations_differ(paths, dir, contents.assets()),
{
    reveal_strlit("Dockerfile.secure");
    reveal_strlit("devcontainer.secure.json");
    reveal_strlit("init-firewall.sh");
    reveal_strlit("post_install.py");
    reveal_strlit("post-start.sh");
    assert("Dockerfile.secure"@.len() == 17);
    assert("devcontainer.secure.json"@.len() == 24);
    assert("init-firewall.sh"@.len() == 16);
    assert("post_install.py"@.len() == 15);
    assert("post-start.sh"@.len() == 13);
    let assets = contents.assets();
    assert forall|i: int| 0 <= i < assets.len() implies is_plain_name(
        (#[trigger] assets[i]).file_name,
    ) by {}
    assert forall|i: int, j: int|
        #![trigger assets[i], assets[j]]
        0 <= i < j < assets.len() implies destination(paths, dir, assets[i]) != destination(
        paths,
        dir,
        assets[j],
    ) by {
        assert(assets[i].file_name.len() != assets[j].file_name.len());
    }
}

/// After the profile was written, each of its files holds the text that was given for it: the
/// configuration, the scripts as they are, and the Dockerfile with its folder renamed.
pub proof fn written_profile_holds_the_given_texts(
    paths: Paths,
    contents: SecureProfileContents,
    dir: OsTextView,
    force: bool,
    plan: Option<RunPlanView>,
    files: Map<OsTextView, Seq<u8>>,
)
    requires
        names_tell_apart(paths, dir),
    ensures
        ({
            let (step, after) = settled(
                paths,
                StepView::CreateDir { dir, force, assets: contents.assets(), run: plan },
                files,
            );
            step !is Failed ==> {
                &&& after.contains_key((paths.join)(dir, "Dockerfile.secure"@))
                &&& after[(paths.join)(dir, "Dockerfile.secure"@)] == encode_utf8(
                    replaced(contents.dockerfile@, ".devcontainer/"@, ".codex-devcontainer/"@),
                )
                &&& after.contains_key((paths.join)(dir, "devcontainer.secure.json"@))
                &&& after[(paths.join)(dir, "devcontainer.secure.json"@)] == encode_utf8(
                    contents.devcontainer_json@,
                )
                &&& after.contains_key((paths.join)(dir, "init-firewall.sh"@))
                &&& after[(paths.join)(dir, "init-firewall.sh"@)] == encode_utf8(
                    contents.init_firewall@,
                )
                &&& after.contains_key((paths.join)(dir, "post_install.py"@))
                &&& after[(paths.join)(dir, "post_install.py"@)] == encode_utf8(
                    contents.post_install@,
                )
                &&& after.contains_key((paths.join)(dir, "post-start.sh"@))
                &&& after[(paths.join)(dir, "post-start.sh"@)] == encode_utf8(contents.post_start@)
            }
        }),
{
    let assets = contents.assets();
    profile_files_do_not_collide(paths, contents, dir);
    profile_is_written_or_refused(paths, dir, force, assets, plan, files);
    assets_are_put_in_place(paths, files, dir, assets);
    profile_files_have_their_texts(contents);
    let (step, after) = settled(
        paths,
        StepView::CreateDir { dir, force, assets, run: plan },
        files,
    );
    if step !is Failed {
        assert(after == with_assets(paths, files, dir, assets));
        assert(is_in_place(paths, after, dir, assets[0]));
        assert(is_in_place(paths, after, dir, assets[1]));
        assert(is_in_place(paths, after, dir, assets[2]));
        assert(is_in_place(paths, after, dir, assets[3]));
        assert(is_in_place(paths, after, dir, assets[4]));
    }
}

} // verus!
