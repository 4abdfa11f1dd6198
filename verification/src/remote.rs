//! A model of the account and of the local disk, and the laws of a crawl
//! that is driven to its end against them.
//!
//! The account is modelled by what each listing link answers; a link that is
//! absent from a map answers with something that cannot be decoded. The
//! model only serves proofs: it states what a crawl finds as a function of
//! the remote tree, and shows that driving [`crate::crawl::Crawl`] request
//! by request collects exactly that.

use crate::canvas::{FileView, FolderView, ProcessOptionsView};
use crate::crawl::{
    folder_visits, listing_visits, missing, placed_files, with_files, with_folders, CrawlView,
    ListingKind, VisitView, lemma_missing_keeps_each_once, lemma_missing_keeps_only_absent,
    lemma_nothing_missing_when_mirrored,
};
use crate::paths::folder_path_of;
use vstd::prelude::*;

verus! {

/// What the account answers and what the local disk holds.
pub struct Remote {
    /// The folders that each folder-listing link lists.
    pub folders: Map<Seq<char>, Seq<FolderView>>,
    /// The files that each file-listing link lists.
    pub files: Map<Seq<char>, Seq<FileView>>,
    /// The local paths that exist.
    pub on_disk: Set<Seq<char>>,
}

/// For each placed file, whether its local path exists.
pub open spec fn disk_flags(remote: Remote, placed: Seq<FileView>) -> Seq<bool> {
    Seq::new(placed.len(), |i: int| remote.on_disk.contains(placed[i].filepath))
}

/// The files that the file listing at `link` contributes when its files
/// belong to the directory `parent`: the listed files that are not on disk,
/// or nothing where the listing cannot be decoded.
pub open spec fn found_files(remote: Remote, link: Seq<char>, parent: Seq<char>, windows: bool) -> Seq<
    FileView,
> {
    if remote.files.dom().contains(link) {
        let placed = placed_files(parent, windows, remote.files[link]);
        missing(placed, disk_flags(remote, placed))
    } else {
        Seq::empty()
    }
}

/// The files found through the folder listing at `link`, down to `depth`
/// further levels of folders, when the listed folders belong under
/// `parent`.
pub open spec fn found_below(
    remote: Remote,
    link: Seq<char>,
    parent: Seq<char>,
    windows: bool,
    depth: nat,
) -> Seq<FileView>
    decreases depth, 0nat,
{
    if depth == 0 || !remote.folders.dom().contains(link) {
        Seq::empty()
    } else {
        found_among(remote, remote.folders[link], parent, windows, (depth - 1) as nat)
    }
}

/// The files found in `folders` and below them, folder after folder in
/// listing order: first the files of a folder, then what lies below it.
pub open spec fn found_among(
    remote: Remote,
    folders: Seq<FolderView>,
    parent: Seq<char>,
    windows: bool,
    depth: nat,
) -> Seq<FileView>
    decreases depth, folders.len() + 1,
{
    if folders.len() == 0 {
        Seq::empty()
    } else {
        let folder = folders.first();
        let directory = folder_path_of(parent, folder, windows);
        found_files(remote, folder.files_url, directory, windows) + found_below(
            remote,
            folder.folders_url,
            directory,
            windows,
            depth,
        ) + found_among(remote, folders.drop_first(), parent, windows, depth)
    }
}

/// The tree below the folder listing at `link` is at most `depth` levels
/// deep: below that, no listing can be decoded.
pub open spec fn settled_below(remote: Remote, link: Seq<char>, depth: nat) -> bool
    decreases depth, 0nat,
{
    !remote.folders.dom().contains(link) || (depth > 0 && settled_among(
        remote,
        remote.folders[link],
        (depth - 1) as nat,
    ))
}

/// The tree below each of `folders` is at most `depth` levels deep.
pub open spec fn settled_among(remote: Remote, folders: Seq<FolderView>, depth: nat) -> bool
    decreases depth, folders.len() + 1,
{
    folders.len() == 0 || (settled_below(remote, folders.first().folders_url, depth)
        && settled_among(remote, folders.drop_first(), depth))
}

/// The number of requests that the folder listing at `link` costs, itself
/// included.
pub open spec fn requests_below(remote: Remote, link: Seq<char>, depth: nat) -> nat
    decreases depth, 0nat,
{
    if depth == 0 || !remote.folders.dom().contains(link) {
        1
    } else {
        1 + requests_among(remote, remote.folders[link], (depth - 1) as nat)
    }
}

/// The number of requests that `folders` cost: for each folder its file
/// listing and everything below it.
pub open spec fn requests_among(remote: Remote, folders: Seq<FolderView>, depth: nat) -> nat
    decreases depth, folders.len() + 1,
{
    if folders.len() == 0 {
        0
    } else {
        1 + requests_below(remote, folders.first().folders_url, depth) + requests_among(
            remote,
            folders.drop_first(),
            depth,
        )
    }
}

/// One turn of the caller's loop: the next request is taken and answered by
/// the account. A listing that cannot be decoded leaves the rest as it is.
pub open spec fn step(remote: Remote, crawl: CrawlView) -> CrawlView {
    if crawl.pending.len() == 0 {
        crawl
    } else {
        let visit = crawl.pending.last();
        let taken = CrawlView { pending: crawl.pending.drop_last(), ..crawl };
        match visit.kind {
            ListingKind::Folders => if remote.folders.dom().contains(visit.options.link) {
                with_folders(taken, visit.options, remote.folders[visit.options.link])
            } else {
                taken
            },
            ListingKind::Files => if remote.files.dom().contains(visit.options.link) {
                let placed = placed_files(
                    visit.options.parent_folder_path,
                    taken.windows,
                    remote.files[visit.options.link],
                );
                with_files(taken, placed, disk_flags(remote, placed))
            } else {
                taken
            },
        }
    }
}

/// The crawl after `turns` turns of the caller's loop.
pub open spec fn run(remote: Remote, crawl: CrawlView, turns: nat) -> CrawlView
    decreases turns,
{
    if turns == 0 {
        crawl
    } else {
        run(remote, step(remote, crawl), (turns - 1) as nat)
    }
}

/// Running `first + then` turns is running `first` turns and then `then`
/// more.
pub proof fn lemma_run_splits(remote: Remote, crawl: CrawlView, first: nat, then: nat)
    ensures
        run(remote, crawl, first + then) == run(remote, run(remote, crawl, first), then),
    decreases first,
{
    if first > 0 {
        lemma_run_splits(remote, step(remote, crawl), (first - 1) as nat, then);
    }
}

/// The request for the folders behind `link`, whose directories belong under
/// `parent`.
pub open spec fn folders_visit(options: ProcessOptionsView) -> VisitView {
    VisitView { kind: ListingKind::Folders, options }
}

/// A crawl whose next request lists the folders behind a link, driven until
/// that request and everything it led to is done: what was pending below it
/// is untouched, and the files found are exactly the files of that part of
/// the remote tree that are not on disk, in visiting order.
pub proof fn lemma_run_below(
    remote: Remote,
    crawl: CrawlView,
    base: Seq<VisitView>,
    options: ProcessOptionsView,
    depth: nat,
)
    requires
        crawl.pending == base.push(folders_visit(options)),
        settled_below(remote, options.link, depth),
    ensures
        run(remote, crawl, requests_below(remote, options.link, depth)) == (CrawlView {
            pending: base,
            files_to_download: crawl.files_to_download + found_below(
                remote,
                options.link,
                options.parent_folder_path,
                crawl.windows,
                depth,
            ),
            ..crawl
        }),
    decreases depth, 0nat,
{
    let taken = CrawlView { pending: base, ..crawl };
    let turns = requests_below(remote, options.link, depth);
    assert(crawl.pending.drop_last() =~= base);
    assert(crawl.pending.last() == folders_visit(options));
    assert(run(remote, crawl, turns) == run(remote, step(remote, crawl), (turns - 1) as nat));
    if !remote.folders.dom().contains(options.link) {
        assert(step(remote, crawl) == taken);
        assert(crawl.files_to_download + Seq::<FileView>::empty() =~= crawl.files_to_download);
    } else {
        let folders = remote.folders[options.link];
        let next = with_folders(taken, options, folders);
        assert(step(remote, crawl) == next);
        lemma_run_among(
            remote,
            next,
            base,
            options.canvas_token,
            options.parent_folder_path,
            folders,
            (depth - 1) as nat,
        );
    }
}

/// A crawl whose topmost requests are those of a folder listing, driven
/// until those requests and everything they led to are done.
pub proof fn lemma_run_among(
    remote: Remote,
    crawl: CrawlView,
    base: Seq<VisitView>,
    token: Seq<char>,
    parent: Seq<char>,
    folders: Seq<FolderView>,
    depth: nat,
)
    requires
        crawl.pending == base + listing_visits(token, parent, crawl.windows, folders),
        settled_among(remote, folders, depth),
    ensures
        run(remote, crawl, requests_among(remote, folders, depth)) == (CrawlView {
            pending: base,
            files_to_download: crawl.files_to_download + found_among(
                remote,
                folders,
                parent,
                crawl.windows,
                depth,
            ),
            ..crawl
        }),
    decreases depth, folders.len() + 1,
{
    let windows = crawl.windows;
    if folders.len() == 0 {
        assert(crawl.pending =~= base);
        assert(crawl.files_to_download + Seq::<FileView>::empty() =~= crawl.files_to_download);
    } else {
        let folder = folders.first();
        let rest = folders.drop_first();
        let directory = folder_path_of(parent, folder, windows);
        let lower = base + listing_visits(token, parent, windows, rest);
        let pair = folder_visits(token, parent, windows, folder);
        let below = pair[0];
        assert(below == folders_visit(below.options));
        assert(crawl.pending =~= lower.push(below).push(pair[1]));
        assert(crawl.pending.drop_last() =~= lower.push(below));

        let files = found_files(remote, folder.files_url, directory, windows);
        let listed = CrawlView {
            pending: lower.push(below),
            files_to_download: crawl.files_to_download + files,
            ..crawl
        };
        assert(step(remote, crawl) == listed) by {
            if !remote.files.dom().contains(folder.files_url) {
                assert(crawl.files_to_download + files =~= crawl.files_to_download);
            }
        }
        let turns_below = requests_below(remote, folder.folders_url, depth);
        let turns_rest = requests_among(remote, rest, depth);
        lemma_run_below(remote, listed, lower, below.options, depth);
        let descended = run(remote, listed, turns_below);
        lemma_run_among(remote, descended, base, token, parent, rest, depth);
        lemma_run_splits(remote, listed, turns_below, turns_rest);
        assert(run(remote, crawl, requests_among(remote, folders, depth)) == run(
            remote,
            listed,
            turns_below + turns_rest,
        ));
        assert(crawl.files_to_download + files + found_below(
            remote,
            folder.folders_url,
            directory,
            windows,
            depth,
        ) + found_among(remote, rest, parent, windows, depth) =~= crawl.files_to_download
            + found_among(remote, folders, parent, windows, depth));
    }
}

/// No omission, no duplicate, for every folder tree: a crawl that starts
/// with the single request for the folders behind `options.link` and is
/// driven until nothing is pending has found exactly the files of the remote
/// tree that are not on disk, each once, in visiting order.
pub proof fn lemma_crawl_collects_missing_files(
    remote: Remote,
    crawl: CrawlView,
    options: ProcessOptionsView,
    depth: nat,
)
    requires
        crawl.pending == seq![folders_visit(options)],
        settled_below(remote, options.link, depth),
    ensures
        run(remote, crawl, requests_below(remote, options.link, depth)).pending.len() == 0,
        run(remote, crawl, requests_below(remote, options.link, depth)).files_to_download
            == crawl.files_to_download + found_below(
            remote,
            options.link,
            options.parent_folder_path,
            crawl.windows,
            depth,
        ),
{
    assert(crawl.pending =~= Seq::<VisitView>::empty().push(folders_visit(options)));
    lemma_run_below(remote, crawl, Seq::empty(), options, depth);
}

/// Every local path of `found` exists on `disk`.
pub open spec fn all_on_disk(disk: Set<Seq<char>>, found: Seq<FileView>) -> bool {
    forall|k: int| 0 <= k < found.len() ==> disk.contains(#[trigger] found[k].filepath)
}

/// A file listing whose missing files have been fetched since contributes
/// nothing any more.
pub proof fn lemma_found_files_once(
    remote: Remote,
    later: Remote,
    link: Seq<char>,
    parent: Seq<char>,
    windows: bool,
)
    requires
        later.files == remote.files,
        remote.on_disk.subset_of(later.on_disk),
        all_on_disk(later.on_disk, found_files(remote, link, parent, windows)),
    ensures
        found_files(later, link, parent, windows) == Seq::<FileView>::empty(),
{
    if remote.files.dom().contains(link) {
        let placed = placed_files(parent, windows, remote.files[link]);
        let before = disk_flags(remote, placed);
        let after = disk_flags(later, placed);
        assert forall|i: int| 0 <= i < after.len() implies after[i] by {
            if !before[i] {
                lemma_missing_keeps_each_once(placed, before, i);
                let at = crate::crawl::absent_count(before.take(i)) as int;
                assert(missing(placed, before)[at] == placed[i]);
                assert(later.on_disk.contains(missing(placed, before)[at].filepath));
            }
        }
        lemma_nothing_missing_when_mirrored(placed, after);
    }
}

/// Idempotence, below a folder listing: once the files that a crawl found
/// are on disk, and the remote tree is unchanged, a second crawl of the same
/// part of the tree finds nothing.
pub proof fn lemma_second_crawl_finds_nothing(
    remote: Remote,
    later: Remote,
    link: Seq<char>,
    parent: Seq<char>,
    windows: bool,
    depth: nat,
)
    requires
        later.folders == remote.folders,
        later.files == remote.files,
        remote.on_disk.subset_of(later.on_disk),
        all_on_disk(later.on_disk, found_below(remote, link, parent, windows, depth)),
    ensures
        found_below(later, link, parent, windows, depth) == Seq::<FileView>::empty(),
    decreases depth, 0nat,
{
    if depth > 0 && remote.folders.dom().contains(link) {
        lemma_second_crawl_finds_nothing_among(
            remote,
            later,
            remote.folders[link],
            parent,
            windows,
            (depth - 1) as nat,
        );
    }
}

/// Idempotence, for the folders of one listing.
pub proof fn lemma_second_crawl_finds_nothing_among(
    remote: Remote,
    later: Remote,
    folders: Seq<FolderView>,
    parent: Seq<char>,
    windows: bool,
    depth: nat,
)
    requires
        later.folders == remote.folders,
        later.files == remote.files,
        remote.on_disk.subset_of(later.on_disk),
        all_on_disk(later.on_disk, found_among(remote, folders, parent, windows, depth)),
    ensures
        found_among(later, folders, parent, windows, depth) == Seq::<FileView>::empty(),
    decreases depth, folders.len() + 1,
{
    if folders.len() > 0 {
        let folder = folders.first();
        let directory = folder_path_of(parent, folder, windows);
        let files = found_files(remote, folder.files_url, directory, windows);
        let below = found_below(remote, folder.folders_url, directory, windows, depth);
        let rest = found_among(remote, folders.drop_first(), parent, windows, depth);
        let whole = found_among(remote, folders, parent, windows, depth);
        assert(whole == files + below + rest);
        assert forall|k: int| 0 <= k < files.len() implies later.on_disk.contains(
            #[trigger] files[k].filepath,
        ) by {
            assert(whole[k] == files[k]);
        }
        assert forall|k: int| 0 <= k < below.len() implies later.on_disk.contains(
            #[trigger] below[k].filepath,
        ) by {
            assert(whole[files.len() + k] == below[k]);
        }
        assert forall|k: int| 0 <= k < rest.len() implies later.on_disk.contains(
            #[trigger] rest[k].filepath,
        ) by {
            assert(whole[files.len() + below.len() + k] == rest[k]);
        }
        lemma_found_files_once(remote, later, folder.files_url, directory, windows);
        lemma_second_crawl_finds_nothing(
            remote,
            later,
            folder.folders_url,
            directory,
            windows,
            depth,
        );
        lemma_second_crawl_finds_nothing_among(
            remote,
            later,
            folders.drop_first(),
            parent,
            windows,
            depth,
        );
        assert(found_among(later, folders, parent, windows, depth) =~= Seq::<FileView>::empty());
    }
}

/// Only files that are not on disk are found.
pub proof fn lemma_found_files_are_absent(
    remote: Remote,
    link: Seq<char>,
    parent: Seq<char>,
    windows: bool,
    at: int,
)
    requires
        0 <= at < found_files(remote, link, parent, windows).len(),
    ensures
        !remote.on_disk.contains(found_files(remote, link, parent, windows)[at].filepath),
{
    let placed = placed_files(parent, windows, remote.files[link]);
    let flags = disk_flags(remote, placed);
    lemma_missing_keeps_only_absent(placed, flags, at);
}

} // verus!
