//! From a snapshot of one directory to the listing that is shown.
//!
//! The caller reads the directory and hands over what it found, child by
//! child. The scanner hides dot-named children, keeps directories and
//! media files, and orders them: directories newest first, files smallest
//! first, children of equal rank in the order in which they were found.

use crate::error::ScanError;
use crate::path::{is_hidden, is_hidden_name, join_spec, name_extension, resolve_spec};
use crate::path::{extension_of_name, same_text, AbsolutePath};
use vstd::prelude::*;
use vstd::string::*;

verus! {

/// One child of a directory, as its metadata describes it.
#[derive(Debug)]
pub struct RawEntry {
    /// The child's name within the directory.
    pub name: String,
    pub is_dir: bool,
    pub is_file: bool,
    /// When the child was last modified; a later time is a larger number.
    pub modified: u64,
    /// The child's size in bytes.
    pub size: u64,
}

/// A child as plain values.
pub struct RawEntryView {
    pub name: Seq<char>,
    pub is_dir: bool,
    pub is_file: bool,
    pub modified: u64,
    pub size: u64,
}

impl View for RawEntry {
    type V = RawEntryView;

    open spec fn view(&self) -> RawEntryView {
        RawEntryView {
            name: self.name@,
            is_dir: self.is_dir,
            is_file: self.is_file,
            modified: self.modified,
            size: self.size,
        }
    }
}

/// What became of the attempt to read one child's metadata.
#[derive(Debug)]
pub enum Probe {
    Known(RawEntry),
    NoMetadata,
}

/// What became of the attempt to read a directory.
#[derive(Debug)]
pub enum Snapshot {
    /// The directory could not be opened.
    Unreadable,
    /// Its children, in the order in which the host enumerated them.
    Children(Vec<Probe>),
}

/// What a listed entry is.
#[derive(Clone, Copy, Debug, PartialEq, Eq, Structural)]
pub enum EntryKind {
    Directory,
    Media,
    Other,
}

/// How a media file is presented.
#[derive(Clone, Copy, Debug, PartialEq, Eq, Structural)]
pub enum Presentation {
    Image,
    Video,
}

/// The order of one half of a listing.
#[derive(Clone, Copy, Debug, PartialEq, Eq, Structural)]
pub enum SortOrder {
    /// By modification time, latest first.
    NewestFirst,
    /// By size, smallest first.
    SmallestFirst,
}

/// One line of a listing.
#[derive(Debug)]
pub struct DirectoryEntry {
    pub path: AbsolutePath,
    pub kind: EntryKind,
    pub display_name: String,
    pub modified_time: u64,
    pub size_bytes: u64,
}

/// A line of a listing as plain values.
pub struct DirectoryEntryView {
    pub path: Seq<char>,
    pub kind: EntryKind,
    pub display_name: Seq<char>,
    pub modified_time: u64,
    pub size_bytes: u64,
}

impl View for DirectoryEntry {
    type V = DirectoryEntryView;

    open spec fn view(&self) -> DirectoryEntryView {
        DirectoryEntryView {
            path: self.path@,
            kind: self.kind,
            display_name: self.display_name@,
            modified_time: self.modified_time,
            size_bytes: self.size_bytes,
        }
    }
}

/// The listing of one directory.
#[derive(Debug)]
pub struct Listing {
    /// The parent entry, then the directories.
    pub directories: Vec<DirectoryEntry>,
    /// The media files.
    pub files: Vec<DirectoryEntry>,
    /// Whether the session was in move mode when the listing was made.
    pub move_mode: bool,
}

/// A listing as plain values.
pub struct ListingView {
    pub directories: Seq<DirectoryEntryView>,
    pub files: Seq<DirectoryEntryView>,
    pub move_mode: bool,
}

/// The entries of a vector as plain values.
pub open spec fn entry_views(entries: Seq<DirectoryEntry>) -> Seq<DirectoryEntryView> {
    entries.map_values(|e: DirectoryEntry| e@)
}

impl View for Listing {
    type V = ListingView;

    open spec fn view(&self) -> ListingView {
        ListingView {
            directories: entry_views(self.directories@),
            files: entry_views(self.files@),
            move_mode: self.move_mode,
        }
    }
}

/// The lower-case form of an ASCII capital; any other character is itself.
pub open spec fn ascii_lower(c: char) -> char {
    if 'A' <= c && c <= 'Z' {
        ((c as u8) + 32u8) as char
    } else {
        c
    }
}

/// A text with its ASCII capitals in lower case.
pub open spec fn lowered(text: Seq<char>) -> Seq<char> {
    text.map_values(|c: char| ascii_lower(c))
}

/// What a file with this extension holds, whatever the case of the
/// extension: `mp4` and `mov` are video, `png`, `jpg` and `jpeg` are
/// images, anything else is no media.
pub open spec fn media_kind_spec(ext: Seq<char>) -> Option<Presentation> {
    let low = lowered(ext);
    if low == "mp4"@ || low == "mov"@ {
        Some(Presentation::Video)
    } else if low == "png"@ || low == "jpg"@ || low == "jpeg"@ {
        Some(Presentation::Image)
    } else {
        None
    }
}

/// The extensions of the files that are listed.
pub open spec fn is_media_extension(ext: Seq<char>) -> bool {
    media_kind_spec(ext) is Some
}

/// What a listed entry holds, judged by the extension of its name.
pub open spec fn entry_media(e: DirectoryEntryView) -> Option<Presentation> {
    match name_extension(e.display_name) {
        Some(ext) => media_kind_spec(ext),
        None => None,
    }
}

/// How a file with this extension is presented: `mp4` and `mov`, written
/// just so, as video, anything else as an image.
pub open spec fn presentation_spec(ext: Option<Seq<char>>) -> Presentation {
    match ext {
        Some(e) => if e == "mp4"@ || e == "mov"@ {
            Presentation::Video
        } else {
            Presentation::Image
        },
        None => Presentation::Image,
    }
}

/// Whether a child is shown among the entries of `kind`. A hidden name is
/// never shown; a directory is; a file is if its extension is a media
/// extension. Nothing is shown as `Other`.
pub open spec fn is_listed(kind: EntryKind, e: RawEntryView) -> bool {
    !is_hidden_name(e.name) && match kind {
        EntryKind::Directory => e.is_dir,
        EntryKind::Media => e.is_file && match name_extension(e.name) {
            Some(ext) => is_media_extension(ext),
            None => false,
        },
        EntryKind::Other => false,
    }
}

/// The line that stands for a child of `dir`.
pub open spec fn listed_entry(dir: Seq<char>, kind: EntryKind, e: RawEntryView) -> DirectoryEntryView {
    DirectoryEntryView {
        path: join_spec(dir, e.name),
        kind,
        display_name: e.name,
        modified_time: e.modified,
        size_bytes: e.size,
    }
}

/// The line that leads out of `dir`: named `..`, it points at the parent,
/// or at `dir` itself where there is none.
pub open spec fn parent_entry(dir: Seq<char>) -> DirectoryEntryView {
    DirectoryEntryView {
        path: resolve_spec(dir, seq!['.', '.']),
        kind: EntryKind::Directory,
        display_name: seq!['.', '.'],
        modified_time: 0,
        size_bytes: 0,
    }
}

/// The lines of `kind` that the children of `dir` give, in the order in
/// which the children were found.
pub open spec fn candidates(dir: Seq<char>, kind: EntryKind, children: Seq<RawEntryView>) -> Seq<
    DirectoryEntryView,
> {
    children.filter(|e: RawEntryView| is_listed(kind, e)).map_values(
        |e: RawEntryView| listed_entry(dir, kind, e),
    )
}

/// The number by which an order ranks an entry: a lower rank comes first.
pub open spec fn rank(order: SortOrder, e: DirectoryEntryView) -> int {
    match order {
        SortOrder::NewestFirst => -(e.modified_time as int),
        SortOrder::SmallestFirst => e.size_bytes as int,
    }
}

/// The entries of rank `k`.
pub open spec fn has_rank(order: SortOrder, k: int) -> spec_fn(DirectoryEntryView) -> bool {
    |e: DirectoryEntryView| rank(order, e) == k
}

/// No entry stands before one of lower rank.
pub open spec fn is_ordered(order: SortOrder, s: Seq<DirectoryEntryView>) -> bool {
    forall|i: int, j: int| 0 <= i < j < s.len() ==> rank(order, #[trigger] s[i]) <= rank(order, #[trigger] s[j])
}

/// For every rank, `a` and `b` hold the same entries of that rank in the
/// same order.
pub open spec fn same_ties(order: SortOrder, a: Seq<DirectoryEntryView>, b: Seq<DirectoryEntryView>) -> bool {
    forall|k: int| #[trigger] a.filter(has_rank(order, k)) == b.filter(has_rank(order, k))
}

/// `sorted` is `input` in order, entries of equal rank left as they stood.
pub open spec fn is_stable_sort_of(
    order: SortOrder,
    sorted: Seq<DirectoryEntryView>,
    input: Seq<DirectoryEntryView>,
) -> bool {
    is_ordered(order, sorted) && same_ties(order, sorted, input)
}

/// Whether every child's metadata was read.
pub open spec fn all_known(probes: Seq<Probe>) -> bool {
    forall|i: int| 0 <= i < probes.len() ==> #[trigger] probes[i] is Known
}

/// The children behind the probes.
pub open spec fn known_entries(probes: Seq<Probe>) -> Seq<RawEntryView> {
    Seq::new(probes.len(), |i: int| probes[i]->Known_0@)
}

/// The error that a snapshot leads to, if any.
pub open spec fn scan_error(snapshot: Snapshot) -> Option<ScanError> {
    match snapshot {
        Snapshot::Unreadable => Some(ScanError::Unreadable),
        Snapshot::Children(probes) => if all_known(probes@) {
            None
        } else {
            Some(ScanError::EntryMetadataUnavailable)
        },
    }
}

/// `listing` is the listing of `dir` with these children: the parent entry
/// first, then the directories newest first, and the media files smallest
/// first.
pub open spec fn is_listing_of(
    listing: ListingView,
    dir: Seq<char>,
    children: Seq<RawEntryView>,
    move_mode: bool,
) -> bool {
    &&& listing.move_mode == move_mode
    &&& listing.directories.len() > 0
    &&& listing.directories[0] == parent_entry(dir)
    &&& is_stable_sort_of(
        SortOrder::NewestFirst,
        listing.directories.skip(1),
        candidates(dir, EntryKind::Directory, children),
    )
    &&& is_stable_sort_of(
        SortOrder::SmallestFirst,
        listing.files,
        candidates(dir, EntryKind::Media, children),
    )
}

/// One more child gives one more candidate, or none.
proof fn lemma_candidates_push(dir: Seq<char>, kind: EntryKind, children: Seq<RawEntryView>, e: RawEntryView)
    ensures
        candidates(dir, kind, children.push(e)) == if is_listed(kind, e) {
            candidates(dir, kind, children).push(listed_entry(dir, kind, e))
        } else {
            candidates(dir, kind, children)
        },
{
    let keep = |e: RawEntryView| is_listed(kind, e);
    let line = |e: RawEntryView| listed_entry(dir, kind, e);
    children.lemma_filter_push(e, keep);
    if is_listed(kind, e) {
        assert(children.filter(keep).push(e).map_values(line) =~= children.filter(keep).map_values(
            line,
        ).push(line(e)));
    }
}

/// No children, no candidates.
proof fn lemma_candidates_empty(dir: Seq<char>, kind: EntryKind)
    ensures
        candidates(dir, kind, Seq::<RawEntryView>::empty()) == Seq::<DirectoryEntryView>::empty(),
{
    reveal(Seq::filter);
    let keep = |e: RawEntryView| is_listed(kind, e);
    let line = |e: RawEntryView| listed_entry(dir, kind, e);
    assert(Seq::<RawEntryView>::empty().filter(keep).map_values(line) =~= Seq::<
        DirectoryEntryView,
    >::empty());
}

/// Every candidate stands for a child that is listed.
pub proof fn lemma_candidate_origin(dir: Seq<char>, kind: EntryKind, children: Seq<RawEntryView>, i: int)
    requires
        0 <= i < candidates(dir, kind, children).len(),
    ensures
        exists|e: RawEntryView|
            children.contains(e) && is_listed(kind, e) && candidates(dir, kind, children)[i]
                == listed_entry(dir, kind, e),
{
    let keep = |e: RawEntryView| is_listed(kind, e);
    let kept = children.filter(keep);
    let e = kept[i];
    children.lemma_filter_pred(keep, i);
    assert(kept.contains(e));
    children.lemma_filter_contains_rev(keep, e);
    assert(candidates(dir, kind, children)[i] == listed_entry(dir, kind, e));
}

/// An entry put where everything before it ranks no higher and everything
/// after it ranks higher leaves every tie as if it had been put last.
proof fn lemma_insert_keeps_ties(
    order: SortOrder,
    s: Seq<DirectoryEntryView>,
    at: int,
    e: DirectoryEntryView,
    k: int,
)
    requires
        0 <= at <= s.len(),
        forall|j: int| at <= j < s.len() ==> rank(order, e) < rank(order, #[trigger] s[j]),
    ensures
        s.insert(at, e).filter(has_rank(order, k)) == s.push(e).filter(has_rank(order, k)),
{
    let p = has_rank(order, k);
    let head = s.take(at);
    let tail = s.skip(at);
    assert(s.insert(at, e) =~= head.push(e) + tail);
    assert(s =~= head + tail);
    Seq::filter_distributes_over_add(head.push(e), tail, p);
    Seq::filter_distributes_over_add(head, tail, p);
    head.lemma_filter_push(e, p);
    s.lemma_filter_push(e, p);
    if p(e) {
        assert forall|j: int| 0 <= j < tail.len() implies !p(#[trigger] tail[j]) by {
            assert(tail[j] == s[at + j]);
        }
        tail.lemma_all_neg_filter_empty(p);
        assert(tail.filter(p) =~= Seq::<DirectoryEntryView>::empty());
        assert(head.filter(p).push(e) + tail.filter(p) =~= (head.filter(p) + tail.filter(p)).push(e));
    }
}

/// Ties that agree still agree once the same entry is put last in both,
/// wherever a stable insertion then moves it.
proof fn lemma_same_ties_step(
    order: SortOrder,
    after: Seq<DirectoryEntryView>,
    before: Seq<DirectoryEntryView>,
    input: Seq<DirectoryEntryView>,
    e: DirectoryEntryView,
)
    requires
        same_ties(order, after, before.push(e)),
        same_ties(order, before, input),
    ensures
        same_ties(order, after, input.push(e)),
{
    assert forall|k: int| #[trigger]
        after.filter(has_rank(order, k)) == input.push(e).filter(has_rank(order, k)) by {
        let p = has_rank(order, k);
        before.lemma_filter_push(e, p);
        input.lemma_filter_push(e, p);
        assert(before.filter(p) == input.filter(p));
    }
}

/// Nothing that is listed below the parent entry has a hidden name, and
/// every listed file has a media extension.
pub proof fn lemma_listing_shows_only_listed(
    listing: ListingView,
    dir: Seq<char>,
    children: Seq<RawEntryView>,
    move_mode: bool,
)
    requires
        is_listing_of(listing, dir, children, move_mode),
    ensures
        forall|i: int|
            1 <= i < listing.directories.len() ==> {
                &&& !is_hidden_name((#[trigger] listing.directories[i]).display_name)
                &&& listing.directories[i].kind == EntryKind::Directory
            },
        forall|i: int|
            0 <= i < listing.files.len() ==> {
                &&& !is_hidden_name((#[trigger] listing.files[i]).display_name)
                &&& listing.files[i].kind == EntryKind::Media
                &&& match name_extension(listing.files[i].display_name) {
                    Some(ext) => is_media_extension(ext),
                    None => false,
                }
            },
{
    assert forall|i: int| 1 <= i < listing.directories.len() implies {
        &&& !is_hidden_name((#[trigger] listing.directories[i]).display_name)
        &&& listing.directories[i].kind == EntryKind::Directory
    } by {
        let shown = listing.directories.skip(1);
        assert(shown[i - 1] == listing.directories[i]);
        lemma_sorted_entry_origin(
            SortOrder::NewestFirst,
            shown,
            dir,
            EntryKind::Directory,
            children,
            i - 1,
        );
    }
    assert forall|i: int| 0 <= i < listing.files.len() implies {
        &&& !is_hidden_name((#[trigger] listing.files[i]).display_name)
        &&& listing.files[i].kind == EntryKind::Media
        &&& match name_extension(listing.files[i].display_name) {
            Some(ext) => is_media_extension(ext),
            None => false,
        }
    } by {
        lemma_sorted_entry_origin(
            SortOrder::SmallestFirst,
            listing.files,
            dir,
            EntryKind::Media,
            children,
            i,
        );
    }
}

/// Every entry of a sorted half stands for a child that is listed.
pub proof fn lemma_sorted_entry_origin(
    order: SortOrder,
    sorted: Seq<DirectoryEntryView>,
    dir: Seq<char>,
    kind: EntryKind,
    children: Seq<RawEntryView>,
    i: int,
)
    requires
        same_ties(order, sorted, candidates(dir, kind, children)),
        0 <= i < sorted.len(),
    ensures
        exists|e: RawEntryView|
            children.contains(e) && is_listed(kind, e) && sorted[i] == listed_entry(dir, kind, e),
{
    let all = candidates(dir, kind, children);
    let p = has_rank(order, rank(order, sorted[i]));
    assert(sorted.filter(p) == all.filter(p));
    assert(p(sorted[i]));
    sorted.lemma_filter_contains(p, i);
    all.lemma_filter_contains_rev(p, sorted[i]);
    let j = choose|j: int| 0 <= j < all.len() && all[j] == sorted[i];
    lemma_candidate_origin(dir, kind, children, j);
}

/// Every candidate is shown: nothing that should be listed is lost.
pub proof fn lemma_candidate_is_shown(
    order: SortOrder,
    sorted: Seq<DirectoryEntryView>,
    input: Seq<DirectoryEntryView>,
    i: int,
)
    requires
        same_ties(order, sorted, input),
        0 <= i < input.len(),
    ensures
        sorted.contains(input[i]),
{
    let p = has_rank(order, rank(order, input[i]));
    assert(sorted.filter(p) == input.filter(p));
    assert(p(input[i]));
    input.lemma_filter_contains(p, i);
    sorted.lemma_filter_contains_rev(p, input[i]);
}

/// Every child that is to be listed has its line in the listing.
pub proof fn lemma_listed_child_is_shown(
    listing: ListingView,
    dir: Seq<char>,
    children: Seq<RawEntryView>,
    move_mode: bool,
    child: RawEntryView,
)
    requires
        is_listing_of(listing, dir, children, move_mode),
        children.contains(child),
    ensures
        is_listed(EntryKind::Directory, child) ==> listing.directories.skip(1).contains(
            listed_entry(dir, EntryKind::Directory, child),
        ),
        is_listed(EntryKind::Media, child) ==> listing.files.contains(
            listed_entry(dir, EntryKind::Media, child),
        ),
{
    if is_listed(EntryKind::Directory, child) {
        lemma_candidate_of_child(dir, EntryKind::Directory, children, child);
        let all = candidates(dir, EntryKind::Directory, children);
        let j = choose|j: int| 0 <= j < all.len() && all[j] == listed_entry(dir, EntryKind::Directory, child);
        lemma_candidate_is_shown(SortOrder::NewestFirst, listing.directories.skip(1), all, j);
    }
    if is_listed(EntryKind::Media, child) {
        lemma_candidate_of_child(dir, EntryKind::Media, children, child);
        let all = candidates(dir, EntryKind::Media, children);
        let j = choose|j: int| 0 <= j < all.len() && all[j] == listed_entry(dir, EntryKind::Media, child);
        lemma_candidate_is_shown(SortOrder::SmallestFirst, listing.files, all, j);
    }
}

/// A child that is to be listed is among the candidates.
pub proof fn lemma_candidate_of_child(dir: Seq<char>, kind: EntryKind, children: Seq<RawEntryView>, child: RawEntryView)
    requires
        children.contains(child),
        is_listed(kind, child),
    ensures
        candidates(dir, kind, children).contains(listed_entry(dir, kind, child)),
{
    let keep = |e: RawEntryView| is_listed(kind, e);
    let i = choose|i: int| 0 <= i < children.len() && children[i] == child;
    children.lemma_filter_contains(keep, i);
    let kept = children.filter(keep);
    let j = choose|j: int| 0 <= j < kept.len() && kept[j] == child;
    assert(candidates(dir, kind, children)[j] == listed_entry(dir, kind, child));
}

/// In a listing the directories below the parent entry stand from the
/// latest modification to the earliest, and the files from the smallest to
/// the largest.
pub proof fn lemma_listing_order(
    listing: ListingView,
    dir: Seq<char>,
    children: Seq<RawEntryView>,
    move_mode: bool,
    i: int,
    j: int,
)
    requires
        is_listing_of(listing, dir, children, move_mode),
        0 <= i <= j,
    ensures
        1 <= i && j < listing.directories.len() ==> listing.directories[i].modified_time
            >= listing.directories[j].modified_time,
        j < listing.files.len() ==> listing.files[i].size_bytes <= listing.files[j].size_bytes,
{
    if 1 <= i < j < listing.directories.len() {
        let shown = listing.directories.skip(1);
        assert(shown[i - 1] == listing.directories[i] && shown[j - 1] == listing.directories[j]);
        assert(rank(SortOrder::NewestFirst, shown[i - 1]) <= rank(SortOrder::NewestFirst, shown[j - 1]));
    }
    if i < j < listing.files.len() {
        assert(rank(SortOrder::SmallestFirst, listing.files[i]) <= rank(
            SortOrder::SmallestFirst,
            listing.files[j],
        ));
    }
}

/// The name of every listed directory, the parent entry's too, is a token
/// that leads from the listed directory to that entry's path.
pub proof fn lemma_listed_directory_is_reachable(
    listing: ListingView,
    dir: Seq<char>,
    children: Seq<RawEntryView>,
    move_mode: bool,
    i: int,
)
    requires
        is_listing_of(listing, dir, children, move_mode),
        0 <= i < listing.directories.len(),
    ensures
        resolve_spec(dir, listing.directories[i].display_name) == listing.directories[i].path,
{
    if i >= 1 {
        let shown = listing.directories.skip(1);
        assert(shown[i - 1] == listing.directories[i]);
        lemma_sorted_entry_origin(SortOrder::NewestFirst, shown, dir, EntryKind::Directory, children, i - 1);
        let e = choose|e: RawEntryView|
            children.contains(e) && is_listed(EntryKind::Directory, e) && shown[i - 1] == listed_entry(
                dir,
                EntryKind::Directory,
                e,
            );
        assert(e.name != seq!['.', '.']) by {
            if e.name == seq!['.', '.'] {
                assert(e.name[0] == '.');
            }
        }
    }
}

/// The last entry of an ordered sequence is the last of its rank.
proof fn lemma_last_of_rank(order: SortOrder, s: Seq<DirectoryEntryView>)
    requires
        s.len() > 0,
    ensures
        ({
            let p = has_rank(order, rank(order, s.last()));
            s.filter(p).len() > 0 && s.filter(p).last() == s.last() && s.filter(p).drop_last()
                == s.drop_last().filter(p)
        }),
{
    let p = has_rank(order, rank(order, s.last()));
    assert(s =~= s.drop_last().push(s.last()));
    s.drop_last().lemma_filter_push(s.last(), p);
    assert(s.drop_last().filter(p).push(s.last()).drop_last() =~= s.drop_last().filter(p));
}

/// What stands in a sequence stands among the entries of its rank.
proof fn lemma_in_own_rank(order: SortOrder, s: Seq<DirectoryEntryView>, i: int)
    requires
        0 <= i < s.len(),
    ensures
        s.filter(has_rank(order, rank(order, s[i]))).contains(s[i]),
{
    let p = has_rank(order, rank(order, s[i]));
    assert(p(s[i]));
    s.lemma_filter_contains(p, i);
}

/// An order and its ties leave no choice: two stable sorts of the same
/// input are the same sequence.
pub proof fn lemma_stable_sort_unique(
    order: SortOrder,
    a: Seq<DirectoryEntryView>,
    b: Seq<DirectoryEntryView>,
    input: Seq<DirectoryEntryView>,
)
    requires
        is_stable_sort_of(order, a, input),
        is_stable_sort_of(order, b, input),
    ensures
        a == b,
{
    assert forall|k: int| #[trigger] a.filter(has_rank(order, k)) == b.filter(has_rank(order, k)) by {
        assert(a.filter(has_rank(order, k)) == input.filter(has_rank(order, k)));
        assert(b.filter(has_rank(order, k)) == input.filter(has_rank(order, k)));
    }
    lemma_ordered_ties_unique(order, a, b);
}

/// Two ordered sequences with the same ties are the same sequence.
pub proof fn lemma_ordered_ties_unique(order: SortOrder, a: Seq<DirectoryEntryView>, b: Seq<DirectoryEntryView>)
    requires
        is_ordered(order, a),
        is_ordered(order, b),
        same_ties(order, a, b),
    ensures
        a == b,
    decreases a.len(),
{
    if a.len() == 0 {
        if b.len() > 0 {
            lemma_in_own_rank(order, b, 0);
            let p = has_rank(order, rank(order, b[0]));
            assert(a.filter(p) == b.filter(p));
            a.lemma_filter_contains_rev(p, b[0]);
        }
        assert(a =~= b);
    } else if b.len() == 0 {
        lemma_in_own_rank(order, a, 0);
        let p = has_rank(order, rank(order, a[0]));
        assert(a.filter(p) == b.filter(p));
        b.lemma_filter_contains_rev(p, a[0]);
    } else {
        let x = a.last();
        let y = b.last();
        let px = has_rank(order, rank(order, x));
        let py = has_rank(order, rank(order, y));
        // each last entry stands in the other sequence, so the two ranks agree
        lemma_in_own_rank(order, a, a.len() - 1);
        assert(a.filter(px) == b.filter(px));
        b.lemma_filter_contains_rev(px, x);
        let ib = choose|i: int| 0 <= i < b.len() && b[i] == x;
        assert(rank(order, b[ib]) <= rank(order, b[b.len() - 1]));
        lemma_in_own_rank(order, b, b.len() - 1);
        assert(a.filter(py) == b.filter(py));
        a.lemma_filter_contains_rev(py, y);
        let ia = choose|i: int| 0 <= i < a.len() && a[i] == y;
        assert(rank(order, a[ia]) <= rank(order, a[a.len() - 1]));
        assert(rank(order, x) == rank(order, y));
        lemma_last_of_rank(order, a);
        lemma_last_of_rank(order, b);
        assert(x == y);
        let a0 = a.drop_last();
        let b0 = b.drop_last();
        assert forall|k: int| #[trigger] a0.filter(has_rank(order, k)) == b0.filter(has_rank(order, k)) by {
            let p = has_rank(order, k);
            assert(a =~= a0.push(x));
            assert(b =~= b0.push(x));
            a0.lemma_filter_push(x, p);
            b0.lemma_filter_push(x, p);
            assert(a.filter(p) == b.filter(p));
            if p(x) {
                assert(a0.filter(p).push(x).drop_last() =~= a0.filter(p));
                assert(b0.filter(p).push(x).drop_last() =~= b0.filter(p));
            }
        }
        assert forall|i: int, j: int| 0 <= i < j < a0.len() implies rank(order, #[trigger] a0[i]) <= rank(
            order,
            #[trigger] a0[j],
        ) by {
            assert(a0[i] == a[i] && a0[j] == a[j]);
        }
        assert forall|i: int, j: int| 0 <= i < j < b0.len() implies rank(order, #[trigger] b0[i]) <= rank(
            order,
            #[trigger] b0[j],
        ) by {
            assert(b0[i] == b[i] && b0[j] == b[j]);
        }
        lemma_ordered_ties_unique(order, a0, b0);
        assert(a =~= a0.push(x));
        assert(b =~= b0.push(x));
    }
}

/// A snapshot and a directory determine the listing.
pub proof fn lemma_listing_unique(
    first: ListingView,
    second: ListingView,
    dir: Seq<char>,
    children: Seq<RawEntryView>,
    move_mode: bool,
)
    requires
        is_listing_of(first, dir, children, move_mode),
        is_listing_of(second, dir, children, move_mode),
    ensures
        first == second,
{
    lemma_stable_sort_unique(
        SortOrder::NewestFirst,
        first.directories.skip(1),
        second.directories.skip(1),
        candidates(dir, EntryKind::Directory, children),
    );
    lemma_stable_sort_unique(
        SortOrder::SmallestFirst,
        first.files,
        second.files,
        candidates(dir, EntryKind::Media, children),
    );
    assert(first.directories =~= seq![first.directories[0]] + first.directories.skip(1));
    assert(second.directories =~= seq![second.directories[0]] + second.directories.skip(1));
}

/// The lower-case form of a character.
pub fn to_ascii_lower(c: char) -> (r: char)
    ensures
        r == ascii_lower(c),
{
    if 'A' <= c && c <= 'Z' {
        ((c as u8) + 32u8) as char
    } else {
        c
    }
}

/// Whether `text`, in lower case, is `word`.
fn lowered_is(text: &str, word: &str) -> (r: bool)
    ensures
        r == (lowered(text@) == word@),
{
    let len: usize = text.unicode_len();
    if len != word.unicode_len() {
        return false;
    }
    let mut i: usize = 0;
    while i < len
        invariant
            i <= len == text@.len() == word@.len(),
            forall|j: int| 0 <= j < i ==> ascii_lower(#[trigger] text@[j]) == word@[j],
        decreases len - i,
    {
        if to_ascii_lower(text.get_char(i)) != word.get_char(i) {
            assert(lowered(text@)[i as int] != word@[i as int]);
            return false;
        }
        i = i + 1;
    }
    assert(lowered(text@) =~= word@);
    true
}

/// What a file with this extension holds.
pub fn media_kind(ext: &str) -> (r: Option<Presentation>)
    ensures
        r == media_kind_spec(ext@),
{
    if lowered_is(ext, "mp4") || lowered_is(ext, "mov") {
        Some(Presentation::Video)
    } else if lowered_is(ext, "png") || lowered_is(ext, "jpg") || lowered_is(ext, "jpeg") {
        Some(Presentation::Image)
    } else {
        None
    }
}

/// Whether files with this extension are listed.
pub fn media_extension(ext: &str) -> (r: bool)
    ensures
        r == is_media_extension(ext@),
{
    media_kind(ext).is_some()
}

impl DirectoryEntry {
    /// What the entry holds, judged by the extension of its name.
    pub fn media(&self) -> (r: Option<Presentation>)
        ensures
            r == entry_media(self@),
    {
        match extension_of_name(self.display_name.as_str()) {
            Some(ext) => media_kind(ext.as_str()),
            None => None,
        }
    }
}

/// How a file with this extension is presented.
pub fn presentation(ext: &Option<String>) -> (r: Presentation)
    ensures
        r == presentation_spec(
            match ext {
                Some(e) => Some(e@),
                None => None,
            },
        ),
{
    match ext {
        Some(e) => {
            if same_text(e.as_str(), "mp4") || same_text(e.as_str(), "mov") {
                Presentation::Video
            } else {
                Presentation::Image
            }
        },
        None => Presentation::Image,
    }
}

/// Whether a child is shown among the entries of `kind`.
pub fn listed(kind: EntryKind, raw: &RawEntry) -> (r: bool)
    ensures
        r == is_listed(kind, raw@),
{
    if is_hidden(raw.name.as_str()) {
        return false;
    }
    match kind {
        EntryKind::Directory => raw.is_dir,
        EntryKind::Media => {
            if !raw.is_file {
                return false;
            }
            match extension_of_name(raw.name.as_str()) {
                Some(ext) => media_extension(ext.as_str()),
                None => false,
            }
        },
        EntryKind::Other => false,
    }
}

/// The line that stands for a child of `directory`.
pub fn make_entry(directory: &AbsolutePath, kind: EntryKind, raw: &RawEntry) -> (r: DirectoryEntry)
    ensures
        r@ == listed_entry(directory@, kind, raw@),
{
    DirectoryEntry {
        path: directory.join(raw.name.as_str()),
        kind,
        display_name: raw.name.clone(),
        modified_time: raw.modified,
        size_bytes: raw.size,
    }
}

/// The line that leads out of `directory`.
pub fn make_parent_entry(directory: &AbsolutePath) -> (r: DirectoryEntry)
    ensures
        r@ == parent_entry(directory@),
{
    proof {
        reveal_strlit("..");
    }
    let name = "..";
    assert(name@ =~= seq!['.', '.']);
    DirectoryEntry {
        path: directory.resolve(name),
        kind: EntryKind::Directory,
        display_name: name.to_owned(),
        modified_time: 0,
        size_bytes: 0,
    }
}

/// Whether `a` must stand before `b`.
pub fn ranks_before(order: SortOrder, a: &DirectoryEntry, b: &DirectoryEntry) -> (r: bool)
    ensures
        r == (rank(order, a@) < rank(order, b@)),
{
    match order {
        SortOrder::NewestFirst => a.modified_time > b.modified_time,
        SortOrder::SmallestFirst => a.size_bytes < b.size_bytes,
    }
}

/// Puts `entry` into an ordered vector, behind the entries of its rank.
fn insert_ordered(order: SortOrder, sorted: &mut Vec<DirectoryEntry>, entry: DirectoryEntry)
    requires
        is_ordered(order, entry_views(old(sorted)@)),
    ensures
        is_stable_sort_of(
            order,
            entry_views(final(sorted)@),
            entry_views(old(sorted)@).push(entry@),
        ),
        final(sorted)@.len() == old(sorted)@.len() + 1,
{
    let ghost before = entry_views(sorted@);
    let mut at: usize = sorted.len();
    while at > 0 && ranks_before(order, &entry, &sorted[at - 1])
        invariant
            at <= sorted@.len(),
            entry_views(sorted@) == before,
            forall|j: int| at <= j < before.len() ==> rank(order, entry@) < rank(order, #[trigger] before[j]),
        decreases at,
    {
        at = at - 1;
    }
    sorted.insert(at, entry);
    proof {
        let after = entry_views(sorted@);
        assert(after =~= before.insert(at as int, entry@));
        assert forall|k: int| #[trigger]
            after.filter(has_rank(order, k)) == before.push(entry@).filter(has_rank(order, k)) by {
            lemma_insert_keeps_ties(order, before, at as int, entry@, k);
        }
        assert forall|i: int, j: int| 0 <= i < j < after.len() implies rank(order, #[trigger] after[i])
            <= rank(order, #[trigger] after[j]) by {
            if at > 0 {
                assert(rank(order, before[at - 1]) <= rank(order, entry@));
            }
            if i < at && j > at {
                assert(after[i] == before[i] && after[j] == before[j - 1]);
            } else if i < at && j == at {
                assert(after[i] == before[i]);
                if i < at - 1 {
                    assert(rank(order, before[i]) <= rank(order, before[at - 1]));
                }
            } else if i < at && j < at {
                assert(after[i] == before[i] && after[j] == before[j]);
            } else if i == at {
                assert(after[j] == before[j - 1]);
            } else {
                assert(after[i] == before[i - 1] && after[j] == before[j - 1]);
            }
        }
    }
}

/// Lists `directory` from a snapshot of it. Fails with `Unreadable` where
/// the directory could not be opened and with `EntryMetadataUnavailable`
/// where the metadata of any child is missing; otherwise the listing holds
/// the parent entry, the visible directories newest first and the visible
/// media files smallest first.
pub fn scan(directory: &AbsolutePath, snapshot: &Snapshot, move_mode: bool) -> (r: Result<Listing, ScanError>)
    ensures
        match r {
            Ok(listing) => scan_error(*snapshot) is None && snapshot is Children && is_listing_of(
                listing@,
                directory@,
                known_entries(snapshot->Children_0@),
                move_mode,
            ),
            Err(e) => scan_error(*snapshot) == Some(e),
        },
{
    let probes = match snapshot {
        Snapshot::Unreadable => {
            return Err(ScanError::Unreadable);
        },
        Snapshot::Children(probes) => probes,
    };
    let ghost dir = directory@;
    let ghost children = known_entries(probes@);
    let mut directories: Vec<DirectoryEntry> = Vec::new();
    let mut files: Vec<DirectoryEntry> = Vec::new();
    proof {
        lemma_candidates_empty(dir, EntryKind::Directory);
        lemma_candidates_empty(dir, EntryKind::Media);
        assert(children.take(0) =~= Seq::<RawEntryView>::empty());
        assert(entry_views(directories@) =~= Seq::<DirectoryEntryView>::empty());
        assert(entry_views(files@) =~= Seq::<DirectoryEntryView>::empty());
    }
    let mut i: usize = 0;
    while i < probes.len()
        invariant
            i <= probes@.len(),
            *snapshot == Snapshot::Children(*probes),
            children == known_entries(probes@),
            dir == directory@,
            forall|j: int| 0 <= j < i ==> #[trigger] probes@[j] is Known,
            is_stable_sort_of(
                SortOrder::NewestFirst,
                entry_views(directories@),
                candidates(dir, EntryKind::Directory, children.take(i as int)),
            ),
            is_stable_sort_of(
                SortOrder::SmallestFirst,
                entry_views(files@),
                candidates(dir, EntryKind::Media, children.take(i as int)),
            ),
        decreases probes@.len() - i,
    {
        let raw = match &probes[i] {
            Probe::Known(raw) => raw,
            Probe::NoMetadata => {
                assert(!(probes@[i as int] is Known));
                return Err(ScanError::EntryMetadataUnavailable);
            },
        };
        proof {
            assert(children.take(i + 1) =~= children.take(i as int).push(raw@));
            lemma_candidates_push(dir, EntryKind::Directory, children.take(i as int), raw@);
            lemma_candidates_push(dir, EntryKind::Media, children.take(i as int), raw@);
        }
        if listed(EntryKind::Directory, raw) {
            let ghost before = entry_views(directories@);
            let entry = make_entry(directory, EntryKind::Directory, raw);
            let ghost line = entry@;
            insert_ordered(SortOrder::NewestFirst, &mut directories, entry);
            proof {
                lemma_same_ties_step(
                    SortOrder::NewestFirst,
                    entry_views(directories@),
                    before,
                    candidates(dir, EntryKind::Directory, children.take(i as int)),
                    line,
                );
            }
        }
        if listed(EntryKind::Media, raw) {
            let ghost before = entry_views(files@);
            let entry = make_entry(directory, EntryKind::Media, raw);
            let ghost line = entry@;
            insert_ordered(SortOrder::SmallestFirst, &mut files, entry);
            proof {
                lemma_same_ties_step(
                    SortOrder::SmallestFirst,
                    entry_views(files@),
                    before,
                    candidates(dir, EntryKind::Media, children.take(i as int)),
                    line,
                );
            }
        }
        i = i + 1;
    }
    proof {
        assert(children.take(i as int) =~= children);
    }
    let ghost shown = entry_views(directories@);
    directories.insert(0, make_parent_entry(directory));
    proof {
        assert(entry_views(directories@).skip(1) =~= shown);
    }
    Ok(Listing { directories, files, move_mode })
}

} // verus!
