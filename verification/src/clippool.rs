//! Clip pool: which files of a directory are clips, in what order and under
//! which ids, and how a decoded first frame becomes a thumbnail.

use vstd::prelude::*;
use vstd::string::*;

use crate::commands::ClipId;
use crate::paths::{extension, extension_of, file_name, file_name_of, join, joined_path};
use crate::seqs::{first_at, first_at_bounds, first_at_is};
use crate::text::{
    at_most, in_order, lowercase, same, text_copy, text_le, text_le_total, text_le_transitive,
    to_lowercase, view_opt, views,
};
use crate::units::MicroBpm;

verus! {

/// Where a clip's frames come from.
#[derive(Debug, PartialEq, Eq)]
pub enum ClipSource {
    /// A video file, by path.
    File(String),
    /// A capture device, by its identity.
    Camera(String),
}

/// The mathematical content of a [`ClipSource`].
pub enum ClipSourceModel {
    File(Seq<char>),
    Camera(Seq<char>),
}

impl View for ClipSource {
    type V = ClipSourceModel;

    open spec fn view(&self) -> ClipSourceModel {
        match self {
            ClipSource::File(p) => ClipSourceModel::File(p@),
            ClipSource::Camera(d) => ClipSourceModel::Camera(d@),
        }
    }
}

impl Clone for ClipSource {
    fn clone(&self) -> (r: Self)
        ensures
            r@ == self@,
    {
        match self {
            ClipSource::File(p) => ClipSource::File(p.clone()),
            ClipSource::Camera(d) => ClipSource::Camera(d.clone()),
        }
    }
}

/// One source video in the pool.
#[derive(Debug)]
pub struct Clip {
    pub id: ClipId,
    pub source: ClipSource,
    pub name: String,
    /// The tempo the material was made at, when known.
    pub bpm: Option<MicroBpm>,
}

/// The mathematical content of a [`Clip`].
pub struct ClipModel {
    pub id: ClipId,
    pub source: ClipSourceModel,
    pub name: Seq<char>,
    pub bpm: Option<MicroBpm>,
}

impl View for Clip {
    type V = ClipModel;

    open spec fn view(&self) -> ClipModel {
        ClipModel { id: self.id, source: self.source@, name: self.name@, bpm: self.bpm }
    }
}

impl ClipModel {
    /// The file the clip is read from, if it is one.
    pub open spec fn file_path(self) -> Option<Seq<char>> {
        match self.source {
            ClipSourceModel::File(p) => Some(p),
            ClipSourceModel::Camera(_) => None,
        }
    }
}

impl Clip {
    /// The file the clip is read from; cameras have none.
    pub fn file_path(&self) -> (r: Option<&String>)
        ensures
            match r {
                Some(p) => self@.file_path() == Some(p@),
                None => self@.file_path() is None,
            },
    {
        match &self.source {
            ClipSource::File(p) => Some(p),
            ClipSource::Camera(_) => None,
        }
    }
}

impl Clone for Clip {
    fn clone(&self) -> (r: Self)
        ensures
            r@ == self@,
    {
        Clip { id: self.id, source: self.source.clone(), name: self.name.clone(), bpm: self.bpm }
    }
}

/// Selects the clip with a given id.
pub open spec fn has_clip_id(id: ClipId) -> spec_fn(ClipModel) -> bool {
    |c: ClipModel| c.id == id
}

/// A named grouping over the pool: a filter, not an owner.
#[derive(Debug)]
pub struct ClipBank {
    pub name: String,
    /// The directory it was scanned from.
    pub dir: Option<String>,
    pub clip_ids: Vec<ClipId>,
}

/// The mathematical content of a [`ClipBank`].
pub struct ClipBankModel {
    pub name: Seq<char>,
    pub dir: Option<Seq<char>>,
    pub clip_ids: Seq<ClipId>,
}

impl View for ClipBank {
    type V = ClipBankModel;

    open spec fn view(&self) -> ClipBankModel {
        ClipBankModel { name: self.name@, dir: view_opt(self.dir), clip_ids: self.clip_ids@ }
    }
}

impl Clone for ClipBank {
    fn clone(&self) -> (r: Self)
        ensures
            r@ == self@,
    {
        let clip_ids = self.clip_ids.clone();
        proof {
            assert(clip_ids@ =~= self.clip_ids@);
        }
        ClipBank { name: self.name.clone(), dir: text_copy(&self.dir), clip_ids }
    }
}

/// A decoded first frame, scaled to a thumbnail.
#[derive(Clone, Debug)]
pub struct Thumbnail {
    pub id: ClipId,
    pub w: usize,
    pub h: usize,
    pub rgba: Vec<u8>,
}

/// Width of a thumbnail in pixels.
pub const THUMB_W: u32 = 192;

/// Height of a thumbnail in pixels.
pub const THUMB_H: u32 = 108;

/// Whether a lower-case extension belongs to a video file.
pub open spec fn video_extension(ext: Seq<char>) -> bool {
    ext == "mov"@ || ext == "mp4"@ || ext == "mkv"@ || ext == "m4v"@ || ext == "avi"@ || ext
        == "webm"@ || ext == "hap"@
}

/// Whether a file name is that of a video clip: its extension, in any case, is
/// one of the video extensions.
pub open spec fn is_video(name: Seq<char>) -> bool {
    match extension_of(name) {
        Some(ext) => video_extension(lowercase(ext)),
        None => false,
    }
}

/// Whether a directory entry is a video clip.
pub fn is_video_name(name: &str) -> (r: bool)
    ensures
        r == is_video(name@),
{
    match extension(name) {
        Some(ext) => {
            let e = to_lowercase(ext.as_str());
            let e = e.as_str();
            same(e, "mov") || same(e, "mp4") || same(e, "mkv") || same(e, "m4v") || same(e, "avi")
                || same(e, "webm") || same(e, "hap")
        },
        None => false,
    }
}

/// The video clips among directory entries, in the order they came.
pub open spec fn videos(entries: Seq<Seq<char>>) -> Seq<Seq<char>>
    decreases entries.len(),
{
    if entries.len() == 0 {
        seq![]
    } else if is_video(entries.last()) {
        videos(entries.drop_last()).push(entries.last())
    } else {
        videos(entries.drop_last())
    }
}

/// The clip for an entry of a directory.
pub open spec fn scanned_clip(dir: Seq<char>, entry: Seq<char>, id: ClipId) -> ClipModel {
    ClipModel {
        id,
        source: ClipSourceModel::File(joined_path(dir, entry)),
        name: match file_name_of(joined_path(dir, entry)) {
            Some(n) => n,
            None => "clip"@,
        },
        bpm: None,
    }
}

/// Selects the texts that come after `x`.
pub open spec fn comes_after(x: Seq<char>) -> spec_fn(Seq<char>) -> bool {
    |y: Seq<char>| !text_le(y, x)
}

/// A list with `x` put before the first text that comes after it.
pub open spec fn put_in(s: Seq<Seq<char>>, x: Seq<char>) -> Seq<Seq<char>> {
    s.insert(first_at(s, comes_after(x)), x)
}

/// Texts sorted in dictionary order.
pub open spec fn by_name(s: Seq<Seq<char>>) -> Seq<Seq<char>>
    decreases s.len(),
{
    if s.len() == 0 {
        seq![]
    } else {
        put_in(by_name(s.drop_last()), s.last())
    }
}

/// Sorting keeps every text, as often as it occurs, and puts them in order.
pub proof fn sorting_keeps_every_name(s: Seq<Seq<char>>)
    ensures
        in_order(by_name(s)),
        by_name(s).to_multiset() == s.to_multiset(),
        by_name(s).len() == s.len(),
    decreases s.len(),
{
    broadcast use vstd::seq_lib::group_to_multiset_ensures;

    if s.len() == 0 {
        assert(by_name(s) =~= s);
    } else {
        let front = s.drop_last();
        let x = s.last();
        let before = by_name(front);
        sorting_keeps_every_name(front);
        let at = first_at(before, comes_after(x));
        first_at_bounds(before, comes_after(x));
        let after = by_name(s);
        assert(after == before.insert(at, x));
        assert forall|j: int| at <= j < before.len() implies text_le(x, #[trigger] before[j]) by {
            assert(comes_after(x)(before[at]));
            text_le_total(before[at], x);
            if j > at {
                text_le_transitive(x, before[at], before[j]);
            }
        }
        assert forall|i: int, j: int| 0 <= i < j < after.len() implies text_le(
            #[trigger] after[i],
            #[trigger] after[j],
        ) by {
            let i0 = if i < at { i } else { i - 1 };
            let j0 = if j < at { j } else { j - 1 };
            if i != at {
                assert(after[i] == before[i0]);
            }
            if j != at {
                assert(after[j] == before[j0]);
            }
            if j == at {
                assert(!comes_after(x)(before[i0]));
            }
        }
        vstd::seq_lib::to_multiset_insert(before, at, x);
        assert(s =~= front.push(x));
    }
}

/// A scan gives the same clips the same ids whatever order a directory is listed
/// in.
pub proof fn a_scan_forgets_the_listing(dir: Seq<char>, s: Seq<Seq<char>>, t: Seq<Seq<char>>, first: ClipId)
    requires
        s.to_multiset() == t.to_multiset(),
    ensures
        scanned(dir, s, first) == scanned(dir, t, first),
{
    videos_are_picked(s);
    videos_are_picked(t);
    sorting_keeps_every_name(videos(s));
    sorting_keeps_every_name(videos(t));
    there_is_one_order(by_name(videos(s)), by_name(videos(t)));
}

proof fn videos_are_picked(entries: Seq<Seq<char>>)
    ensures
        videos(entries).to_multiset() == entries.to_multiset().filter(|n: Seq<char>| is_video(n)),
    decreases entries.len(),
{
    broadcast use vstd::seq_lib::group_to_multiset_ensures;
    broadcast use vstd::multiset::group_multiset_axioms;

    let f = |n: Seq<char>| is_video(n);
    if entries.len() > 0 {
        let front = entries.drop_last();
        videos_are_picked(front);
        assert(entries =~= front.push(entries.last()));
        assert(videos(entries).to_multiset() =~= entries.to_multiset().filter(f));
    } else {
        assert(entries =~= Seq::<Seq<char>>::empty());
        assert(videos(entries).to_multiset() =~= entries.to_multiset().filter(f));
    }
}

proof fn there_is_one_order(a: Seq<Seq<char>>, b: Seq<Seq<char>>)
    requires
        in_order(a),
        in_order(b),
        a.to_multiset() == b.to_multiset(),
    ensures
        a == b,
    decreases a.len(),
{
    broadcast use vstd::seq_lib::group_to_multiset_ensures;

    assert(a.to_multiset().len() == a.len());
    assert(b.to_multiset().len() == b.len());
    if a.len() > 0 {
        let n = a.len() - 1;
        let (x, y) = (a[n], b[n]);
        assert(a.contains(x) && b.contains(y));
        assert(a.to_multiset().contains(x) && b.to_multiset().contains(y));
        assert(b.contains(x) && a.contains(y));
        let i = b.index_of(x);
        let j = a.index_of(y);
        text_le_total(x, x);
        text_le_total(x, y);
        assert(text_le(x, y)) by {
            if i < n {
                assert(text_le(b[i], b[n]));
            }
        }
        assert(text_le(y, x)) by {
            if j < n {
                assert(text_le(a[j], a[n]));
            }
        }
        assert(x == y);
        let (c, d) = (a.drop_last(), b.drop_last());
        assert(a =~= c.push(x));
        assert(b =~= d.push(x));
        assert(c.to_multiset() =~= a.to_multiset().remove(x));
        assert(d.to_multiset() =~= b.to_multiset().remove(x));
        there_is_one_order(c, d);
    } else {
        assert(a =~= b);
    }
}

/// Where `x` goes into a sorted list.
fn insertion_point(sorted: &Vec<String>, x: &str) -> (r: usize)
    ensures
        r <= sorted@.len(),
        r == first_at(views(sorted@), comes_after(x@)),
{
    let mut i: usize = 0;
    while i < sorted.len() && at_most(sorted[i].as_str(), x)
        invariant
            i <= sorted@.len(),
            forall|j: int| 0 <= j < i ==> text_le(#[trigger] sorted@[j]@, x@),
        decreases sorted@.len() - i,
    {
        i += 1;
    }
    proof {
        first_at_is(views(sorted@), comes_after(x@), i as int);
    }
    i
}

/// The video clips among directory entries, sorted by name.
fn sorted_videos(entries: &Vec<String>) -> (r: Vec<String>)
    ensures
        views(r@) == by_name(videos(views(entries@))),
{
    let mut r: Vec<String> = Vec::new();
    let mut i: usize = 0;
    proof {
        assert(videos(views(entries@).take(0)) =~= Seq::<Seq<char>>::empty());
        assert(views(r@) =~= by_name(videos(views(entries@).take(0))));
    }
    while i < entries.len()
        invariant
            i <= entries@.len(),
            views(r@) == by_name(videos(views(entries@).take(i as int))),
        decreases entries@.len() - i,
    {
        let ghost seen = views(entries@).take(i + 1);
        proof {
            assert(seen.drop_last() =~= views(entries@).take(i as int));
            assert(seen.last() == entries@[i as int]@);
        }
        if is_video_name(entries[i].as_str()) {
            let at: usize = insertion_point(&r, entries[i].as_str());
            let ghost before = r@;
            r.insert(at, entries[i].clone());
            proof {
                let x = entries@[i as int]@;
                assert(views(r@) =~= views(before).insert(at as int, x));
                assert(videos(seen).drop_last() =~= videos(seen.drop_last()));
            }
        }
        i += 1;
    }
    proof {
        assert(views(entries@).take(entries@.len() as int) =~= views(entries@));
    }
    r
}

/// The clips of a directory, given the names of its entries: its video files
/// sorted by name, numbered from `first` on.
pub open spec fn scanned(dir: Seq<char>, entries: Seq<Seq<char>>, first: ClipId) -> Seq<ClipModel> {
    let names = by_name(videos(entries));
    Seq::new(names.len(), |i: int| scanned_clip(dir, names[i], (first + i) as ClipId))
}

/// The clips of a directory, given the names of its entries: its video files
/// sorted by name, numbered from `first` on.
pub fn scan_from(dir: &str, entries: &Vec<String>, first: ClipId) -> (r: Vec<Clip>)
    requires
        first + entries@.len() <= u32::MAX,
    ensures
        views(r@) == scanned(dir@, views(entries@), first),
        r@.len() <= entries@.len(),
{
    let names = sorted_videos(entries);
    proof {
        videos_are_entries(views(entries@));
        sorting_keeps_every_name(videos(views(entries@)));
        assert(views(names@).len() == names@.len());
    }
    let mut r: Vec<Clip> = Vec::new();
    let mut i: usize = 0;
    while i < names.len()
        invariant
            i <= names@.len() <= entries@.len(),
            first + entries@.len() <= u32::MAX,
            r@.len() == i,
            forall|j: int| 0 <= j < i ==> #[trigger] r@[j]@ == scanned_clip(dir@, names@[j]@, (first + j) as ClipId),
        decreases names@.len() - i,
    {
        let path = join(dir, names[i].as_str());
        let name = match file_name(path.as_str()) {
            Some(n) => n,
            None => "clip".to_owned(),
        };
        r.push(Clip { id: first + i as u32, source: ClipSource::File(path), name, bpm: None });
        i += 1;
    }
    proof {
        assert(views(r@) =~= scanned(dir@, views(entries@), first)) by {
            assert forall|j: int| 0 <= j < r@.len() implies #[trigger] views(r@)[j] == scanned(
                dir@,
                views(entries@),
                first,
            )[j] by {
                assert(r@[j]@ == scanned_clip(dir@, names@[j]@, (first + j) as ClipId));
                assert(views(names@)[j] == names@[j]@);
            }
        }
    }
    r
}

proof fn videos_are_entries(entries: Seq<Seq<char>>)
    ensures
        videos(entries).len() <= entries.len(),
    decreases entries.len(),
{
    if entries.len() > 0 {
        videos_are_entries(entries.drop_last());
    }
}

/// The clips of a directory, numbered from zero.
pub fn scan(dir: &str, entries: &Vec<String>) -> (r: Vec<Clip>)
    requires
        entries@.len() <= u32::MAX,
    ensures
        views(r@) == scanned(dir@, views(entries@), 0),
        r@.len() <= entries@.len(),
{
    scan_from(dir, entries, 0)
}

/// Copies `rows` rows of `row` bytes each, `stride` apart in the source, into
/// one block without gaps.
pub fn pack_rows(src: &Vec<u8>, stride: usize, row: usize, rows: usize) -> (r: Vec<u8>)
    requires
        row <= stride,
        rows > 0 ==> (rows - 1) * stride + row <= src@.len(),
    ensures
        r@.len() == rows * row,
        forall|y: int, x: int|
            0 <= y < rows && 0 <= x < row ==> r@[#[trigger] (y * row + x)] == src@[y * stride + x],
{
    let mut r: Vec<u8> = Vec::new();
    let mut y: usize = 0;
    proof {
        assert(0 * row == 0) by (nonlinear_arith);
        assert(0 * stride == 0) by (nonlinear_arith);
    }
    let mut base: usize = 0;
    let len: usize = src.len();
    while y < rows
        invariant
            y <= rows,
            len == src@.len(),
            row <= stride,
            rows > 0 ==> (rows - 1) * stride + row <= src@.len(),
            y < rows ==> base == y * stride,
            r@.len() == y * row,
            forall|b: int, a: int|
                0 <= b < y && 0 <= a < row ==> r@[#[trigger] (b * row + a)] == src@[b * stride + a],
        decreases rows - y,
    {
        let ghost done = r@;
        proof {
            assert(y * stride + row <= (rows - 1) * stride + row) by (nonlinear_arith)
                requires
                    y <= rows - 1,
                    stride >= 0,
            ;
        }
        let mut x: usize = 0;
        while x < row
            invariant
                x <= row <= stride,
                y < rows,
                len == src@.len(),
                base == y * stride,
                base + row <= src@.len(),
                done.len() == y * row,
                r@.len() == y * row + x,
                forall|k: int| 0 <= k < done.len() ==> r@[k] == done[k],
                forall|k: int| done.len() <= k < r@.len() ==> #[trigger] r@[k] == src@[base + k - done.len()],
            decreases row - x,
        {
            r.push(src[base + x]);
            x += 1;
        }
        proof {
            assert((y + 1) * row == y * row + row) by (nonlinear_arith);
            assert forall|b: int, a: int| 0 <= b < y + 1 && 0 <= a < row implies r@[#[trigger] (b * row + a)]
                == src@[b * stride + a] by {
                if b < y {
                    assert(b * row + a < y * row) by (nonlinear_arith)
                        requires
                            b + 1 <= y,
                            0 <= a < row,
                    ;
                    assert(0 <= b * row) by (nonlinear_arith)
                        requires
                            b >= 0,
                            row >= 0,
                    ;
                    assert(done[b * row + a] == src@[b * stride + a]);
                } else {
                    assert(r@[done.len() + a] == src@[base + a]);
                }
            }
            if y + 1 < rows {
                assert((y + 1) * stride == y * stride + stride) by (nonlinear_arith);
                assert((y + 1) * stride <= (rows - 1) * stride) by (nonlinear_arith)
                    requires
                        y + 1 <= rows - 1,
                        stride >= 0,
                ;
            }
        }
        y += 1;
        if y < rows {
            base = base + stride;
        }
    }
    r
}

} // verus!
