//! Asset requests: which loader a path calls for, and the cache that makes
//! requests for one path share one handle.

use vstd::prelude::*;
use crate::text::{chars_of, string_of};

verus! {

/// What an asset file holds.
#[derive(Clone, Copy, Debug, PartialEq, Eq, Structural)]
pub enum AssetKind {
    /// A `.png` picture.
    Texture,
    /// A `.wav` sound.
    Sound,
}

#[derive(Debug)]
pub enum ResourceError {
    /// The path's extension, upper-cased, names no known kind of asset.
    UnknownExtension(String),
    /// The host could not load the file; the message is the host's.
    LoadingError(String),
}

/// What a [`ResourceError`] says, with its text as characters.
pub enum AssetFault {
    UnknownExtension(Seq<char>),
    LoadingError(Seq<char>),
}

impl View for ResourceError {
    type V = AssetFault;

    open spec fn view(&self) -> AssetFault {
        match self {
            ResourceError::UnknownExtension(e) => AssetFault::UnknownExtension(e@),
            ResourceError::LoadingError(m) => AssetFault::LoadingError(m@),
        }
    }
}

/// The upper-case form of `s`, character by character, as `str::to_uppercase`
/// gives it.
pub uninterp spec fn upper_of(s: Seq<char>) -> Seq<char>;

/// Relies on `str::to_uppercase`: the upper-case form of the text, which
/// depends on its characters alone.
#[verifier::external_body]
fn uppercase(s: &str) -> (r: String)
    ensures
        r@ == upper_of(s@),
{
    s.to_uppercase()
}

/// The characters after the last `.` of a path, or the whole path when it
/// has no `.`.
pub open spec fn extension(path: Seq<char>) -> Seq<char>
    decreases path.len(),
{
    if path.len() == 0 || path.last() == '.' {
        Seq::empty()
    } else {
        extension(path.drop_last()).push(path.last())
    }
}

/// The kind of asset an upper-case extension names.
pub open spec fn kind_of(ext: Seq<char>) -> Result<AssetKind, AssetFault> {
    if ext == seq!['P', 'N', 'G'] {
        Ok(AssetKind::Texture)
    } else if ext == seq!['W', 'A', 'V'] {
        Ok(AssetKind::Sound)
    } else {
        Err(AssetFault::UnknownExtension(ext))
    }
}

/// The kind of asset an upper-case extension names.
pub fn kind_of_extension(ext: String) -> (r: Result<AssetKind, ResourceError>)
    ensures
        match r {
            Ok(k) => kind_of(ext@) == Ok::<AssetKind, AssetFault>(k),
            Err(e) => kind_of(ext@) == Err::<AssetKind, AssetFault>(e@),
        },
{
    let w = chars_of(ext.as_str());
    if w.len() == 3 && w[0] == 'P' && w[1] == 'N' && w[2] == 'G' {
        assert(w@ =~= seq!['P', 'N', 'G']);
        Ok(AssetKind::Texture)
    } else if w.len() == 3 && w[0] == 'W' && w[1] == 'A' && w[2] == 'V' {
        assert(w@ =~= seq!['W', 'A', 'V']);
        Ok(AssetKind::Sound)
    } else {
        assert(w@.len() == 3 ==> w@ != seq!['P', 'N', 'G'] ==> w@[0] != 'P' || w@[1] != 'N' || w@[2]
            != 'G');
        Err(ResourceError::UnknownExtension(ext))
    }
}

/// Index of the first character of the extension of `path`.
fn extension_start(path: &Vec<char>) -> (r: usize)
    ensures
        r <= path@.len(),
        path@.subrange(r as int, path@.len() as int) == extension(path@),
{
    let mut i: usize = path.len();
    assert(path@.take(i as int) =~= path@);
    assert(extension(path@) + path@.subrange(i as int, i as int) =~= extension(path@));
    while i > 0 && path[i - 1] != '.'
        invariant
            i <= path@.len(),
            extension(path@) == extension(path@.take(i as int)) + path@.subrange(
                i as int,
                path@.len() as int,
            ),
        decreases i,
    {
        let ghost head = path@.take(i as int);
        assert(head.drop_last() =~= path@.take(i - 1));
        assert(extension(head) == extension(head.drop_last()).push(path@[i - 1]));
        assert(path@.subrange(i - 1, path@.len() as int) =~= seq![path@[i - 1]] + path@.subrange(
            i as int,
            path@.len() as int,
        ));
        assert(extension(path@.take(i - 1)).push(path@[i - 1]) + path@.subrange(
            i as int,
            path@.len() as int,
        ) =~= extension(path@.take(i - 1)) + path@.subrange(i - 1, path@.len() as int));
        i = i - 1;
    }
    assert(extension(path@.take(i as int)) =~= Seq::<char>::empty());
    assert(Seq::<char>::empty() + path@.subrange(i as int, path@.len() as int) =~= path@.subrange(
        i as int,
        path@.len() as int,
    ));
    i
}

/// The kind of asset a path names by its extension, in any case.
pub fn asset_kind(path: &str) -> (r: Result<AssetKind, ResourceError>)
    ensures
        match r {
            Ok(k) => kind_of(upper_of(extension(path@))) == Ok::<AssetKind, AssetFault>(k),
            Err(e) => kind_of(upper_of(extension(path@))) == Err::<AssetKind, AssetFault>(e@),
        },
{
    let w = chars_of(path);
    let start = extension_start(&w);
    let ext = string_of(&w, start, w.len());
    kind_of_extension(uppercase(ext.as_str()))
}

/// Assets already loaded, each under the path it was requested by.
pub struct AssetCache<H> {
    pub entries: Vec<(String, H)>,
}

impl<H> AssetCache<H> {
    /// No path is held twice.
    pub open spec fn wf(&self) -> bool {
        forall|i: int, j: int|
            0 <= i < j < self.entries@.len() ==> (#[trigger] self.entries@[i]).0@ != (
            #[trigger] self.entries@[j]).0@
    }

    /// Whether an asset is held under `path`.
    pub open spec fn holds(&self, path: Seq<char>) -> bool {
        exists|i: int| 0 <= i < self.entries@.len() && (#[trigger] self.entries@[i]).0@ == path
    }

    pub fn new() -> (r: AssetCache<H>)
        ensures
            r.entries@.len() == 0,
            r.wf(),
    {
        AssetCache { entries: Vec::new() }
    }

    /// The asset held under `path`, if any.
    pub fn get(&self, path: &str) -> (r: Option<&H>)
        ensures
            r is Some <==> self.holds(path@),
            r matches Some(h) ==> exists|i: int|
                0 <= i < self.entries@.len() && (#[trigger] self.entries@[i]).0@ == path@
                    && self.entries@[i].1 == *h,
    {
        let key = path.to_owned();
        let mut i: usize = 0;
        while i < self.entries.len()
            invariant
                i <= self.entries@.len(),
                key@ == path@,
                forall|k: int| 0 <= k < i ==> (#[trigger] self.entries@[k]).0@ != path@,
            decreases self.entries@.len() - i,
        {
            if self.entries[i].0 == key {
                return Some(&self.entries[i].1);
            }
            i = i + 1;
        }
        None
    }

    /// Holds `h` under `path`, which holds nothing yet.
    pub fn insert(&mut self, path: &str, h: H)
        requires
            old(self).wf(),
            !old(self).holds(path@),
        ensures
            final(self).wf(),
            final(self).entries@.len() == old(self).entries@.len() + 1,
            final(self).entries@.last().0@ == path@,
            final(self).entries@.last().1 == h,
            final(self).entries@.drop_last() == old(self).entries@,
    {
        let ghost before = self.entries@;
        self.entries.push((path.to_owned(), h));
        assert(self.entries@.drop_last() =~= before);
        assert forall|i: int, j: int|
            0 <= i < j < self.entries@.len() implies (#[trigger] self.entries@[i]).0@ != (
            #[trigger] self.entries@[j]).0@ by {
            if j == before.len() {
                assert(self.entries@[i] == before[i]);
            } else {
                assert(self.entries@[i] == before[i]);
                assert(self.entries@[j] == before[j]);
            }
        }
    }
}

} // verus!
