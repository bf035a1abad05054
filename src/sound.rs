//! The asset record: one indexed sound file.
use vstd::prelude::*;

verus! {

pub struct Sound {
    /// Assigned by the store; `None` until the record is first persisted.
    pub id: Option<i64>,
    /// Base name of the file without its extension; the deduplication key.
    pub name: String,
    /// Absolute location of the file.
    pub path: String,
    pub is_favorite: bool,
    pub tags: Vec<String>,
}

/// A record as plain mathematical values.
pub struct SoundView {
    pub id: Option<i64>,
    pub name: Seq<char>,
    pub path: Seq<char>,
    pub is_favorite: bool,
    pub tags: Seq<Seq<char>>,
}

impl View for Sound {
    type V = SoundView;

    open spec fn view(&self) -> SoundView {
        SoundView {
            id: self.id,
            name: self.name@,
            path: self.path@,
            is_favorite: self.is_favorite,
            tags: self.tags.deep_view(),
        }
    }
}

/// The record an import creates: not yet stored, not a favorite, no tags.
pub open spec fn fresh_record(name: Seq<char>, path: Seq<char>) -> SoundView {
    SoundView { id: None, name, path, is_favorite: false, tags: Seq::empty() }
}

/// The record with its favorite flag inverted and all else kept.
pub open spec fn flipped(s: SoundView) -> SoundView {
    SoundView { id: s.id, name: s.name, path: s.path, is_favorite: !s.is_favorite, tags: s.tags }
}

/// What a toggle reports, given the flag it left behind.
pub open spec fn favorite_message(is_favorite: bool) -> Seq<char> {
    if is_favorite {
        "Added to favorites"@
    } else {
        "Removed from favorites"@
    }
}

impl Sound {
    /// The record for a newly discovered file at `path` named `name`.
    pub fn fresh(name: &str, path: &str) -> (s: Sound)
        ensures
            s@ == fresh_record(name@, path@),
    {
        let tags: Vec<String> = Vec::new();
        let s = Sound {
            id: None,
            name: name.to_owned(),
            path: path.to_owned(),
            is_favorite: false,
            tags,
        };
        assert(s.tags.deep_view() =~= Seq::<Seq<char>>::empty());
        s
    }

    /// Inverts the favorite flag. The changed record is what the caller
    /// persists; the result says which way the flag went.
    pub fn toggle_favorite(&mut self) -> (msg: String)
        ensures
            final(self)@ == flipped(old(self)@),
            msg@ == favorite_message(final(self).is_favorite),
    {
        self.is_favorite = !self.is_favorite;
        if self.is_favorite {
            String::from_str("Added to favorites")
        } else {
            String::from_str("Removed from favorites")
        }
    }
}

/// Toggling the favorite flag twice restores the record, and each toggle
/// produces a record that differs from the one before it.
pub proof fn lemma_toggle_twice(s: SoundView)
    ensures
        flipped(s).is_favorite != s.is_favorite,
        flipped(flipped(s)).is_favorite != flipped(s).is_favorite,
        flipped(flipped(s)) == s,
{
}

} // verus!
