//! The scanner's decisions. A scan walks a directory tree with an explicit
//! work-list: the driver takes the next directory, reads it, and hands its
//! entries back; subdirectories join the work-list and audio files become
//! import candidates. A file is a candidate iff its extension is `mp3` or
//! `wav` in any ASCII case; its name is the file name without extension.
use vstd::prelude::*;

verus! {

/// One directory entry as the driver read it.
pub struct DirEntry {
    /// The full location of the entry.
    pub path: String,
    /// The last component of `path`.
    pub file_name: String,
    /// Whether the entry is a directory.
    pub is_dir: bool,
}

/// A file to import: its name and its location.
pub struct Candidate {
    pub name: String,
    pub location: String,
}

impl View for Candidate {
    type V = (Seq<char>, Seq<char>);

    open spec fn view(&self) -> (Seq<char>, Seq<char>) {
        (self.name@, self.location@)
    }
}

/// The index of the last `.` among the first `n` characters, or -1.
pub open spec fn last_dot(f: Seq<char>, n: int) -> int
    decreases n,
{
    if n <= 0 {
        -1
    } else if f[n - 1] == '.' {
        n - 1
    } else {
        last_dot(f, n - 1)
    }
}

/// Where the extension of a file name starts: after its last dot, provided
/// that dot is not the first character.
pub open spec fn dot_index(f: Seq<char>) -> int {
    last_dot(f, f.len() as int)
}

/// The code of a character with ASCII upper case folded to lower case.
pub open spec fn folded(c: char) -> u32 {
    if 65 <= (c as u32) <= 90 {
        ((c as u32) + 32) as u32
    } else {
        c as u32
    }
}

pub open spec fn is_audio_extension(e: Seq<char>) -> bool {
    &&& e.len() == 3
    &&& {
        ||| (folded(e[0]) == 'm' as u32 && folded(e[1]) == 'p' as u32 && folded(e[2]) == '3' as u32)
        ||| (folded(e[0]) == 'w' as u32 && folded(e[1]) == 'a' as u32 && folded(e[2]) == 'v' as u32)
    }
}

/// The name of an audio file, or `None` for any other file name.
pub open spec fn audio_stem(f: Seq<char>) -> Option<Seq<char>> {
    let d = dot_index(f);
    if d > 0 && is_audio_extension(f.subrange(d + 1, f.len() as int)) {
        Some(f.subrange(0, d))
    } else {
        None
    }
}

/// What one entry contributes to the candidates.
pub open spec fn entry_candidates(e: DirEntry) -> Seq<(Seq<char>, Seq<char>)> {
    if e.is_dir {
        Seq::empty()
    } else {
        match audio_stem(e.file_name@) {
            Some(n) => seq![(n, e.path@)],
            None => Seq::empty(),
        }
    }
}

/// What one entry contributes to the work-list.
pub open spec fn entry_dirs(e: DirEntry) -> Seq<Seq<char>> {
    if e.is_dir {
        seq![e.path@]
    } else {
        Seq::empty()
    }
}

/// The candidates among `s`, in order.
pub open spec fn candidates(s: Seq<DirEntry>) -> Seq<(Seq<char>, Seq<char>)>
    decreases s.len(),
{
    if s.len() == 0 {
        Seq::empty()
    } else {
        candidates(s.drop_last()) + entry_candidates(s.last())
    }
}

/// The subdirectories among `s`, in order.
pub open spec fn subdirs(s: Seq<DirEntry>) -> Seq<Seq<char>>
    decreases s.len(),
{
    if s.len() == 0 {
        Seq::empty()
    } else {
        subdirs(s.drop_last()) + entry_dirs(s.last())
    }
}

/// The candidates of a whole tree, given the listings of its directories in
/// the order the scan read them.
pub open spec fn tree_candidates(listings: Seq<Seq<DirEntry>>) -> Seq<(Seq<char>, Seq<char>)>
    decreases listings.len(),
{
    if listings.len() == 0 {
        Seq::empty()
    } else {
        tree_candidates(listings.drop_last()) + candidates(listings.last())
    }
}

pub open spec fn candidate_views(s: Seq<Candidate>) -> Seq<(Seq<char>, Seq<char>)> {
    s.map_values(|c: Candidate| c@)
}

fn fold_ascii(c: char) -> (r: u32)
    ensures
        r == folded(c),
{
    let n = c as u32;
    if 65 <= n && n <= 90 {
        n + 32
    } else {
        n
    }
}

fn is_audio_ext(e: &str) -> (r: bool)
    ensures
        r == is_audio_extension(e@),
{
    if e.unicode_len() != 3 {
        return false;
    }
    let a = fold_ascii(e.get_char(0));
    let b = fold_ascii(e.get_char(1));
    let c = fold_ascii(e.get_char(2));
    (a == 'm' as u32 && b == 'p' as u32 && c == '3' as u32) || (a == 'w' as u32 && b == 'a' as u32
        && c == 'v' as u32)
}

/// The index of the last dot in `f`, if any.
fn find_last_dot(f: &str) -> (r: Option<usize>)
    ensures
        match r {
            Some(i) => i == dot_index(f@) && i < f@.len(),
            None => dot_index(f@) == -1,
        },
{
    let n = f.unicode_len();
    let mut i: usize = n;
    while i > 0
        invariant
            i <= n,
            n == f@.len(),
            last_dot(f@, n as int) == last_dot(f@, i as int),
        decreases i,
    {
        if f.get_char(i - 1) == '.' {
            return Some(i - 1);
        }
        i = i - 1;
    }
    None
}

/// The name of the audio file called `file_name`, or `None` if it is not an
/// audio file.
pub fn audio_stem_of(file_name: &str) -> (r: Option<String>)
    ensures
        match r {
            Some(s) => audio_stem(file_name@) == Some(s@),
            None => audio_stem(file_name@) is None,
        },
{
    match find_last_dot(file_name) {
        None => None,
        Some(d) => {
            if d == 0 {
                return None;
            }
            let n = file_name.unicode_len();
            let ext = file_name.substring_char(d + 1, n);
            if is_audio_ext(ext) {
                Some(file_name.substring_char(0, d).to_owned())
            } else {
                None
            }
        },
    }
}

/// The state of one scan: directories still to read, and the candidates
/// found so far.
pub struct Scanner {
    pending: Vec<String>,
    found: Vec<Candidate>,
    visited: Ghost<Seq<Seq<DirEntry>>>,
}

impl Scanner {
    /// The directories still to read; the last is read next.
    pub closed spec fn pending(&self) -> Seq<Seq<char>> {
        self.pending.deep_view()
    }

    /// The candidates found so far, in the order found.
    pub closed spec fn found(&self) -> Seq<(Seq<char>, Seq<char>)> {
        candidate_views(self.found@)
    }

    /// The listings read so far, in the order read.
    pub closed spec fn visited(&self) -> Seq<Seq<DirEntry>> {
        self.visited@
    }

    /// The candidates found are those of the listings read.
    pub open spec fn wf(&self) -> bool {
        self.found() == tree_candidates(self.visited())
    }

    /// A scan of the tree under `root`.
    pub fn new(root: String) -> (r: Scanner)
        ensures
            r.wf(),
            r.pending() == seq![root@],
            r.found() == Seq::<(Seq<char>, Seq<char>)>::empty(),
            r.visited() == Seq::<Seq<DirEntry>>::empty(),
    {
        let mut pending: Vec<String> = Vec::new();
        pending.push(root);
        let found: Vec<Candidate> = Vec::new();
        let r = Scanner { pending, found, visited: Ghost(Seq::empty()) };
        assert(r.pending() =~= seq![root@]);
        assert(r.found() =~= Seq::<(Seq<char>, Seq<char>)>::empty());
        r
    }

    /// The next directory to read, taken off the work-list; `None` when the
    /// scan is complete.
    pub fn next_dir(&mut self) -> (r: Option<String>)
        ensures
            final(self).found() == old(self).found(),
            final(self).visited() == old(self).visited(),
            old(self).wf() ==> final(self).wf(),
            old(self).pending().len() == 0 ==> r is None && final(self).pending() == old(
                self,
            ).pending(),
            old(self).pending().len() > 0 ==> r is Some && r->Some_0@ == old(self).pending().last()
                && final(self).pending() == old(self).pending().drop_last(),
    {
        let r = self.pending.pop();
        assert(self.pending.deep_view() =~= old(self).pending.deep_view().take(
            self.pending@.len() as int,
        ));
        r
    }

    /// Takes the entries of the directory just read: its subdirectories join
    /// the work-list and its audio files the candidates, both in order.
    pub fn visit(&mut self, entries: &Vec<DirEntry>)
        ensures
            final(self).pending() == old(self).pending() + subdirs(entries@),
            final(self).found() == old(self).found() + candidates(entries@),
            final(self).visited() == old(self).visited().push(entries@),
            old(self).wf() ==> final(self).wf(),
    {
        let mut i: usize = 0;
        while i < entries.len()
            invariant
                i <= entries@.len(),
                self.pending() == old(self).pending() + subdirs(entries@.take(i as int)),
                self.found() == old(self).found() + candidates(entries@.take(i as int)),
                self.visited() == old(self).visited(),
            decreases entries@.len() - i,
        {
            let e = &entries[i];
            assert(entries@.take(i + 1).drop_last() =~= entries@.take(i as int));
            assert(entries@.take(i + 1).last() == e);
            let ghost p0 = self.pending();
            let ghost f0 = self.found();
            if e.is_dir {
                self.pending.push(e.path.clone());
                assert(self.pending() =~= p0 + entry_dirs(*e));
                assert(self.found() =~= f0 + entry_candidates(*e));
            } else {
                match audio_stem_of(e.file_name.as_str()) {
                    Some(name) => {
                        self.found.push(Candidate { name, location: e.path.clone() });
                    },
                    None => {},
                }
                assert(self.pending() =~= p0 + entry_dirs(*e));
                assert(self.found() =~= f0 + entry_candidates(*e));
            }
            i = i + 1;
        }
        assert(entries@.take(entries@.len() as int) =~= entries@);
        self.visited = Ghost(self.visited@.push(entries@));
        assert(self.visited().drop_last() =~= old(self).visited());
    }

    /// The candidates of a finished scan: exactly those of the listings it
    /// read, in order.
    pub fn into_candidates(self) -> (r: Vec<Candidate>)
        requires
            self.wf(),
        ensures
            candidate_views(r@) == self.found(),
            candidate_views(r@) == tree_candidates(self.visited()),
    {
        self.found
    }
}

} // verus!
