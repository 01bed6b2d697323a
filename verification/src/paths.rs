//! Absolute directory paths as sequences of segments, and the upward walk
//! that decides which directories contribute configuration.

use vstd::prelude::*;

use crate::text::str_eq;

verus! {

/// An absolute directory path: the segments below the filesystem root.
/// The root itself is the empty sequence.
pub struct DirPath {
    /// Path segments, outermost first.
    pub segments: Vec<String>,
}

impl View for DirPath {
    type V = Seq<Seq<char>>;

    open spec fn view(&self) -> Seq<Seq<char>> {
        self.segments.deep_view()
    }
}

impl DeepView for DirPath {
    type V = Seq<Seq<char>>;

    open spec fn deep_view(&self) -> Seq<Seq<char>> {
        self.view()
    }
}

impl Clone for DirPath {
    /// A clone denotes the same directory.
    fn clone(&self) -> (r: Self)
        ensures
            r@ == self@,
    {
        let mut segments: Vec<String> = Vec::new();
        let mut i: usize = 0;
        proof {
            assert(segments.deep_view() =~= self@.take(0));
        }
        while i < self.segments.len()
            invariant
                i <= self.segments.len(),
                segments.deep_view() == self@.take(i as int),
            decreases self.segments.len() - i,
        {
            let ghost pre = segments.deep_view();
            segments.push(self.segments[i].clone());
            proof {
                assert(segments.deep_view() =~= pre.push(segments@[i as int].deep_view()));
                assert(segments@[i as int]@ == self.segments@[i as int]@);
                assert(segments.deep_view() =~= self@.take(i + 1));
            }
            i = i + 1;
        }
        proof {
            assert(self@.take(self.segments.len() as int) =~= self@);
        }
        DirPath { segments }
    }
}

/// `base` is an ancestor of `p`, or `p` itself.
pub open spec fn starts_with_path(base: Seq<Seq<char>>, p: Seq<Seq<char>>) -> bool {
    base.len() <= p.len() && p.take(base.len() as int) == base
}

impl DirPath {
    /// The filesystem root.
    pub fn root() -> (r: DirPath)
        ensures
            r@ == Seq::<Seq<char>>::empty(),
    {
        let r = DirPath { segments: Vec::new() };
        proof {
            assert(r@ =~= Seq::<Seq<char>>::empty());
        }
        r
    }

    /// The directory one segment deeper.
    pub fn child(&self, seg: &str) -> (r: DirPath)
        ensures
            r@ == self@.push(seg@),
    {
        let mut r = self.clone();
        r.segments.push(seg.to_owned());
        proof {
            assert(r@ =~= self@.push(seg@));
        }
        r
    }

    /// The parent directory; `None` at the root.
    pub fn parent(&self) -> (r: Option<DirPath>)
        ensures
            match r {
                Some(p) => self@.len() > 0 && p@ == self@.drop_last(),
                None => self@.len() == 0,
            },
    {
        if self.segments.len() == 0 {
            None
        } else {
            let mut p = self.clone();
            p.segments.pop();
            proof {
                assert(p@ =~= self@.drop_last());
            }
            Some(p)
        }
    }

    /// Segment-by-segment path equality.
    pub fn path_eq(&self, other: &DirPath) -> (r: bool)
        ensures
            r == (self@ == other@),
    {
        if self.segments.len() != other.segments.len() {
            return false;
        }
        let mut i: usize = 0;
        while i < self.segments.len()
            invariant
                i <= self.segments.len(),
                self.segments.len() == other.segments.len(),
                self@.len() == self.segments.len(),
                other@.len() == other.segments.len(),
                forall|k: int| 0 <= k < i ==> self@[k] == other@[k],
            decreases self.segments.len() - i,
        {
            if !str_eq(self.segments[i].as_str(), other.segments[i].as_str()) {
                proof {
                    assert(self@[i as int] != other@[i as int]);
                }
                return false;
            }
            i = i + 1;
        }
        proof {
            assert(self@ =~= other@);
        }
        true
    }

    /// Whether `base` is an ancestor of this path, or the path itself.
    pub fn starts_with(&self, base: &DirPath) -> (r: bool)
        ensures
            r == starts_with_path(base@, self@),
    {
        if base.segments.len() > self.segments.len() {
            return false;
        }
        let mut i: usize = 0;
        while i < base.segments.len()
            invariant
                i <= base.segments.len(),
                base.segments.len() <= self.segments.len(),
                self@.len() == self.segments.len(),
                base@.len() == base.segments.len(),
                forall|k: int| 0 <= k < i ==> self@[k] == base@[k],
            decreases base.segments.len() - i,
        {
            if !str_eq(self.segments[i].as_str(), base.segments[i].as_str()) {
                proof {
                    assert(self@.take(base@.len() as int)[i as int] != base@[i as int]);
                }
                return false;
            }
            i = i + 1;
        }
        proof {
            assert(self@.take(base@.len() as int) =~= base@);
        }
        true
    }
}

/// The text of a directory path: a `/` before each segment; the root is
/// rendered by [`render_path_spec`].
pub open spec fn render_dir_spec(p: Seq<Seq<char>>) -> Seq<char>
    decreases p.len(),
{
    if p.len() == 0 {
        Seq::empty()
    } else {
        render_dir_spec(p.drop_last()) + seq!['/'] + p.last()
    }
}

/// The text of a path, with the root written `/`.
pub open spec fn render_path_spec(p: Seq<Seq<char>>) -> Seq<char> {
    if p.len() == 0 {
        seq!['/']
    } else {
        render_dir_spec(p)
    }
}

/// The text of the file `name` inside directory `p`.
pub open spec fn joined_file_spec(p: Seq<Seq<char>>, name: Seq<char>) -> Seq<char> {
    render_dir_spec(p) + seq!['/'] + name
}

impl DirPath {
    /// Renders the directory's absolute path.
    pub fn render(&self) -> (r: String)
        ensures
            r@ == render_path_spec(self@),
    {
        if self.segments.len() == 0 {
            let r = String::from_str("/");
            proof {
                reveal_strlit("/");
                assert(r@ =~= seq!['/']);
            }
            return r;
        }
        let mut out = String::new();
        let mut i: usize = 0;
        proof {
            assert(out@ =~= render_dir_spec(self@.take(0)));
        }
        while i < self.segments.len()
            invariant
                i <= self.segments.len(),
                self@.len() == self.segments.len(),
                out@ == render_dir_spec(self@.take(i as int)),
            decreases self.segments.len() - i,
        {
            out.append("/");
            out.append(self.segments[i].as_str());
            proof {
                reveal_strlit("/");
                assert(self@.take(i + 1).drop_last() =~= self@.take(i as int));
                assert(out@ =~= render_dir_spec(self@.take(i + 1)));
            }
            i = i + 1;
        }
        proof {
            assert(self@.take(self.segments.len() as int) =~= self@);
        }
        out
    }

    /// The absolute path of the file `name` inside this directory.
    pub fn join_file(&self, name: &str) -> (r: String)
        ensures
            r@ == joined_file_spec(self@, name@),
    {
        let mut out = String::new();
        let mut i: usize = 0;
        proof {
            assert(out@ =~= render_dir_spec(self@.take(0)));
        }
        while i < self.segments.len()
            invariant
                i <= self.segments.len(),
                self@.len() == self.segments.len(),
                out@ == render_dir_spec(self@.take(i as int)),
            decreases self.segments.len() - i,
        {
            out.append("/");
            out.append(self.segments[i].as_str());
            proof {
                reveal_strlit("/");
                assert(self@.take(i + 1).drop_last() =~= self@.take(i as int));
                assert(out@ =~= render_dir_spec(self@.take(i + 1)));
            }
            i = i + 1;
        }
        out.append("/");
        out.append(name);
        proof {
            reveal_strlit("/");
            assert(self@.take(self.segments.len() as int) =~= self@);
            assert(out@ =~= joined_file_spec(self@, name@));
        }
        out
    }
}

/// The directories the config walk visits, nearest first: the start
/// directory, then its ancestors, stopping inclusively at the boundary when
/// one is given, else at the filesystem root.
pub open spec fn walk_dirs_spec(p: Seq<Seq<char>>, boundary: Option<Seq<Seq<char>>>) -> Seq<
    Seq<Seq<char>>,
>
    decreases p.len(),
{
    if boundary == Some(p) {
        seq![p]
    } else if p.len() == 0 {
        seq![p]
    } else {
        seq![p] + walk_dirs_spec(p.drop_last(), boundary)
    }
}

/// Every directory the bounded walk visits lies inside the boundary and is
/// an ancestor of the start directory (or the start itself): the walk never
/// escapes the home directory when the start is inside it.
pub proof fn lemma_walk_stays_inside(p: Seq<Seq<char>>, b: Seq<Seq<char>>)
    requires
        starts_with_path(b, p),
    ensures
        forall|k: int|
            0 <= k < walk_dirs_spec(p, Some(b)).len() ==> starts_with_path(
                b,
                #[trigger] walk_dirs_spec(p, Some(b))[k],
            ) && starts_with_path(walk_dirs_spec(p, Some(b))[k], p),
    decreases p.len(),
{
    if p == b || p.len() == 0 {
        assert(walk_dirs_spec(p, Some(b)) == seq![p]);
    } else {
        let q = p.drop_last();
        assert(b.len() < p.len()) by {
            if b.len() == p.len() {
                assert(p.take(b.len() as int) =~= p);
            }
        }
        assert(q.take(b.len() as int) =~= p.take(b.len() as int));
        lemma_walk_stays_inside(q, b);
        assert forall|k: int| 0 <= k < walk_dirs_spec(p, Some(b)).len() implies starts_with_path(
            b,
            #[trigger] walk_dirs_spec(p, Some(b))[k],
        ) && starts_with_path(walk_dirs_spec(p, Some(b))[k], p) by {
            if k > 0 {
                let d = walk_dirs_spec(q, Some(b))[k - 1];
                assert(walk_dirs_spec(p, Some(b))[k] == d);
                assert(d.take(b.len() as int) == b);
                assert(p.take(d.len() as int) =~= q.take(d.len() as int));
            } else {
                assert(p.take(p.len() as int) =~= p);
            }
        }
    }
}

/// Every directory any walk visits is the start directory or one of its
/// ancestors.
pub proof fn lemma_walk_visits_ancestors(p: Seq<Seq<char>>, boundary: Option<Seq<Seq<char>>>)
    ensures
        forall|k: int|
            0 <= k < walk_dirs_spec(p, boundary).len() ==> starts_with_path(
                #[trigger] walk_dirs_spec(p, boundary)[k],
                p,
            ),
    decreases p.len(),
{
    if boundary == Some(p) || p.len() == 0 {
        assert(p.take(p.len() as int) =~= p);
    } else {
        let q = p.drop_last();
        lemma_walk_visits_ancestors(q, boundary);
        assert forall|k: int| 0 <= k < walk_dirs_spec(p, boundary).len() implies starts_with_path(
            #[trigger] walk_dirs_spec(p, boundary)[k],
            p,
        ) by {
            if k > 0 {
                let d = walk_dirs_spec(q, boundary)[k - 1];
                assert(walk_dirs_spec(p, boundary)[k] == d);
                assert(p.take(d.len() as int) =~= q.take(d.len() as int));
            } else {
                assert(p.take(p.len() as int) =~= p);
            }
        }
    }
}

/// Walks from `cwd` upward. When `cwd` lies inside `home`, the walk stops
/// inclusively at `home`; otherwise it continues to the filesystem root.
pub fn config_walk_dirs(cwd: &DirPath, home: &DirPath) -> (dirs: Vec<DirPath>)
    ensures
        dirs.deep_view() == walk_dirs_spec(
            cwd@,
            if starts_with_path(home@, cwd@) {
                Some(home@)
            } else {
                None
            },
        ),
        dirs.len() >= 1,
{
    let within = cwd.starts_with(home);
    let ghost boundary: Option<Seq<Seq<char>>> = if within {
        Some(home@)
    } else {
        None
    };
    let mut dirs: Vec<DirPath> = Vec::new();
    let mut cur: DirPath = cwd.clone();
    proof {
        assert(dirs.deep_view() =~= Seq::<Seq<Seq<char>>>::empty());
        assert(Seq::<Seq<Seq<char>>>::empty() + walk_dirs_spec(cur@, boundary) =~~= walk_dirs_spec(
            cur@,
            boundary,
        ));
    }
    while !(within && cur.path_eq(home)) && cur.segments.len() > 0
        invariant
            boundary == if within {
                Some(home@)
            } else {
                None::<Seq<Seq<char>>>
            },
            cur@.len() == cur.segments.len(),
            walk_dirs_spec(cwd@, boundary) == dirs.deep_view() + walk_dirs_spec(cur@, boundary),
        decreases cur@.len(),
    {
        let ghost pre = dirs.deep_view();
        dirs.push(cur.clone());
        proof {
            assert(dirs.deep_view() =~= pre.push(cur@));
        }
        let next = cur.parent();
        match next {
            Some(p) => {
                proof {
                    assert(walk_dirs_spec(cur@, boundary) == seq![cur@] + walk_dirs_spec(
                        p@,
                        boundary,
                    ));
                    assert(pre.push(cur@) + walk_dirs_spec(p@, boundary) =~~= pre + (seq![cur@]
                        + walk_dirs_spec(p@, boundary)));
                }
                cur = p;
            },
            None => {
                proof {
                    assert(false);
                }
            },
        }
    }
    let ghost pre = dirs.deep_view();
    dirs.push(cur);
    proof {
        assert(dirs.deep_view() =~= pre.push(dirs@[dirs.len() - 1]@));
        assert(walk_dirs_spec(dirs@[dirs.len() - 1]@, boundary) == seq![dirs@[dirs.len() - 1]@]);
        assert(dirs.deep_view() =~~= walk_dirs_spec(cwd@, boundary));
    }
    dirs
}

} // verus!
