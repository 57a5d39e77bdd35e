use vstd::prelude::*;
use vstd::string::*;

use crate::error::UpdateError;

verus! {

/// One commit of the upstream history: its full identifier and the positions of
/// its parents in the enclosing `History`.
pub struct Commit {
    pub id: String,
    pub parents: Vec<usize>,
}

/// The commits of the mirror, listed so that each commit stands before all of its
/// parents (the order of a topological walk from the head), with the position of
/// the head commit.
pub struct History {
    pub commits: Vec<Commit>,
    pub head: usize,
}

/// The mathematical view of a `History`: identifiers, parent positions, head.
pub struct HistoryModel {
    pub ids: Seq<Seq<char>>,
    pub parents: Seq<Seq<int>>,
    pub head: int,
}

impl View for History {
    type V = HistoryModel;

    open spec fn view(&self) -> HistoryModel {
        HistoryModel {
            ids: self.commits@.map_values(|c: Commit| c.id@),
            parents: self.commits@.map_values(
                |c: Commit| c.parents@.map_values(|p: usize| p as int),
            ),
            head: self.head as int,
        }
    }
}

impl HistoryModel {
    /// Number of commits.
    pub open spec fn len(self) -> int {
        self.parents.len() as int
    }

    /// Every commit has an identifier, the head is a commit, and every parent
    /// stands after its child, so that ancestry has no cycle.
    pub open spec fn well_formed(self) -> bool {
        &&& self.ids.len() == self.parents.len()
        &&& 0 <= self.head < self.len()
        &&& forall|a: int, j: int|
            0 <= a < self.len() && 0 <= j < self.parents[a].len() ==> a < #[trigger] self.parents[a][j]
                < self.len()
    }
}

/// `b` is reachable from `a` by following parent links: `b` is `a` itself or
/// one of its ancestors.
pub open spec fn reaches(h: HistoryModel, a: int, b: int) -> bool
    decreases h.len() - a,
{
    a == b || exists|j: int|
        0 <= j < h.parents[a].len() && a < #[trigger] h.parents[a][j] < h.len() && reaches(
            h,
            h.parents[a][j],
            b,
        )
}

/// Commit `c` is visible from the head and hidden from the pin `p`: it belongs to
/// the history that the pin has not caught up with.
pub open spec fn after_pin(h: HistoryModel, p: int, c: int) -> bool {
    reaches(h, h.head, c) && !reaches(h, p, c)
}

/// No commit lies after the pin `p`.
pub open spec fn is_current(h: HistoryModel, p: int) -> bool {
    forall|c: int| 0 <= c < h.len() ==> !after_pin(h, p, c)
}

/// Commit `i` is the oldest commit after the pin `p`: it lies after the pin, and
/// every other such commit comes before it in the walk from the head.
pub open spec fn is_next(h: HistoryModel, p: int, i: int) -> bool {
    &&& 0 <= i < h.len()
    &&& after_pin(h, p, i)
    &&& forall|c: int| 0 <= c < h.len() && #[trigger] after_pin(h, p, c) ==> c <= i
}

/// The commit that comes after the pin `p`, where there is one.
pub open spec fn next_of(h: HistoryModel, p: int) -> int {
    choose|i: int| is_next(h, p, i)
}

/// `t` is a prefix of `id`.
pub open spec fn is_prefix(t: Seq<char>, id: Seq<char>) -> bool {
    t.len() <= id.len() && id.subrange(0, t.len() as int) == t
}

/// The text `t` names the identifier `id`: it is a non-empty prefix of it (a full
/// identifier, or an abbreviation).
pub open spec fn names(t: Seq<char>, id: Seq<char>) -> bool {
    0 < t.len() && is_prefix(t, id)
}

/// The text `t` names commit `i` and no other.
pub open spec fn resolves_to(h: HistoryModel, t: Seq<char>, i: int) -> bool {
    &&& 0 <= i < h.len()
    &&& names(t, h.ids[i])
    &&& forall|k: int| 0 <= k < h.len() && names(t, #[trigger] h.ids[k]) ==> k == i
}

/// The text `t` names exactly one commit.
pub open spec fn resolvable(h: HistoryModel, t: Seq<char>) -> bool {
    exists|i: int| resolves_to(h, t, i)
}

/// The commit that `t` names, where it names exactly one.
pub open spec fn pin_of(h: HistoryModel, t: Seq<char>) -> int {
    choose|i: int| resolves_to(h, t, i)
}

/// A commit reaches itself.
pub proof fn lemma_reaches_self(h: HistoryModel, a: int)
    ensures
        reaches(h, a, a),
{
}

/// A commit reaches each of its parents.
pub proof fn lemma_reaches_parent(h: HistoryModel, c: int, j: int)
    requires
        h.well_formed(),
        0 <= c < h.len(),
        0 <= j < h.parents[c].len(),
    ensures
        reaches(h, c, h.parents[c][j]),
{
    lemma_reaches_self(h, h.parents[c][j]);
}

/// Reachability is transitive.
pub proof fn lemma_reaches_trans(h: HistoryModel, a: int, b: int, c: int)
    requires
        reaches(h, a, b),
        reaches(h, b, c),
    ensures
        reaches(h, a, c),
    decreases h.len() - a,
{
    if a != b {
        let j = choose|j: int|
            0 <= j < h.parents[a].len() && a < #[trigger] h.parents[a][j] < h.len() && reaches(
                h,
                h.parents[a][j],
                b,
            );
        lemma_reaches_trans(h, h.parents[a][j], b, c);
    }
}

/// A commit only reaches itself and commits listed after it.
pub proof fn lemma_reaches_ordered(h: HistoryModel, a: int, b: int)
    requires
        0 <= a < h.len(),
        reaches(h, a, b),
    ensures
        a <= b < h.len(),
    decreases h.len() - a,
{
    if a != b {
        let j = choose|j: int|
            0 <= j < h.parents[a].len() && a < #[trigger] h.parents[a][j] < h.len() && reaches(
                h,
                h.parents[a][j],
                b,
            );
        lemma_reaches_ordered(h, h.parents[a][j], b);
    }
}

/// A set of marks that holds a commit and is closed under parents holds every
/// commit that it reaches.
proof fn lemma_marks_complete(h: HistoryModel, marks: Seq<bool>, a: int, b: int)
    requires
        h.well_formed(),
        marks.len() == h.len(),
        0 <= a < h.len(),
        marks[a],
        reaches(h, a, b),
        forall|c: int, j: int|
            0 <= c < h.len() && marks[c] && 0 <= j < h.parents[c].len() ==> marks[#[trigger] h.parents[c][j]],
    ensures
        marks[b],
    decreases h.len() - a,
{
    if a != b {
        let j = choose|j: int|
            0 <= j < h.parents[a].len() && a < #[trigger] h.parents[a][j] < h.len() && reaches(
                h,
                h.parents[a][j],
                b,
            );
        lemma_marks_complete(h, marks, h.parents[a][j], b);
    }
}

/// Whether `text` is a prefix of `id`.
fn has_prefix(id: &String, text: &str) -> (r: bool)
    ensures
        r == is_prefix(text@, id@),
{
    let n: usize = text.unicode_len();
    let m: usize = id.as_str().unicode_len();
    if n > m {
        return false;
    }
    let mut i: usize = 0;
    while i < n
        invariant
            i <= n,
            n == text@.len(),
            m == id@.len(),
            n <= m,
            forall|k: int| 0 <= k < i ==> id@[k] == text@[k],
        decreases n - i,
    {
        if id.as_str().get_char(i) != text.get_char(i) {
            assert(id@.subrange(0, n as int)[i as int] != text@[i as int]);
            return false;
        }
        i = i + 1;
    }
    assert(id@.subrange(0, n as int) =~= text@);
    true
}

/// Finds the one commit that `text` names, as a full identifier or a unique
/// abbreviation of one.
pub fn resolve_revision(h: &History, text: &str) -> (r: Result<usize, UpdateError>)
    requires
        h@.well_formed(),
    ensures
        match r {
            Ok(i) => resolves_to(h@, text@, i as int),
            Err(e) => e == UpdateError::ResolutionError && !resolvable(h@, text@),
        },
{
    let nonempty = text.unicode_len() > 0;
    let n: usize = h.commits.len();
    let mut found: Option<usize> = None;
    let mut i: usize = 0;
    while i < n
        invariant
            i <= n,
            n == h@.len(),
            h@.well_formed(),
            nonempty == (text@.len() > 0),
            match found {
                Some(f) => f < i && names(text@, h@.ids[f as int]) && forall|k: int|
                    0 <= k < i && names(text@, #[trigger] h@.ids[k]) ==> k == f,
                None => forall|k: int| 0 <= k < i ==> !names(text@, #[trigger] h@.ids[k]),
            },
        decreases n - i,
    {
        let here = nonempty && has_prefix(&h.commits[i].id, text);
        assert(h@.ids[i as int] == h.commits@[i as int].id@);
        if here {
            if let Some(f) = found {
                assert(!resolvable(h@, text@)) by {
                    if resolvable(h@, text@) {
                        let x = choose|x: int| resolves_to(h@, text@, x);
                        assert(f == x);
                        assert(i == x);
                    }
                }
                return Err(UpdateError::ResolutionError);
            }
            found = Some(i);
        }
        i = i + 1;
    }
    match found {
        Some(f) => Ok(f),
        None => {
            assert(!resolvable(h@, text@)) by {
                if resolvable(h@, text@) {
                    let x = choose|x: int| resolves_to(h@, text@, x);
                    assert(names(text@, h@.ids[x]));
                }
            }
            Err(UpdateError::ResolutionError)
        },
    }
}

/// Marks every commit that `from` reaches: the commit itself and all its ancestors.
fn reach_marks(h: &History, from: usize) -> (marks: Vec<bool>)
    requires
        h@.well_formed(),
        from < h@.len(),
    ensures
        marks@.len() == h@.len(),
        forall|b: int| 0 <= b < h@.len() ==> marks@[b] == reaches(h@, from as int, b),
{
    let n: usize = h.commits.len();
    let mut marks: Vec<bool> = Vec::new();
    let mut k: usize = 0;
    while k < n
        invariant
            k <= n,
            marks@.len() == k,
            forall|b: int| 0 <= b < k ==> marks@[b] == (b == from),
        decreases n - k,
    {
        marks.push(k == from);
        k = k + 1;
    }
    proof {
        lemma_reaches_self(h@, from as int);
    }
    let mut i: usize = 0;
    while i < n
        invariant
            h@.well_formed(),
            n == h@.len(),
            from < n,
            i <= n,
            marks@.len() == n,
            marks@[from as int],
            forall|b: int| 0 <= b < n && #[trigger] marks@[b] ==> reaches(h@, from as int, b),
            forall|c: int, j: int|
                0 <= c < i && marks@[c] && 0 <= j < h@.parents[c].len() ==> marks@[#[trigger] h@.parents[c][j]],
        decreases n - i,
    {
        if marks[i] {
            let ps = &h.commits[i].parents;
            assert(h@.parents[i as int] == ps@.map_values(|p: usize| p as int));
            let mut j: usize = 0;
            while j < ps.len()
                invariant
                    h@.well_formed(),
                    n == h@.len(),
                    from < n,
                    i < n,
                    j <= ps@.len(),
                    h@.parents[i as int] == ps@.map_values(|p: usize| p as int),
                    marks@.len() == n,
                    marks@[from as int],
                    marks@[i as int],
                    forall|b: int| 0 <= b < n && #[trigger] marks@[b] ==> reaches(h@, from as int, b),
                    forall|c: int, jj: int|
                        0 <= c < i && marks@[c] && 0 <= jj < h@.parents[c].len() ==> marks@[#[trigger] h@.parents[c][jj]],
                    forall|jj: int| 0 <= jj < j ==> marks@[#[trigger] h@.parents[i as int][jj]],
                decreases ps@.len() - j,
            {
                let p: usize = ps[j];
                assert(h@.parents[i as int][j as int] == p as int);
                proof {
                    lemma_reaches_parent(h@, i as int, j as int);
                    lemma_reaches_trans(h@, from as int, i as int, p as int);
                }
                marks.set(p, true);
                j = j + 1;
            }
        }
        i = i + 1;
    }
    proof {
        assert forall|b: int| 0 <= b < h@.len() implies marks@[b] == reaches(h@, from as int, b) by {
            if reaches(h@, from as int, b) {
                lemma_marks_complete(h@, marks@, from as int, b);
            }
        }
    }
    marks
}

/// The oldest commit after the pin at position `p`: the last commit of the walk
/// that the head reaches and the pin does not, or none when the pin is current.
pub fn next_after_index(h: &History, p: usize) -> (r: Option<usize>)
    requires
        h@.well_formed(),
        p < h@.len(),
    ensures
        match r {
            None => is_current(h@, p as int),
            Some(i) => is_next(h@, p as int, i as int),
        },
{
    let seen = reach_marks(h, h.head);
    let hidden = reach_marks(h, p);
    let n: usize = h.commits.len();
    let mut i: usize = n;
    while i > 0
        invariant
            i <= n,
            n == h@.len(),
            seen@.len() == n,
            hidden@.len() == n,
            forall|b: int| 0 <= b < n ==> seen@[b] == reaches(h@, h@.head, b),
            forall|b: int| 0 <= b < n ==> hidden@[b] == reaches(h@, p as int, b),
            forall|c: int| i <= c < n ==> !after_pin(h@, p as int, c),
        decreases i,
    {
        i = i - 1;
        if seen[i] && !hidden[i] {
            return Some(i);
        }
    }
    None
}

/// Finds the revision that follows `pinned` in the mirror's history: the oldest
/// commit that the head reaches and the pinned commit does not. None when the
/// pin is already current; an error when `pinned` does not name exactly one
/// commit.
pub fn next_after(h: &History, pinned: &str) -> (r: Result<Option<String>, UpdateError>)
    requires
        h@.well_formed(),
    ensures
        match r {
            Err(e) => e == UpdateError::ResolutionError && !resolvable(h@, pinned@),
            Ok(None) => resolvable(h@, pinned@) && is_current(h@, pin_of(h@, pinned@)),
            Ok(Some(id)) => resolvable(h@, pinned@) && is_next(
                h@,
                pin_of(h@, pinned@),
                next_of(h@, pin_of(h@, pinned@)),
            ) && id@ == h@.ids[next_of(h@, pin_of(h@, pinned@))],
        },
{
    let p: usize = resolve_revision(h, pinned)?;
    assert(pin_of(h@, pinned@) == p as int);
    match next_after_index(h, p) {
        None => Ok(None),
        Some(i) => {
            let ghost k = next_of(h@, p as int);
            assert(k == i as int);
            assert(h@.ids[i as int] == h.commits@[i as int].id@);
            Ok(Some(h.commits[i].id.clone()))
        },
    }
}

/// A pin at the head commit is current: nothing lies after it, so `next_after`
/// returns none.
pub proof fn lemma_pin_at_head_is_current(h: HistoryModel, t: Seq<char>)
    requires
        h.well_formed(),
        resolvable(h, t),
        pin_of(h, t) == h.head,
    ensures
        is_current(h, pin_of(h, t)),
        forall|i: int| !is_next(h, pin_of(h, t), i),
{
}

/// The next commit is hidden from the pin, and no other commit after the pin is
/// one of its ancestors.
pub proof fn lemma_next_is_oldest(h: HistoryModel, p: int, i: int)
    requires
        h.well_formed(),
        0 <= p < h.len(),
        is_next(h, p, i),
    ensures
        !reaches(h, p, i),
        forall|c: int| 0 <= c < h.len() && after_pin(h, p, c) && c != i ==> !reaches(h, i, c),
{
    assert forall|c: int| 0 <= c < h.len() && after_pin(h, p, c) && c != i implies !reaches(
        h,
        i,
        c,
    ) by {
        if reaches(h, i, c) {
            lemma_reaches_ordered(h, i, c);
        }
    }
}

/// Along a stretch of history after the pin without merges, a commit that reaches
/// both the pin and commit `i` reaches the pin through `i`.
proof fn lemma_linear_stretch(h: HistoryModel, p: int, a: int, i: int)
    requires
        h.well_formed(),
        0 <= p < h.len(),
        0 <= a < h.len(),
        after_pin(h, p, a),
        after_pin(h, p, i),
        reaches(h, a, p),
        reaches(h, a, i),
        forall|c: int| 0 <= c < h.len() && #[trigger] after_pin(h, p, c) ==> h.parents[c].len() <= 1,
    ensures
        reaches(h, i, p),
    decreases h.len() - a,
{
    if a != i {
        lemma_reaches_self(h, p);
        let j = choose|j: int|
            0 <= j < h.parents[a].len() && a < #[trigger] h.parents[a][j] < h.len() && reaches(
                h,
                h.parents[a][j],
                i,
            );
        let j2 = choose|j2: int|
            0 <= j2 < h.parents[a].len() && a < #[trigger] h.parents[a][j2] < h.len() && reaches(
                h,
                h.parents[a][j2],
                p,
            );
        assert(j == j2);
        let q = h.parents[a][j];
        lemma_reaches_parent(h, a, j);
        lemma_reaches_trans(h, h.head, a, q);
        if reaches(h, p, q) {
            lemma_reaches_trans(h, p, q, i);
        }
        lemma_linear_stretch(h, p, q, i);
    }
}

/// Where the pin lies in the head's history and no commit after it is a merge,
/// the pin is a strict ancestor of the next commit.
pub proof fn lemma_pin_precedes_next(h: HistoryModel, p: int, i: int)
    requires
        h.well_formed(),
        0 <= p < h.len(),
        is_next(h, p, i),
        reaches(h, h.head, p),
        forall|c: int| 0 <= c < h.len() && #[trigger] after_pin(h, p, c) ==> h.parents[c].len() <= 1,
    ensures
        reaches(h, i, p),
        i != p,
{
    lemma_reaches_self(h, h.head);
    lemma_reaches_self(h, p);
    if reaches(h, p, h.head) {
        lemma_reaches_trans(h, p, h.head, i);
    }
    lemma_linear_stretch(h, p, h.head, i);
}

/// The identifiers of a walk.
pub open spec fn walk_ids(walk: Seq<String>) -> Seq<Seq<char>> {
    walk.map_values(|s: String| s@)
}

/// Entry `k` of a walk is the first whose identifier starts with `t`.
pub open spec fn first_prefixed_at(walk: Seq<Seq<char>>, t: Seq<char>, k: int) -> bool {
    &&& 0 <= k < walk.len()
    &&& is_prefix(t, walk[k])
    &&& forall|m: int| 0 <= m < k ==> !is_prefix(t, #[trigger] walk[m])
}

/// Fallback for when no commit graph can be read, only a walk of identifiers from
/// the head towards the root: the identifier that follows the first one starting
/// with `pinned`. It matches by prefix alone and trusts the walk to be linear, so
/// on a history with merges it may name the wrong commit; `next_after` is the
/// primary resolver.
pub fn next_in_walk(walk: &Vec<String>, pinned: &str) -> (r: Option<String>)
    ensures
        match r {
            Some(id) => exists|k: int|
                #[trigger] first_prefixed_at(walk_ids(walk@), pinned@, k) && k + 1
                    < walk@.len() && id@ == walk@[k + 1]@,
            None => forall|k: int|
                #[trigger] first_prefixed_at(walk_ids(walk@), pinned@, k) ==> k + 1
                    == walk@.len(),
        },
{
    let ghost ids = walk_ids(walk@);
    let n: usize = walk.len();
    let mut i: usize = 0;
    while i < n
        invariant
            i <= n,
            n == walk@.len(),
            ids == walk_ids(walk@),
            forall|m: int| 0 <= m < i ==> !is_prefix(pinned@, #[trigger] ids[m]),
        decreases n - i,
    {
        assert(ids[i as int] == walk@[i as int]@);
        if has_prefix(&walk[i], pinned) {
            assert(first_prefixed_at(ids, pinned@, i as int));
            if i + 1 < n {
                return Some(walk[i + 1].clone());
            }
            assert forall|k: int| #[trigger] first_prefixed_at(ids, pinned@, k) implies k + 1 == walk@.len() by {
                if k < i {
                    assert(!is_prefix(pinned@, ids[k]));
                }
                if i < k {
                    assert(!is_prefix(pinned@, ids[i as int]));
                }
            }
            return None;
        }
        i = i + 1;
    }
    None
}

} // verus!
