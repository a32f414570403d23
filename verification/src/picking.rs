//! Picking RAW files from the archive: a random walk down the folder tree that
//! ends by drawing a `.cr2` file from where it stopped, repeated until the session
//! has enough distinct files, and the search for a replacement when a photo is
//! rejected. The application lists folders; the decisions are made here.
use vstd::prelude::*;
use rand::rngs::ThreadRng;
use crate::paths::{is_cr2, spec_is_cr2};
use crate::random::{choose_text, gen_range_inclusive};
use crate::text::texts;

verus! {

/// How many random walks are tried for one photo before giving up.
pub const ATTEMPTS_PER_PHOTO: usize = 25;

/// The shortest and the longest random walk, in folder levels.
pub const MIN_WALK_DEPTH: usize = 2;
pub const MAX_WALK_DEPTH: usize = 8;

/// The Canon RAW files among `paths`, in order.
pub open spec fn spec_cr2_files(paths: Seq<Seq<char>>) -> Seq<Seq<char>> {
    paths.filter(|p: Seq<char>| spec_is_cr2(p))
}

/// Adds the Canon RAW files among `files` (the files of one folder) to `pool`,
/// in order.
pub fn collect_cr2_files(files: &Vec<String>, pool: &mut Vec<String>)
    ensures
        texts(final(pool)@) == texts(old(pool)@) + spec_cr2_files(texts(files@)),
{
    let ghost start = texts(pool@);
    let ghost views = texts(files@);
    let n = files.len();
    for i in 0..n
        invariant
            n == files@.len(),
            views == texts(files@),
            texts(pool@) == start + spec_cr2_files(views.take(i as int)),
    {
        let file = &files[i];
        proof {
            assert(views.take(i + 1) =~= views.take(i as int).push(views[i as int]));
            views.take(i as int).lemma_filter_push(views[i as int], |p: Seq<char>| spec_is_cr2(p));
        }
        if is_cr2(file.as_str()) {
            let ghost before = texts(pool@);
            pool.push(file.clone());
            assert(texts(pool@) =~= before.push(file@));
            assert(start + spec_cr2_files(views.take(i as int)).push(file@)
                =~= (start + spec_cr2_files(views.take(i as int))).push(file@));
        }
    }
    assert(views.take(n as int) =~= views);
}

/// Everything `collect_cr2_files` adds to a pool is a Canon RAW file, so a walk
/// that draws from a pool built only by it returns a `.cr2` file.
pub proof fn lemma_collected_files_are_raw(files: Seq<Seq<char>>, p: Seq<char>)
    requires
        spec_cr2_files(files).contains(p),
    ensures
        spec_is_cr2(p),
{
    let i = choose|i: int| 0 <= i < spec_cr2_files(files).len() && spec_cr2_files(files)[i] == p;
    files.lemma_filter_pred(|q: Seq<char>| spec_is_cr2(q), i);
}

/// The texts of a list of folder listings.
pub open spec fn listing_texts(listings: Seq<Vec<String>>) -> Seq<Seq<Seq<char>>> {
    listings.map_values(|v: Vec<String>| texts(v@))
}

/// The pool a random walk draws from where it stopped: the Canon RAW files among
/// the files of that folder, then among the files of each of its sub-folders, in order.
pub open spec fn spec_walk_pool(current_files: Seq<Seq<char>>, subfolder_files: Seq<Seq<Seq<char>>>) -> Seq<Seq<char>> {
    spec_cr2_files(current_files + subfolder_files.flatten())
}

/// Builds the pool a random walk draws from, given the files of the folder where
/// it stopped and the files of each of its sub-folders.
pub fn walk_pool(current_files: &Vec<String>, subfolder_files: &Vec<Vec<String>>) -> (pool: Vec<String>)
    ensures
        texts(pool@) == spec_walk_pool(texts(current_files@), listing_texts(subfolder_files@)),
        forall|i: int| 0 <= i < pool@.len() ==> spec_is_cr2(#[trigger] pool@[i]@),
{
    let ghost cur = texts(current_files@);
    let ghost listings = listing_texts(subfolder_files@);
    let mut pool: Vec<String> = Vec::new();
    collect_cr2_files(current_files, &mut pool);
    assert(texts(pool@) =~= spec_cr2_files(cur + listings.take(0).flatten())) by {
        assert(texts(Seq::<String>::empty()) =~= Seq::<Seq<char>>::empty());
        assert(listings.take(0) =~= Seq::<Seq<Seq<char>>>::empty());
        assert(cur + Seq::<Seq<char>>::empty() =~= cur);
    }
    let n = subfolder_files.len();
    for i in 0..n
        invariant
            n == subfolder_files@.len(),
            cur == texts(current_files@),
            listings == listing_texts(subfolder_files@),
            texts(pool@) == spec_cr2_files(cur + listings.take(i as int).flatten()),
    {
        collect_cr2_files(&subfolder_files[i], &mut pool);
        proof {
            assert(listings.take(i + 1) =~= listings.take(i as int).push(listings[i as int]));
            listings.take(i as int).lemma_flatten_push(listings[i as int]);
            let before = cur + listings.take(i as int).flatten();
            assert(cur + listings.take(i + 1).flatten() =~= before + listings[i as int]);
            Seq::filter_distributes_over_add(before, listings[i as int], |p: Seq<char>| spec_is_cr2(p));
        }
    }
    assert(listings.take(n as int) =~= listings);
    proof {
        let all = cur + listings.flatten();
        assert forall|i: int| 0 <= i < pool@.len() implies spec_is_cr2(#[trigger] pool@[i]@) by {
            assert(texts(pool@)[i] == pool@[i]@);
            assert(spec_cr2_files(all).contains(pool@[i]@));
            lemma_collected_files_are_raw(all, pool@[i]@);
        }
    }
    pool
}

/// Whether `text` is among `items`.
fn contains_text(items: &Vec<String>, text: &String) -> (r: bool)
    ensures
        r == texts(items@).contains(text@),
{
    let n = items.len();
    for i in 0..n
        invariant
            n == items@.len(),
            forall|j: int| 0 <= j < i ==> items@[j]@ != text@,
    {
        if items[i] == *text {
            assert(texts(items@)[i as int] == text@);
            return true;
        }
    }
    false
}

/// A random walk down the archive: it stands in a folder and has a number of
/// levels left to descend.
pub struct RandomWalk {
    pub current: String,
    pub steps_left: usize,
}

impl RandomWalk {
    /// A walk that starts at `root` and may descend between two and eight levels,
    /// as drawn at random.
    pub fn start(root: String, rng: &mut ThreadRng) -> (w: RandomWalk)
        ensures
            w.current@ == root@,
            MIN_WALK_DEPTH <= w.steps_left <= MAX_WALK_DEPTH,
    {
        let depth = gen_range_inclusive(rng, MIN_WALK_DEPTH, MAX_WALK_DEPTH);
        RandomWalk { current: root, steps_left: depth }
    }

    /// Whether the walk goes on: it has levels left to descend.
    pub fn is_walking(&self) -> (r: bool)
        ensures
            r == (self.steps_left > 0),
    {
        self.steps_left > 0
    }

    /// One level down: given the sub-folders of the current folder, the walk moves
    /// into one of them drawn at random; in a folder without sub-folders it stops
    /// where it is.
    pub fn descend(&mut self, subdirs: &Vec<String>, rng: &mut ThreadRng)
        requires
            old(self).steps_left > 0,
        ensures
            subdirs@.len() == 0 ==> final(self).steps_left == 0 && final(self).current@ == old(self).current@,
            subdirs@.len() > 0 ==> final(self).steps_left == old(self).steps_left - 1
                && texts(subdirs@).contains(final(self).current@),
    {
        match choose_text(subdirs, rng) {
            Some(next) => {
                proof {
                    let i = choose|i: int| 0 <= i < subdirs@.len() && #[trigger] subdirs@[i]@ == next@;
                    assert(texts(subdirs@)[i] == next@);
                }
                self.current = next;
                self.steps_left = self.steps_left - 1;
            },
            None => {
                self.steps_left = 0;
            },
        }
    }

    /// The end of the walk: one file drawn at random from the pool of the folder
    /// where the walk stopped (`current_files`, the files of that folder, and
    /// `subfolder_files`, the files of each of its sub-folders); none when that
    /// pool holds no Canon RAW file. Whatever is drawn is a `.cr2` file listed there.
    pub fn pick_from_listings(
        current_files: &Vec<String>,
        subfolder_files: &Vec<Vec<String>>,
        rng: &mut ThreadRng,
    ) -> (r: Option<String>)
        ensures
            r is None <==> spec_walk_pool(texts(current_files@), listing_texts(subfolder_files@)).len() == 0,
            r matches Some(p) ==> {
                &&& spec_walk_pool(texts(current_files@), listing_texts(subfolder_files@)).contains(p@)
                &&& spec_is_cr2(p@)
            },
    {
        let pool = walk_pool(current_files, subfolder_files);
        let r = choose_text(&pool, rng);
        proof {
            if r is Some {
                let p = r->0;
                let i = choose|i: int| 0 <= i < pool@.len() && #[trigger] pool@[i]@ == p@;
                assert(texts(pool@)[i] == p@);
            }
        }
        r
    }
}

/// Collects the RAW files of a session: candidates from random walks are
/// offered one at a time; a candidate that is new joins the picks. Picking
/// stops when there are enough picks, or when a photo could not be found in
/// `ATTEMPTS_PER_PHOTO` walks in a row.
pub struct FilePicker {
    pub picks: Vec<String>,
    pub count: usize,
    pub failed_attempts: usize,
}

impl FilePicker {
    /// The picks are distinct Canon RAW files, there are never more than asked
    /// for, and the run of failed attempts never exceeds its limit.
    pub open spec fn wf(&self) -> bool {
        &&& texts(self.picks@).no_duplicates()
        &&& forall|i: int| 0 <= i < self.picks@.len() ==> spec_is_cr2(#[trigger] self.picks@[i]@)
        &&& self.picks@.len() <= self.count
        &&& self.failed_attempts <= ATTEMPTS_PER_PHOTO
    }

    /// Picking is over: enough picks, or the last walks all failed.
    pub open spec fn spec_is_done(&self) -> bool {
        self.picks@.len() >= self.count || self.failed_attempts >= ATTEMPTS_PER_PHOTO
    }

    /// A picker for `count` files.
    pub fn new(count: usize) -> (p: FilePicker)
        ensures
            p.wf(),
            p.picks@.len() == 0,
            p.count == count,
            p.failed_attempts == 0,
    {
        let p = FilePicker { picks: Vec::new(), count, failed_attempts: 0 };
        assert(texts(p.picks@) =~= Seq::<Seq<char>>::empty());
        p
    }

    /// Whether picking is over.
    pub fn is_done(&self) -> (r: bool)
        ensures
            r == self.spec_is_done(),
    {
        self.picks.len() >= self.count || self.failed_attempts >= ATTEMPTS_PER_PHOTO
    }

    /// Offers the result of one random walk (`RandomWalk::pick_from_listings`,
    /// which only ever draws `.cr2` files). A file that is not yet picked joins the
    /// picks and a new run of attempts begins; no file, or one already picked,
    /// counts as a failed attempt.
    pub fn offer(&mut self, candidate: Option<String>)
        requires
            old(self).wf(),
            !old(self).spec_is_done(),
            candidate matches Some(c) ==> spec_is_cr2(c@),
        ensures
            final(self).wf(),
            final(self).count == old(self).count,
            match candidate {
                Some(c) if !texts(old(self).picks@).contains(c@) => {
                    &&& texts(final(self).picks@) == texts(old(self).picks@).push(c@)
                    &&& final(self).failed_attempts == 0
                },
                _ => {
                    &&& final(self).picks@ == old(self).picks@
                    &&& final(self).failed_attempts == old(self).failed_attempts + 1
                },
            },
    {
        match candidate {
            Some(c) => {
                if !contains_text(&self.picks, &c) {
                    let ghost before = texts(self.picks@);
                    self.picks.push(c);
                    proof {
                        assert(texts(self.picks@) =~= before.push(self.picks@.last()@));
                        let t = texts(self.picks@);
                        assert forall|i: int, j: int| 0 <= i < t.len() && 0 <= j < t.len() && i != j implies t[i] != t[j] by {
                            if i == before.len() {
                                assert(before.contains(t[j]));
                            } else if j == before.len() {
                                assert(before.contains(t[i]));
                            }
                        }
                    }
                    self.failed_attempts = 0;
                } else {
                    self.failed_attempts = self.failed_attempts + 1;
                }
            },
            None => {
                self.failed_attempts = self.failed_attempts + 1;
            },
        }
    }

    /// The files picked: distinct Canon RAW files, never more than asked for.
    pub fn into_picks(self) -> (r: Vec<String>)
        requires
            self.wf(),
        ensures
            r@ == self.picks@,
            texts(r@).no_duplicates(),
            forall|i: int| 0 <= i < r@.len() ==> spec_is_cr2(#[trigger] r@[i]@),
            r@.len() <= self.count,
    {
        self.picks
    }
}

/// What one offered candidate means for the search of a replacement.
pub enum ReplacementStep {
    /// A usable replacement.
    Found(String),
    /// Try another walk.
    KeepLooking,
    /// `ATTEMPTS_PER_PHOTO` walks found nothing usable.
    Exhausted,
}

/// The search for a photo to replace a rejected one: any file not already in
/// the session (`exclude`) will do.
pub struct ReplacementPicker {
    pub exclude: Vec<String>,
    pub attempts: usize,
}

impl ReplacementPicker {
    /// A search that avoids the files in `exclude`.
    pub fn new(exclude: Vec<String>) -> (p: ReplacementPicker)
        ensures
            p.exclude@ == exclude@,
            p.attempts == 0,
    {
        ReplacementPicker { exclude, attempts: 0 }
    }

    /// Offers the result of one random walk: a file outside `exclude` is the
    /// replacement; anything else uses up an attempt, and the search ends after
    /// `ATTEMPTS_PER_PHOTO` of them.
    pub fn offer(&mut self, candidate: Option<String>) -> (r: ReplacementStep)
        requires
            old(self).attempts < ATTEMPTS_PER_PHOTO,
        ensures
            final(self).exclude@ == old(self).exclude@,
            match candidate {
                Some(c) if !texts(old(self).exclude@).contains(c@) => r matches ReplacementStep::Found(f)
                    && f@ == c@ && final(self).attempts == old(self).attempts,
                _ => {
                    &&& final(self).attempts == old(self).attempts + 1
                    &&& (final(self).attempts == ATTEMPTS_PER_PHOTO ==> r is Exhausted)
                    &&& (final(self).attempts < ATTEMPTS_PER_PHOTO ==> r is KeepLooking)
                },
            },
            r matches ReplacementStep::Found(f) ==> !texts(old(self).exclude@).contains(f@),
    {
        if let Some(c) = candidate {
            if !contains_text(&self.exclude, &c) {
                return ReplacementStep::Found(c);
            }
        }
        self.attempts = self.attempts + 1;
        if self.attempts == ATTEMPTS_PER_PHOTO {
            ReplacementStep::Exhausted
        } else {
            ReplacementStep::KeepLooking
        }
    }
}

} // verus!
