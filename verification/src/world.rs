//! The scene: one stationary queen and a fixed set of workers. A worker
//! either sits idle or travels toward a destination; travelling workers
//! advance by a capped step each tick and go idle on arrival.

use vstd::prelude::*;

use crate::geometry::COORD_LIMIT;
use crate::geometry::Point;
use crate::geometry::cheb;
use crate::geometry::dist2;
use crate::geometry::dist2_i64;
use crate::geometry::in_bounds;
use crate::geometry::lemma_step_progress;
use crate::geometry::step_point;
use crate::geometry::step_toward;

verus! {

/// A movable entity: a position, and the destination of an in-progress
/// move, if one is under way.
#[derive(Clone, Copy, Debug, PartialEq, Eq)]
pub struct Worker {
    pub pos: Point,
    pub dest: Option<Point>,
}

/// A worker with no move under way.
pub open spec fn idle(w: Worker) -> bool {
    w.dest is None
}

/// A worker stays within the scene, destination included.
pub open spec fn worker_wf(w: Worker) -> bool {
    &&& in_bounds(w.pos)
    &&& (w.dest matches Some(d) ==> in_bounds(d))
}

/// A worker after one tick: a travelling worker takes one capped step
/// and drops its destination on arrival; an idle worker is unchanged.
pub open spec fn stepped(w: Worker, speed: int) -> Worker {
    match w.dest {
        Some(d) => {
            let q = step_point(w.pos, d, speed);
            Worker { pos: q, dest: if q == d { None } else { Some(d) } }
        },
        None => w,
    }
}

/// The mathematical model of a scene: what `World` looks like in contracts.
pub ghost struct WorldModel {
    pub queen: Point,
    pub workers: Seq<Worker>,
    pub speed: int,
}

/// The scene invariant: everything lies within the grid and the per-tick
/// step is a positive, bounded amount.
pub open spec fn model_wf(m: WorldModel) -> bool {
    &&& in_bounds(m.queen)
    &&& 1 <= m.speed <= COORD_LIMIT
    &&& forall|i: int| 0 <= i < m.workers.len() ==> worker_wf(#[trigger] m.workers[i])
}

/// The index of the idle worker nearest to `p` among the first `n`
/// workers, preferring the lowest index on ties; `None` when none of
/// them is idle.
pub open spec fn nearest_idle_upto(ws: Seq<Worker>, p: Point, n: int) -> Option<int>
    decreases n,
{
    if n <= 0 {
        None
    } else if !idle(ws[n - 1]) {
        nearest_idle_upto(ws, p, n - 1)
    } else {
        match nearest_idle_upto(ws, p, n - 1) {
            None => Some(n - 1),
            Some(b) => if dist2(ws[b].pos, p) <= dist2(ws[n - 1].pos, p) {
                Some(b)
            } else {
                Some(n - 1)
            },
        }
    }
}

/// The index of the idle worker nearest to `p`, lowest index on ties.
pub open spec fn nearest_idle_index(ws: Seq<Worker>, p: Point) -> Option<int> {
    nearest_idle_upto(ws, p, ws.len() as int)
}

/// The selection law, over a prefix: the chosen worker exists, is idle,
/// is at least as near as every idle worker, and is strictly nearer than
/// every idle worker before it; and a worker is chosen exactly when an
/// idle one exists.
pub proof fn lemma_nearest_idle_upto_props(ws: Seq<Worker>, p: Point, n: int)
    requires
        0 <= n <= ws.len(),
    ensures
        match nearest_idle_upto(ws, p, n) {
            Some(i) => {
                &&& 0 <= i < n
                &&& idle(ws[i])
                &&& forall|j: int|
                    0 <= j < n && idle(#[trigger] ws[j]) ==> dist2(ws[i].pos, p) <= dist2(
                        ws[j].pos,
                        p,
                    )
                &&& forall|j: int|
                    0 <= j < i && idle(#[trigger] ws[j]) ==> dist2(ws[i].pos, p) < dist2(
                        ws[j].pos,
                        p,
                    )
            },
            None => forall|j: int| 0 <= j < n ==> !idle(#[trigger] ws[j]),
        },
    decreases n,
{
    if n > 0 {
        lemma_nearest_idle_upto_props(ws, p, n - 1);
    }
}

/// The selection law for the whole scene: `nearest_idle_index` picks an
/// idle worker of minimal squared distance, with the lowest index among
/// equally near ones, and picks one exactly when some worker is idle.
pub proof fn lemma_nearest_idle_correct(ws: Seq<Worker>, p: Point)
    ensures
        match nearest_idle_index(ws, p) {
            Some(i) => {
                &&& 0 <= i < ws.len()
                &&& idle(ws[i])
                &&& forall|j: int|
                    0 <= j < ws.len() && idle(#[trigger] ws[j]) ==> dist2(ws[i].pos, p) <= dist2(
                        ws[j].pos,
                        p,
                    )
                &&& forall|j: int|
                    0 <= j < i && idle(#[trigger] ws[j]) ==> dist2(ws[i].pos, p) < dist2(
                        ws[j].pos,
                        p,
                    )
            },
            None => forall|j: int| 0 <= j < ws.len() ==> !idle(#[trigger] ws[j]),
        },
{
    lemma_nearest_idle_upto_props(ws, p, ws.len() as int);
}

/// What a pointer click at `p` does to the scene: the nearest idle
/// worker, if there is one, is sent toward `p`; nothing else changes.
pub open spec fn assign_step(m: WorldModel, p: Point) -> WorldModel {
    match nearest_idle_index(m.workers, p) {
        Some(i) => WorldModel {
            workers: m.workers.update(i, Worker { pos: m.workers[i].pos, dest: Some(p) }),
            ..m
        },
        None => m,
    }
}

/// What one frame tick does to the scene: every worker advances by
/// `stepped`; the queen never moves.
pub open spec fn tick_step(m: WorldModel) -> WorldModel {
    WorldModel { workers: Seq::new(m.workers.len(), |i: int| stepped(m.workers[i], m.speed)), ..m }
}

/// The transit lines of the first `n` workers, in worker order: one
/// segment from position to destination for each travelling worker.
pub open spec fn segments_upto(ws: Seq<Worker>, n: int) -> Seq<(Point, Point)>
    decreases n,
{
    if n <= 0 {
        Seq::empty()
    } else {
        match ws[n - 1].dest {
            Some(d) => segments_upto(ws, n - 1).push((ws[n - 1].pos, d)),
            None => segments_upto(ws, n - 1),
        }
    }
}

/// One worker after one tick: the executable counterpart of `stepped`.
pub fn advance_worker(w: Worker, speed: i64) -> (r: Worker)
    requires
        worker_wf(w),
        1 <= speed <= COORD_LIMIT,
    ensures
        r == stepped(w, speed as int),
{
    match w.dest {
        Some(d) => {
            let q = step_toward(w.pos, d, speed);
            if q.x == d.x && q.y == d.y {
                Worker { pos: q, dest: None }
            } else {
                Worker { pos: q, dest: Some(d) }
            }
        },
        None => w,
    }
}

/// One tick keeps a worker within the scene.
pub proof fn lemma_stepped_wf(w: Worker, speed: int)
    requires
        worker_wf(w),
        1 <= speed <= COORD_LIMIT,
    ensures
        worker_wf(stepped(w, speed)),
{
    match w.dest {
        Some(d) => {
            lemma_step_progress(w.pos, d, speed);
        },
        None => {},
    }
}

/// Progress of a travelling worker: each tick keeps it well formed and
/// strictly shrinks the squared distance to its destination until the
/// destination is within one step; at that point the worker lands
/// exactly on the destination and goes idle.
pub proof fn lemma_tick_progress(w: Worker, speed: int)
    requires
        worker_wf(w),
        1 <= speed <= COORD_LIMIT,
        !idle(w),
    ensures
        worker_wf(stepped(w, speed)),
        idle(stepped(w, speed)) <==> cheb(w.pos, w.dest->Some_0) <= speed,
        idle(stepped(w, speed)) ==> stepped(w, speed).pos == w.dest->Some_0,
        !idle(stepped(w, speed)) ==> {
            &&& stepped(w, speed).dest == w.dest
            &&& dist2(stepped(w, speed).pos, w.dest->Some_0) < dist2(w.pos, w.dest->Some_0)
        },
{
    let d = w.dest->Some_0;
    lemma_step_progress(w.pos, d, speed);
    if step_point(w.pos, d, speed) == d {
        assert(idle(stepped(w, speed)));
    }
}

/// The scene itself: the stationary queen, the workers, and the distance
/// a travelling worker covers per tick.
pub struct World {
    pub queen: Point,
    pub workers: Vec<Worker>,
    pub speed: i64,
}

impl View for World {
    type V = WorldModel;

    open spec fn view(&self) -> WorldModel {
        WorldModel { queen: self.queen, workers: self.workers@, speed: self.speed as int }
    }
}

impl World {
    /// The scene invariant, on the executable representation.
    pub open spec fn wf(self) -> bool {
        model_wf(self@)
    }

    /// A fresh scene: the queen at `queen`, one idle worker on each of
    /// the given positions, and a per-tick step of `speed`.
    pub fn new(queen: Point, worker_positions: &Vec<Point>, speed: i64) -> (w: World)
        requires
            in_bounds(queen),
            1 <= speed <= COORD_LIMIT,
            forall|i: int|
                0 <= i < worker_positions@.len() ==> in_bounds(#[trigger] worker_positions@[i]),
        ensures
            w.wf(),
            w@.queen == queen,
            w@.speed == speed as int,
            w@.workers.len() == worker_positions@.len(),
            forall|i: int|
                0 <= i < worker_positions@.len() ==> #[trigger] w@.workers[i] == (Worker {
                    pos: worker_positions@[i],
                    dest: None::<Point>,
                }),
    {
        let mut workers: Vec<Worker> = Vec::new();
        let mut i: usize = 0;
        while i < worker_positions.len()
            invariant
                i <= worker_positions@.len(),
                workers@.len() == i as int,
                forall|j: int|
                    0 <= j < worker_positions@.len() ==> in_bounds(#[trigger] worker_positions@[j]),
                forall|j: int|
                    0 <= j < i as int ==> #[trigger] workers@[j] == (Worker {
                        pos: worker_positions@[j],
                        dest: None::<Point>,
                    }),
            decreases worker_positions@.len() - i as int,
        {
            workers.push(Worker { pos: worker_positions[i], dest: None });
            i = i + 1;
        }
        World { queen, workers, speed }
    }

    /// The number of workers in the scene.
    pub fn worker_count(&self) -> (n: usize)
        ensures
            n == self@.workers.len(),
    {
        self.workers.len()
    }

    /// The worker at index `i`.
    pub fn worker_at(&self, i: usize) -> (w: Worker)
        requires
            i < self@.workers.len(),
        ensures
            w == self@.workers[i as int],
    {
        self.workers[i]
    }

    /// The index of the idle worker nearest to `p`, lowest index first
    /// on ties; `None` when every worker is travelling.
    pub fn nearest_idle(&self, p: Point) -> (r: Option<usize>)
        requires
            self.wf(),
            in_bounds(p),
        ensures
            match r {
                Some(i) => nearest_idle_index(self@.workers, p) == Some(i as int),
                None => nearest_idle_index(self@.workers, p) is None,
            },
    {
        let ghost ws = self@.workers;
        let mut best: Option<usize> = None;
        let mut best_d2: i64 = 0;
        let mut i: usize = 0;
        while i < self.workers.len()
            invariant
                self.wf(),
                in_bounds(p),
                ws == self@.workers,
                i <= ws.len(),
                match best {
                    Some(b) => {
                        &&& nearest_idle_upto(ws, p, i as int) == Some(b as int)
                        &&& b < ws.len()
                        &&& best_d2 == dist2(ws[b as int].pos, p)
                    },
                    None => nearest_idle_upto(ws, p, i as int) is None,
                },
            decreases ws.len() - i as int,
        {
            let w = self.workers[i];
            if w.dest.is_none() {
                let d2: i64 = dist2_i64(w.pos, p);
                match best {
                    None => {
                        best = Some(i);
                        best_d2 = d2;
                    },
                    Some(_) => {
                        if d2 < best_d2 {
                            best = Some(i);
                            best_d2 = d2;
                        }
                    },
                }
            }
            i = i + 1;
        }
        best
    }

    /// Send the idle worker nearest to `p` toward `p`. When every worker
    /// is already travelling, the click is ignored and the scene is
    /// unchanged.
    pub fn assign_target(&mut self, p: Point)
        requires
            old(self).wf(),
            in_bounds(p),
        ensures
            final(self).wf(),
            final(self)@ == assign_step(old(self)@, p),
    {
        let target = self.nearest_idle(p);
        match target {
            Some(i) => {
                proof {
                    lemma_nearest_idle_correct(self@.workers, p);
                }
                let removed = self.workers.remove(i);
                self.workers.insert(i, Worker { pos: removed.pos, dest: Some(p) });
                proof {
                    assert(self@.workers =~= assign_step(old(self)@, p).workers);
                    assert forall|j: int| 0 <= j < self@.workers.len() implies worker_wf(
                        #[trigger] self@.workers[j],
                    ) by {
                        assert(worker_wf(old(self)@.workers[j]));
                    }
                }
            },
            None => {},
        }
    }

    /// Advance the scene by one frame: every travelling worker takes one
    /// capped step toward its destination and goes idle on arrival; idle
    /// workers and the queen stay where they are.
    pub fn tick(&mut self)
        requires
            old(self).wf(),
        ensures
            final(self).wf(),
            final(self)@ == tick_step(old(self)@),
    {
        let ghost orig = *self;
        let mut advanced: Vec<Worker> = Vec::new();
        let mut i: usize = 0;
        while i < self.workers.len()
            invariant
                *self == orig,
                self.wf(),
                i <= self@.workers.len(),
                advanced@.len() == i as int,
                forall|j: int|
                    0 <= j < i as int ==> #[trigger] advanced@[j] == stepped(
                        self@.workers[j],
                        self@.speed,
                    ),
            decreases self@.workers.len() - i as int,
        {
            let w = self.workers[i];
            advanced.push(advance_worker(w, self.speed));
            i = i + 1;
        }
        self.workers = advanced;
        proof {
            assert(self@.workers =~= tick_step(orig@).workers);
            assert forall|j: int| 0 <= j < self@.workers.len() implies worker_wf(
                #[trigger] self@.workers[j],
            ) by {
                lemma_stepped_wf(orig@.workers[j], orig@.speed);
            }
        }
    }

    /// The line to draw for each travelling worker, in worker order:
    /// from its current position to its destination.
    pub fn transit_segments(&self) -> (r: Vec<(Point, Point)>)
        ensures
            r@ == segments_upto(self@.workers, self@.workers.len() as int),
    {
        let mut out: Vec<(Point, Point)> = Vec::new();
        let mut i: usize = 0;
        while i < self.workers.len()
            invariant
                i <= self@.workers.len(),
                out@ == segments_upto(self@.workers, i as int),
            decreases self@.workers.len() - i as int,
        {
            let w = self.workers[i];
            match w.dest {
                Some(d) => out.push((w.pos, d)),
                None => {},
            }
            i = i + 1;
        }
        out
    }
}

} // verus!
