use vstd::prelude::*;

verus! {

/// Radius, in chunks, of the circle of chunks kept around the player.
pub const RENDER_DISTANCE: i32 = 8;
/// Chunks farther than this (in chunks) are unloaded.
pub const UNLOAD_DISTANCE: i32 = 10;
/// Most chunk generation jobs running at once.
pub const MAX_CONCURRENT: usize = 4;

/// The chunk at scan position `t`: rows of x from west to east, z running
/// fastest from north to south.
pub open spec fn scan_coord(center: (i32, i32), t: int) -> (i32, i32) {
    ((center.0 - 8 + t / 17) as i32, (center.1 - 8 + t % 17) as i32)
}

/// Whether a chunk lies within the render circle of the player's chunk.
pub open spec fn in_render_circle(center: (i32, i32), c: (i32, i32)) -> bool {
    let dx = c.0 - center.0;
    let dz = c.1 - center.1;
    dx * dx + dz * dz <= 64
}

/// Chunks that still need generating among the first `t` scan positions, in
/// scan order: inside the render circle and not loaded.
pub open spec fn missing_chunks(center: (i32, i32), loaded: Seq<(i32, i32)>, t: nat) -> Seq<(i32, i32)>
    decreases t,
{
    if t == 0 {
        seq![]
    } else {
        let p = missing_chunks(center, loaded, (t - 1) as nat);
        let c = scan_coord(center, t - 1);
        if in_render_circle(center, c) && !loaded.contains(c) {
            p.push(c)
        } else {
            p
        }
    }
}

/// How many new generation jobs may start while `active` are running.
pub open spec fn job_budget(active: nat) -> nat {
    if active < MAX_CONCURRENT { (MAX_CONCURRENT - active) as nat } else { 0 }
}

/// Whether a loaded chunk is far enough from the player's chunk to unload.
pub open spec fn beyond_unload(center: (i32, i32), c: (i32, i32)) -> bool {
    let dx = c.0 - center.0;
    let dz = c.1 - center.1;
    dx * dx + dz * dz > 100
}

fn contains_coord(v: &Vec<(i32, i32)>, c: (i32, i32)) -> (r: bool)
    ensures
        r == v@.contains(c),
{
    let mut i: usize = 0;
    while i < v.len()
        invariant
            i <= v@.len(),
            forall|j: int| 0 <= j < i ==> v@[j] != c,
        decreases v@.len() - i,
    {
        if v[i].0 == c.0 && v[i].1 == c.1 {
            assert(v@[i as int] == c);
            return true;
        }
        i += 1;
    }
    false
}

proof fn lemma_missing_len(center: (i32, i32), loaded: Seq<(i32, i32)>, t: nat)
    ensures
        missing_chunks(center, loaded, t).len() <= t,
    decreases t,
{
    if t > 0 {
        lemma_missing_len(center, loaded, (t - 1) as nat);
    }
}

proof fn lemma_missing_prefix(center: (i32, i32), loaded: Seq<(i32, i32)>, t: nat, u: nat)
    requires
        t <= u,
    ensures
        missing_chunks(center, loaded, u).len() >= missing_chunks(center, loaded, t).len(),
        missing_chunks(center, loaded, u).take(missing_chunks(center, loaded, t).len() as int)
            == missing_chunks(center, loaded, t),
    decreases u - t,
{
    if t < u {
        lemma_missing_prefix(center, loaded, t, (u - 1) as nat);
        let a = missing_chunks(center, loaded, (u - 1) as nat);
        let b = missing_chunks(center, loaded, u);
        let k = missing_chunks(center, loaded, t).len() as int;
        assert(b.take(k) =~= a.take(k));
    } else {
        let a = missing_chunks(center, loaded, u);
        assert(a.take(a.len() as int) =~= a);
    }
}

/// The chunks to start generating this frame: walking the square around the
/// player's chunk in scan order, those inside the render circle that are not
/// loaded, as many as the free job slots allow.
pub fn chunks_to_generate(center: (i32, i32), loaded: &Vec<(i32, i32)>, active_tasks: usize) -> (r: Vec<(i32, i32)>)
    requires
        i32::MIN + 8 <= center.0 <= i32::MAX - 8,
        i32::MIN + 8 <= center.1 <= i32::MAX - 8,
    ensures
        ({
            let all = missing_chunks(center, loaded@, 289);
            let n = job_budget(active_tasks as nat);
            r@ == all.take(if all.len() < n { all.len() as int } else { n as int })
        }),
{
    let mut out: Vec<(i32, i32)> = Vec::new();
    let ghost n = job_budget(active_tasks as nat);
    let mut t: usize = 0;
    let mut a: i32 = 0;
    while a < 17
        invariant
            i32::MIN + 8 <= center.0 <= i32::MAX - 8,
            i32::MIN + 8 <= center.1 <= i32::MAX - 8,
            0 <= a <= 17,
            t == a * 17,
            n == job_budget(active_tasks as nat),
            out@ == missing_chunks(center, loaded@, t as nat),
            out@.len() <= n,
        decreases 17 - a,
    {
        let cx = center.0 - RENDER_DISTANCE + a;
        let mut b: i32 = 0;
        while b < 17
            invariant
                i32::MIN + 8 <= center.0 <= i32::MAX - 8,
                i32::MIN + 8 <= center.1 <= i32::MAX - 8,
                0 <= a < 17,
                0 <= b <= 17,
                cx == center.0 - 8 + a,
                t == a * 17 + b,
                n == job_budget(active_tasks as nat),
                out@ == missing_chunks(center, loaded@, t as nat),
                out@.len() <= n,
            decreases 17 - b,
        {
            let cz = center.1 - RENDER_DISTANCE + b;
            let ghost tt = t as int;
            assert(tt / 17 == a && tt % 17 == b) by (nonlinear_arith)
                requires
                    tt == a * 17 + b,
                    0 <= b < 17,
                    0 <= a,
            ;
            assert(scan_coord(center, tt) == (cx, cz));
            let dx = cx - center.0;
            let dz = cz - center.1;
            proof {
                lemma_square_bound(dx as int, 8);
                lemma_square_bound(dz as int, 8);
            }
            if dx * dx + dz * dz <= RENDER_DISTANCE * RENDER_DISTANCE && !contains_coord(loaded, (cx, cz)) {
                if active_tasks >= MAX_CONCURRENT || out.len() >= MAX_CONCURRENT - active_tasks {
                    proof {
                        lemma_missing_prefix(center, loaded@, (t + 1) as nat, 289);
                        lemma_missing_prefix(center, loaded@, t as nat, 289);
                        let all = missing_chunks(center, loaded@, 289);
                        let m1 = missing_chunks(center, loaded@, (t + 1) as nat);
                        assert(m1.len() == out@.len() + 1);
                        assert(out@.len() == n);
                        assert(all.len() >= n + 1);
                    }
                    return out;
                }
                out.push((cx, cz));
            }
            t += 1;
            b += 1;
        }
        a += 1;
    }
    proof {
        let all = missing_chunks(center, loaded@, 289);
        assert(all.take(all.len() as int) =~= all);
    }
    out
}

proof fn lemma_square_bound(d: int, bound: int)
    requires
        -bound <= d <= bound,
    ensures
        0 <= d * d <= bound * bound,
{
    assert(0 <= d * d <= bound * bound) by (nonlinear_arith)
        requires
            -bound <= d <= bound,
    ;
}

/// The loaded chunks to unload: those farther than the unload distance from
/// the player's chunk, in the order given.
pub fn chunks_to_unload(center: (i32, i32), loaded: &Vec<(i32, i32)>) -> (r: Vec<(i32, i32)>)
    ensures
        r@ == loaded@.filter(|c: (i32, i32)| beyond_unload(center, c)),
{
    let mut out: Vec<(i32, i32)> = Vec::new();
    let mut i: usize = 0;
    while i < loaded.len()
        invariant
            i <= loaded@.len(),
            out@ == loaded@.take(i as int).filter(|c: (i32, i32)| beyond_unload(center, c)),
        decreases loaded@.len() - i,
    {
        let c = loaded[i];
        let dx = c.0 as i128 - center.0 as i128;
        let dz = c.1 as i128 - center.1 as i128;
        proof {
            lemma_square_bound(dx as int, 0x1_0000_0000);
            lemma_square_bound(dz as int, 0x1_0000_0000);
        }
        assert(loaded@.take(i + 1).drop_last() =~= loaded@.take(i as int));
        reveal_with_fuel(Seq::filter, 1);
        if dx * dx + dz * dz > 100 {
            out.push(c);
        }
        i += 1;
    }
    assert(loaded@.take(loaded@.len() as int) =~= loaded@);
    out
}

/// Every chunk picked for generation is inside the render circle and not
/// yet loaded.
pub proof fn lemma_missing_chunks_wanted(center: (i32, i32), loaded: Seq<(i32, i32)>, t: nat)
    ensures
        forall|k: int| 0 <= k < missing_chunks(center, loaded, t).len() ==> {
            let c = #[trigger] missing_chunks(center, loaded, t)[k];
            in_render_circle(center, c) && !loaded.contains(c)
        },
    decreases t,
{
    if t > 0 {
        lemma_missing_chunks_wanted(center, loaded, (t - 1) as nat);
        let p = missing_chunks(center, loaded, (t - 1) as nat);
        let m = missing_chunks(center, loaded, t);
        assert forall|k: int| 0 <= k < m.len() implies {
            let c = #[trigger] m[k];
            in_render_circle(center, c) && !loaded.contains(c)
        } by {
            if k < p.len() {
                assert(m[k] == p[k]);
            }
        }
    }
}

/// A chunk inside the render circle is never far enough away to be unloaded,
/// so freshly generated chunks stay loaded while the player stays put.
pub proof fn lemma_render_circle_kept(center: (i32, i32), c: (i32, i32))
    ensures
        in_render_circle(center, c) ==> !beyond_unload(center, c),
{
}

} // verus!
