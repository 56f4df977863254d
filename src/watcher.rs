use vstd::prelude::*;
use vstd::string::StringSliceAdditionalSpecFns;

verus! {

/// The logical identity of a shader source file.
#[derive(Clone, Copy, Debug, PartialEq, Eq, Structural)]
pub enum ShaderKind {
    Render,
    Compute,
}

/// What happened to a watched file.
#[derive(Clone, Copy, Debug, PartialEq, Eq, Structural)]
pub enum ChangeKind {
    Create,
    Modify,
    Remove,
    Access,
    Other,
}

pub const SLASH: u8 = 47;

pub const DOT: u8 = 46;

/// Index of the last occurrence of `c` in `s`, or -1.
pub open spec fn last_index_of(s: Seq<u8>, c: u8) -> int
    decreases s.len(),
{
    if s.len() == 0 {
        -1
    } else if s.last() == c {
        s.len() - 1
    } else {
        last_index_of(s.drop_last(), c)
    }
}

/// The path below `root`, when `path` is `root` followed by a separator.
pub open spec fn relative_to(root: Seq<u8>, path: Seq<u8>) -> Option<Seq<u8>> {
    if path.len() > root.len() && path.subrange(0, root.len() as int) == root
        && path[root.len() as int] == SLASH {
        Some(path.subrange(root.len() as int + 1, path.len() as int))
    } else {
        None
    }
}

/// The last component of a path.
pub open spec fn file_name_of(p: Seq<u8>) -> Seq<u8> {
    p.subrange(last_index_of(p, SLASH) + 1, p.len() as int)
}

/// The file name without its final extension; a name whose only dot leads
/// it keeps that dot.
pub open spec fn stem_of(p: Seq<u8>) -> Seq<u8> {
    let name = file_name_of(p);
    let d = last_index_of(name, DOT);
    if d <= 0 {
        name
    } else {
        name.subrange(0, d)
    }
}

pub open spec fn render_stem() -> Seq<u8> {
    seq![114u8, 101, 110, 100, 101, 114]
}

pub open spec fn compute_stem() -> Seq<u8> {
    seq![99u8, 111, 109, 112, 117, 116, 101]
}

pub open spec fn kind_of_stem(stem: Seq<u8>) -> Option<ShaderKind> {
    if stem == render_stem() {
        Some(ShaderKind::Render)
    } else if stem == compute_stem() {
        Some(ShaderKind::Compute)
    } else {
        None
    }
}

/// The shader a changed path belongs to: the stem of its path relative to the
/// watched root names it.
pub open spec fn shader_of_path(root: Seq<u8>, path: Seq<u8>) -> Option<ShaderKind> {
    match relative_to(root, path) {
        Some(rel) => kind_of_stem(stem_of(rel)),
        None => None,
    }
}

fn bytes_equal(a: &[u8], lo: usize, hi: usize, b: &[u8]) -> (r: bool)
    requires
        lo <= hi <= a@.len(),
    ensures
        r == (a@.subrange(lo as int, hi as int) == b@),
{
    if hi - lo != b.len() {
        proof {
            assert(a@.subrange(lo as int, hi as int).len() != b@.len());
        }
        return false;
    }
    let mut i: usize = 0;
    while i < b.len()
        invariant
            hi - lo == b@.len(),
            lo <= hi <= a@.len(),
            i <= b@.len(),
            forall|k: int| 0 <= k < i ==> a@[lo + k] == b@[k],
        decreases b@.len() - i,
    {
        if a[lo + i] != b[i] {
            proof {
                assert(a@.subrange(lo as int, hi as int)[i as int] != b@[i as int]);
            }
            return false;
        }
        i = i + 1;
    }
    assert(a@.subrange(lo as int, hi as int) =~= b@);
    true
}

/// Position in `s` of the last `c` within `lo..hi`.
fn last_in(s: &[u8], lo: usize, hi: usize, c: u8) -> (r: Option<usize>)
    requires
        lo <= hi <= s@.len(),
    ensures
        match r {
            Some(k) => lo <= k < hi && k - lo == last_index_of(s@.subrange(lo as int, hi as int), c),
            None => last_index_of(s@.subrange(lo as int, hi as int), c) == -1,
        },
{
    let mut i: usize = hi;
    while i > lo
        invariant
            lo <= i <= hi <= s@.len(),
            last_index_of(s@.subrange(lo as int, hi as int), c)
                == last_index_of(s@.subrange(lo as int, i as int), c),
        decreases i,
    {
        let ghost pre = s@.subrange(lo as int, i as int);
        if s[i - 1] == c {
            return Some(i - 1);
        }
        assert(pre.drop_last() =~= s@.subrange(lo as int, i - 1));
        i = i - 1;
    }
    assert(s@.subrange(lo as int, i as int).len() == 0);
    None
}

/// Resolves a changed path against the watched root and names the shader whose
/// source it is; paths outside the root and other files give `None`.
pub fn shader_for_path(root: &str, path: &str) -> (r: Option<ShaderKind>)
    ensures
        r == shader_of_path(root.spec_bytes(), path.spec_bytes()),
{
    let rb = root.as_bytes();
    let pb = path.as_bytes();
    if !(pb.len() > rb.len() && bytes_equal(pb, 0, rb.len(), rb) && pb[rb.len()] == SLASH) {
        return None;
    }
    let ghost rel = pb@.subrange(rb@.len() as int + 1, pb@.len() as int);
    let start = rb.len() + 1;
    let name_start: usize = match last_in(pb, start, pb.len(), SLASH) {
        Some(k) => k + 1,
        None => start,
    };
    let ghost name = file_name_of(rel);
    assert(name =~= pb@.subrange(name_start as int, pb@.len() as int));
    let stem_end: usize = match last_in(pb, name_start, pb.len(), DOT) {
        Some(k) => if k > name_start { k } else { pb.len() },
        None => pb.len(),
    };
    assert(stem_of(rel) =~= pb@.subrange(name_start as int, stem_end as int));
    let render: [u8; 6] = [114u8, 101, 110, 100, 101, 114];
    let compute: [u8; 7] = [99u8, 111, 109, 112, 117, 116, 101];
    assert(render@ =~= render_stem());
    assert(compute@ =~= compute_stem());
    if bytes_equal(pb, name_start, stem_end, render.as_slice()) {
        Some(ShaderKind::Render)
    } else if bytes_equal(pb, name_start, stem_end, compute.as_slice()) {
        Some(ShaderKind::Compute)
    } else {
        None
    }
}

/// Coalesces bursts of changes to each shader: a change is handed out once
/// `window` time units have passed since the last change to the same shader.
/// `render` and `compute` hold the time of that last change, while pending.
#[derive(Clone, Copy, Debug, PartialEq, Eq, Structural)]
pub struct Debouncer {
    pub window: u64,
    pub render: Option<u64>,
    pub compute: Option<u64>,
}

/// One input to the debouncer, as a sequence of them is replayed in proofs.
pub enum WatchStep {
    Changed(ShaderKind, u64),
    Poll(u64),
}

pub open spec fn step_time(e: WatchStep) -> u64 {
    match e {
        WatchStep::Changed(_, t) => t,
        WatchStep::Poll(t) => t,
    }
}

pub open spec fn changes(e: WatchStep, k: ShaderKind) -> bool {
    match e {
        WatchStep::Changed(j, _) => j == k,
        WatchStep::Poll(_) => false,
    }
}

/// A change to `k`, if `e` is one, falls in `[lo, lo + window)`.
pub open spec fn change_within(e: WatchStep, k: ShaderKind, lo: u64, window: u64) -> bool {
    match e {
        WatchStep::Changed(j, t) => j == k ==> lo <= t && t < lo + window,
        WatchStep::Poll(_) => true,
    }
}

impl Debouncer {
    pub open spec fn pending(self, k: ShaderKind) -> Option<u64> {
        match k {
            ShaderKind::Render => self.render,
            ShaderKind::Compute => self.compute,
        }
    }

    pub open spec fn with_pending(self, k: ShaderKind, v: Option<u64>) -> Debouncer {
        match k {
            ShaderKind::Render => Debouncer { render: v, ..self },
            ShaderKind::Compute => Debouncer { compute: v, ..self },
        }
    }

    /// The last change to `k` lies at least one window before `now`.
    pub open spec fn is_due(self, k: ShaderKind, now: u64) -> bool {
        match self.pending(k) {
            Some(t) => now >= t && now - t >= self.window,
            None => false,
        }
    }

    /// The shader a poll at `now` hands out: render first, then compute.
    pub open spec fn next_due(self, now: u64) -> Option<ShaderKind> {
        if self.is_due(ShaderKind::Render, now) {
            Some(ShaderKind::Render)
        } else if self.is_due(ShaderKind::Compute, now) {
            Some(ShaderKind::Compute)
        } else {
            None
        }
    }

    pub open spec fn after_poll(self, now: u64) -> Debouncer {
        match self.next_due(now) {
            Some(k) => self.with_pending(k, None),
            None => self,
        }
    }

    pub open spec fn after_step(self, e: WatchStep) -> Debouncer {
        match e {
            WatchStep::Changed(k, t) => self.with_pending(k, Some(t)),
            WatchStep::Poll(t) => self.after_poll(t),
        }
    }

    /// How many times a replay of `steps` hands out `k`.
    pub open spec fn emissions(self, steps: Seq<WatchStep>, k: ShaderKind) -> nat
        decreases steps.len(),
    {
        if steps.len() == 0 {
            0
        } else {
            let e = steps[0];
            let here: nat = match e {
                WatchStep::Poll(t) => if self.next_due(t) == Some(k) { 1 } else { 0 },
                _ => 0,
            };
            here + self.after_step(e).emissions(steps.drop_first(), k)
        }
    }

    pub open spec fn spec_new(window: u64) -> Debouncer {
        Debouncer { window, render: None, compute: None }
    }

    /// A debouncer with nothing pending.
    pub fn new(window: u64) -> (r: Debouncer)
        ensures
            r == Debouncer::spec_new(window),
    {
        Debouncer { window, render: None, compute: None }
    }

    /// Records a change to `k` at time `now`, replacing an earlier pending one.
    pub fn record(&mut self, k: ShaderKind, now: u64)
        ensures
            *final(self) == old(self).with_pending(k, Some(now)),
    {
        match k {
            ShaderKind::Render => self.render = Some(now),
            ShaderKind::Compute => self.compute = Some(now),
        }
    }

    /// Records a file-system change: only a modification of a shader source
    /// below `root` counts; anything else leaves the debouncer as it was.
    pub fn note_change(&mut self, kind: ChangeKind, root: &str, path: &str, now: u64)
        ensures
            *final(self) == (match (kind, shader_of_path(root.spec_bytes(), path.spec_bytes())) {
                (ChangeKind::Modify, Some(k)) => old(self).with_pending(k, Some(now)),
                _ => *old(self),
            }),
    {
        if let ChangeKind::Modify = kind {
            if let Some(k) = shader_for_path(root, path) {
                self.record(k, now);
            }
        }
    }

    fn due(&self, k: ShaderKind, now: u64) -> (r: bool)
        ensures
            r == self.is_due(k, now),
    {
        let p = match k {
            ShaderKind::Render => self.render,
            ShaderKind::Compute => self.compute,
        };
        match p {
            Some(t) => now >= t && now - t >= self.window,
            None => false,
        }
    }

    /// Hands out at most one shader whose last change is a full window old,
    /// and forgets that change.
    pub fn poll(&mut self, now: u64) -> (r: Option<ShaderKind>)
        ensures
            r == old(self).next_due(now),
            *final(self) == old(self).after_poll(now),
    {
        if self.due(ShaderKind::Render, now) {
            self.render = None;
            Some(ShaderKind::Render)
        } else if self.due(ShaderKind::Compute, now) {
            self.compute = None;
            Some(ShaderKind::Compute)
        } else {
            None
        }
    }
}

/// Without a pending change and without new changes to `k`, a replay never
/// hands out `k`.
pub proof fn lemma_quiet_never_emits(d: Debouncer, steps: Seq<WatchStep>, k: ShaderKind)
    requires
        d.pending(k) is None,
        forall|i: int| 0 <= i < steps.len() ==> !changes(steps[i], k),
    ensures
        d.emissions(steps, k) == 0,
    decreases steps.len(),
{
    if steps.len() > 0 {
        let e = steps[0];
        assert forall|i: int| 0 <= i < steps.drop_first().len() implies
            !changes(steps.drop_first()[i], k) by {
            assert(steps.drop_first()[i] == steps[i + 1]);
        }
        lemma_quiet_never_emits(d.after_step(e), steps.drop_first(), k);
    }
}

/// Coalescing: when the changes to one shader all fall within one window
/// `[lo, lo + window)` and the steps come in time order, that shader is handed
/// out at most once, however many changes there were.
pub proof fn lemma_burst_coalesces(d: Debouncer, steps: Seq<WatchStep>, k: ShaderKind, lo: u64)
    requires
        d.pending(k) is None || d.pending(k).unwrap() >= lo,
        forall|i: int, j: int| 0 <= i < j < steps.len() ==> step_time(steps[i]) <= step_time(steps[j]),
        forall|i: int| 0 <= i < steps.len() ==> change_within(steps[i], k, lo, d.window),
    ensures
        d.emissions(steps, k) <= 1,
    decreases steps.len(),
{
    if steps.len() > 0 {
        let e = steps[0];
        let rest = steps.drop_first();
        let d2 = d.after_step(e);
        assert forall|i: int, j: int| 0 <= i < j < rest.len() implies
            step_time(rest[i]) <= step_time(rest[j]) by {
            assert(rest[i] == steps[i + 1] && rest[j] == steps[j + 1]);
        }
        assert forall|i: int| 0 <= i < rest.len() implies change_within(rest[i], k, lo, d.window) by {
            assert(rest[i] == steps[i + 1]);
        }
        match e {
            WatchStep::Poll(p) => {
                if d.next_due(p) == Some(k) {
                    assert(d2.pending(k) is None);
                    assert forall|i: int| 0 <= i < rest.len() implies
                        !changes(rest[i], k) by {
                        assert(rest[i] == steps[i + 1]);
                        assert(step_time(steps[0]) <= step_time(steps[i + 1]));
                    }
                    lemma_quiet_never_emits(d2, rest, k);
                } else {
                    lemma_burst_coalesces(d2, rest, k, lo);
                }
            },
            WatchStep::Changed(j, t) => {
                lemma_burst_coalesces(d2, rest, k, lo);
            },
        }
    }
}

} // verus!
