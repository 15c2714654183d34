//! Cutting a binary's content into parts for a parallel upload: how many parts
//! there are, which byte range each covers, which the server already holds, and
//! when an upload is complete.
use vstd::prelude::*;

verus! {

/// The part size used when none is given: 5 MiB.
pub const DEFAULT_PART_SIZE: u64 = 5242880;

/// The most upload jobs run at once by default.
pub const MAX_DEFAULT_CONCURRENCY: u8 = 16;

/// The default number of concurrent upload jobs for a machine that can run
/// `parallelism` threads at once: twice that, but at most sixteen.
pub open spec fn spec_default_concurrency(parallelism: int) -> int {
    if 2 * parallelism < 16 { 2 * parallelism } else { 16 }
}

/// The default number of concurrent upload jobs.
pub fn default_concurrency(parallelism: usize) -> (c: u8)
    ensures
        c == spec_default_concurrency(parallelism as int),
{
    if parallelism < 8 {
        (parallelism * 2) as u8
    } else {
        MAX_DEFAULT_CONCURRENCY
    }
}

/// Uploads a binary's content in parts of equal size (the last may be shorter),
/// several at a time.
pub struct BinaryUploader {
    binary_part_size: u64,
    concurrency: u8,
}

/// A part the server already knows: its index (from one), whether the server
/// accepted it, and its size.
#[derive(Clone, Copy, PartialEq, Eq, Debug, Structural)]
pub struct PartInfo {
    pub index: u64,
    pub valid: bool,
    pub size: u64,
}

/// A part to upload: its index (from one) and the byte range `start..end` of
/// the content it holds.
#[derive(Clone, Copy, PartialEq, Eq, Debug, Structural)]
pub struct ChunkTask {
    pub index: u64,
    pub start: u64,
    pub end: u64,
}

/// The number of parts of size `part` that hold `size` bytes.
pub open spec fn spec_chunk_count(size: int, part: int) -> int {
    (size + part - 1) / part
}

/// The first part the server knows under `index`, if any.
pub open spec fn first_with_index(parts: Seq<PartInfo>, index: int) -> Option<PartInfo>
    decreases parts.len(),
{
    if parts.len() == 0 {
        None
    } else if parts[0].index == index {
        Some(parts[0])
    } else {
        first_with_index(parts.drop_first(), index)
    }
}

/// Whether the part `index` is already on the server and accepted.
pub open spec fn already_uploaded(parts: Seq<PartInfo>, index: int) -> bool {
    first_with_index(parts, index) matches Some(p) && p.valid
}

/// The part `index` of content of `size` bytes cut in parts of `part` bytes.
pub open spec fn task_for(size: int, part: int, index: int) -> ChunkTask {
    let start = part * (index - 1);
    let end = if start + part < size { start + part } else { size };
    ChunkTask { index: index as u64, start: start as u64, end: end as u64 }
}

/// The parts among `1..=n` still to upload, in order.
pub open spec fn pending_tasks(size: int, part: int, parts: Seq<PartInfo>, n: int) -> Seq<ChunkTask>
    decreases n,
{
    if n <= 0 {
        Seq::empty()
    } else {
        let rest = pending_tasks(size, part, parts, n - 1);
        if already_uploaded(parts, n) || part * (n - 1) >= size {
            rest
        } else {
            rest.push(task_for(size, part, n))
        }
    }
}

/// Whether every part of the content is on the server and accepted: as many
/// parts as the content has, all valid.
pub open spec fn spec_upload_complete(parts: Seq<PartInfo>, count: int) -> bool {
    parts.len() == count && forall|i: int| 0 <= i < parts.len() ==> #[trigger] parts[i].valid
}

/// An upload is complete exactly when the server lists as many parts as the
/// content has and accepted every one of them: a single part it did not accept,
/// or a part too many or too few, makes the upload incomplete.
pub proof fn lemma_complete_means_all_accepted(parts: Seq<PartInfo>, count: int)
    ensures
        spec_upload_complete(parts, count) ==> parts.len() == count,
        spec_upload_complete(parts, count) ==> forall|i: int| 0 <= i < parts.len() ==> #[trigger] parts[i].valid,
        (exists|i: int| 0 <= i < parts.len() && !#[trigger] parts[i].valid) ==> !spec_upload_complete(parts, count),
        parts.len() == count && (forall|i: int| 0 <= i < parts.len() ==> #[trigger] parts[i].valid)
            ==> spec_upload_complete(parts, count),
{
}

fn find_part(parts: &Vec<PartInfo>, index: u64) -> (r: Option<PartInfo>)
    ensures
        r == first_with_index(parts@, index as int),
{
    let mut i: usize = 0;
    assert(parts@.skip(0) =~= parts@);
    while i < parts.len()
        invariant
            i <= parts.len(),
            first_with_index(parts@, index as int) == first_with_index(parts@.skip(i as int), index as int),
        decreases parts.len() - i,
    {
        if parts[i].index == index {
            assert(parts@.skip(i as int)[0] == parts@[i as int]);
            return Some(parts[i]);
        }
        assert(parts@.skip(i as int).drop_first() =~= parts@.skip(i as int + 1));
        i = i + 1;
    }
    assert(parts@.skip(i as int) =~= Seq::<PartInfo>::empty());
    None
}

proof fn lemma_start_fits(size: u64, part: u64, k: int)
    requires
        part > 0,
        0 <= k,
        k < spec_chunk_count(size as int, part as int),
    ensures
        part * k < size,
{
    let c = spec_chunk_count(size as int, part as int);
    let t = size as int + part as int - 1;
    assert(c * part <= t) by (nonlinear_arith)
        requires
            c == t / part as int,
            part > 0,
            t >= 0,
    ;
    assert(k * part <= c * part - part) by (nonlinear_arith)
        requires
            k + 1 <= c,
            part > 0,
    ;
}

impl BinaryUploader {
    /// An uploader with parts of 5 MiB and the default concurrency for a
    /// machine that runs `parallelism` threads at once.
    pub fn new(parallelism: usize) -> (u: Self)
        ensures
            u.part_size_spec() == DEFAULT_PART_SIZE,
            u.concurrency_spec() == spec_default_concurrency(parallelism as int),
    {
        BinaryUploader { binary_part_size: DEFAULT_PART_SIZE, concurrency: default_concurrency(parallelism) }
    }

    /// The part size.
    pub closed spec fn part_size_spec(&self) -> u64 {
        self.binary_part_size
    }

    /// The number of parts uploaded at once.
    pub closed spec fn concurrency_spec(&self) -> u8 {
        self.concurrency
    }

    /// The same uploader with parts of `size` bytes.
    pub fn with_part_size(self, size: u64) -> (u: Self)
        ensures
            u.part_size_spec() == size,
            u.concurrency_spec() == self.concurrency_spec(),
    {
        BinaryUploader { binary_part_size: size, concurrency: self.concurrency }
    }

    /// The same uploader running `concurrency` uploads at once.
    pub fn with_concurrency(self, concurrency: u8) -> (u: Self)
        ensures
            u.part_size_spec() == self.part_size_spec(),
            u.concurrency_spec() == concurrency,
    {
        BinaryUploader { binary_part_size: self.binary_part_size, concurrency }
    }

    /// The part size.
    pub fn part_size(&self) -> (s: u64)
        ensures
            s == self.part_size_spec(),
    {
        self.binary_part_size
    }

    /// The number of parts uploaded at once.
    pub fn concurrency(&self) -> (c: u8)
        ensures
            c == self.concurrency_spec(),
    {
        self.concurrency
    }

    /// The number of parts content of `file_size` bytes is cut into.
    pub fn chunk_count(&self, file_size: u64) -> (n: u64)
        requires
            self.part_size_spec() > 0,
        ensures
            n == spec_chunk_count(file_size as int, self.part_size_spec() as int),
    {
        let p = self.binary_part_size;
        let q = file_size / p;
        let r = file_size % p;
        proof {
            let t = file_size as int + p as int - 1;
            assert(file_size as int == q * p + r) by (nonlinear_arith)
                requires
                    q == file_size as int / p as int,
                    r == file_size as int % p as int,
                    p > 0,
            ;
            if r == 0 {
                assert(t / p as int == q) by (nonlinear_arith)
                    requires
                        t == q * p + p - 1,
                        p > 0,
                        q >= 0,
                ;
            } else {
                assert(t / p as int == q + 1) by (nonlinear_arith)
                    requires
                        t == q * p + r + p - 1,
                        0 < r < p,
                        q >= 0,
                ;
            }
        }
        if r == 0 {
            q
        } else {
            assert(q < 0xffff_ffff_ffff_ffffu64) by (nonlinear_arith)
                requires
                    file_size as int == q * p + r,
                    p > 1,
                    r > 0,
                    file_size <= 0xffff_ffff_ffff_ffffu64,
            ;
            q + 1
        }
    }

    /// The parts still to upload for content of `file_size` bytes, given the
    /// parts the server already knows: every part, in order, except those whose
    /// first entry on the server is accepted.
    pub fn plan_chunks(&self, file_size: u64, parts: &Vec<PartInfo>) -> (tasks: Vec<ChunkTask>)
        requires
            self.part_size_spec() > 0,
        ensures
            tasks@ == pending_tasks(
                file_size as int,
                self.part_size_spec() as int,
                parts@,
                spec_chunk_count(file_size as int, self.part_size_spec() as int),
            ),
    {
        let p = self.binary_part_size;
        let n = self.chunk_count(file_size);
        let mut tasks: Vec<ChunkTask> = Vec::new();
        let mut k: u64 = 0;
        while k < n
            invariant
                p == self.part_size_spec(),
                p > 0,
                n == spec_chunk_count(file_size as int, p as int),
                k <= n,
                tasks@ == pending_tasks(file_size as int, p as int, parts@, k as int),
            decreases n - k,
        {
            let index = k + 1;
            proof {
                lemma_start_fits(file_size, p, k as int);
            }
            let start = p * k;
            let skip = match find_part(parts, index) {
                Some(found) => found.valid,
                None => false,
            };
            if !skip && start < file_size {
                let end = if file_size - start > p { start + p } else { file_size };
                tasks.push(ChunkTask { index, start, end });
            }
            k = index;
        }
        tasks
    }
}

/// Whether the server holds every part of the content, all accepted.
pub fn upload_complete(parts: &Vec<PartInfo>, count: u64) -> (b: bool)
    ensures
        b == spec_upload_complete(parts@, count as int),
        b <==> (parts@.len() == count && forall|i: int| 0 <= i < parts@.len() ==> #[trigger] parts@[i].valid),
        (exists|i: int| 0 <= i < parts@.len() && !#[trigger] parts@[i].valid) ==> !b,
{
    if parts.len() as u64 != count {
        return false;
    }
    let mut i: usize = 0;
    while i < parts.len()
        invariant
            i <= parts.len(),
            forall|j: int| 0 <= j < i ==> #[trigger] parts@[j].valid,
        decreases parts.len() - i,
    {
        if !parts[i].valid {
            return false;
        }
        i = i + 1;
    }
    true
}

proof fn lemma_count_covers(size: int, part: int)
    requires
        part > 0,
        size >= 0,
    ensures
        part * spec_chunk_count(size, part) >= size,
        spec_chunk_count(size, part) >= 0,
        size == 0 ==> spec_chunk_count(size, part) == 0,
        spec_chunk_count(size, part) <= size,
{
    let n = spec_chunk_count(size, part);
    let t = size + part - 1;
    assert(n * part > t - part) by (nonlinear_arith)
        requires
            n == t / part,
            part > 0,
            t >= 0,
    ;
    assert(n >= 0) by (nonlinear_arith)
        requires
            n == t / part,
            part > 0,
            t >= 0,
    ;
    if size == 0 {
        assert(n == 0) by (nonlinear_arith)
            requires
                n == (part - 1) / part,
                part > 0,
        ;
    } else {
        assert(n <= size) by (nonlinear_arith)
            requires
                n == t / part,
                t == size + part - 1,
                part > 0,
                size > 0,
        ;
    }
}

proof fn lemma_fresh_prefix(size: u64, part: u64, m: int)
    requires
        part > 0,
        0 <= m <= spec_chunk_count(size as int, part as int),
    ensures
        pending_tasks(size as int, part as int, Seq::empty(), m).len() == m,
        forall|k: int| 0 <= k < m ==> #[trigger] pending_tasks(size as int, part as int, Seq::empty(), m)[k]
            == task_for(size as int, part as int, k + 1),
    decreases m,
{
    if m > 0 {
        lemma_fresh_prefix(size, part, m - 1);
        lemma_start_fits(size, part, m - 1);
        assert(!already_uploaded(Seq::empty(), m));
        assert((part as int) * (m - 1) == part * (m - 1));
    }
}

/// With no part on the server yet, the parts to upload tile the content: there
/// are as many as the content has, the k-th (from zero) starts at k part
/// sizes, each ends where the next starts, none is empty or longer than a part,
/// and the last ends at the end of the content.
pub proof fn lemma_fresh_upload_tiles(size: u64, part: u64)
    requires
        part > 0,
    ensures
        ({
            let n = spec_chunk_count(size as int, part as int);
            let tasks = pending_tasks(size as int, part as int, Seq::empty(), n);
            &&& tasks.len() == n
            &&& forall|k: int| 0 <= k < n ==> (#[trigger] tasks[k]).index == k + 1 && tasks[k].start == part * k
                && tasks[k].start < tasks[k].end && tasks[k].end <= tasks[k].start + part
            &&& forall|k: int| 0 <= k < n - 1 ==> (#[trigger] tasks[k]).end == tasks[k + 1].start
                && tasks[k].end == tasks[k].start + part
            &&& n > 0 ==> tasks[n - 1].end == size
            &&& size == 0 <==> n == 0
        }),
{
    let n = spec_chunk_count(size as int, part as int);
    lemma_count_covers(size as int, part as int);
    lemma_fresh_prefix(size, part, n);
    let tasks = pending_tasks(size as int, part as int, Seq::empty(), n);
    assert forall|k: int| 0 <= k < n implies (#[trigger] tasks[k]).index == k + 1 && tasks[k].start == part * k
        && tasks[k].start < tasks[k].end && tasks[k].end <= tasks[k].start + part by {
        lemma_start_fits(size, part, k);
        assert(tasks[k] == task_for(size as int, part as int, k + 1));
        assert(part * k + part == part * (k + 1)) by (nonlinear_arith);
        assert(k + 1 <= size);
        assert(((k + 1) as u64) as int == k + 1);
        assert((part * ((k + 1) - 1)) == part * k);
    }
    assert forall|k: int| 0 <= k < n - 1 implies (#[trigger] tasks[k]).end == tasks[k + 1].start
        && tasks[k].end == tasks[k].start + part by {
        lemma_start_fits(size, part, k + 1);
        assert(tasks[k] == task_for(size as int, part as int, k + 1));
        assert(tasks[k + 1] == task_for(size as int, part as int, k + 2));
        assert(part * k + part == part * (k + 1)) by (nonlinear_arith);
    }
    if n > 0 {
        lemma_start_fits(size, part, n - 1);
        assert(tasks[n - 1] == task_for(size as int, part as int, n));
        assert(part * (n - 1) + part == part * n) by (nonlinear_arith);
    }
    if n == 0 && size > 0 {
        assert(part * n == 0) by (nonlinear_arith)
            requires
                n == 0,
        ;
    }
}

/// Whether the storage service accepted an uploaded part: a status of 200 or
/// 201.
pub fn upload_accepted(status: u16) -> (b: bool)
    ensures
        b == (200 <= status <= 201),
{
    200 <= status && status <= 201
}

proof fn lemma_pending_members(size: u64, part: u64, parts: Seq<PartInfo>, m: int)
    requires
        part > 0,
        0 <= m <= spec_chunk_count(size as int, part as int),
    ensures
        forall|j: int| 0 <= j < pending_tasks(size as int, part as int, parts, m).len() ==> exists|k: int|
            1 <= k <= m && !already_uploaded(parts, k) && #[trigger] pending_tasks(size as int, part as int, parts, m)[j]
                == task_for(size as int, part as int, k),
        forall|k: int| 1 <= k <= m && !already_uploaded(parts, k) ==> #[trigger] pending_tasks(
            size as int,
            part as int,
            parts,
            m,
        ).contains(task_for(size as int, part as int, k)),
    decreases m,
{
    if m > 0 {
        lemma_pending_members(size, part, parts, m - 1);
        lemma_start_fits(size, part, m - 1);
        let prev = pending_tasks(size as int, part as int, parts, m - 1);
        let cur = pending_tasks(size as int, part as int, parts, m);
        assert forall|j: int| 0 <= j < cur.len() implies exists|k: int|
            1 <= k <= m && !already_uploaded(parts, k) && #[trigger] cur[j] == task_for(size as int, part as int, k) by {
            if j < prev.len() {
                assert(cur[j] == prev[j]);
                let k = choose|k: int| 1 <= k <= m - 1 && !already_uploaded(parts, k) && #[trigger] prev[j]
                    == task_for(size as int, part as int, k);
                assert(cur[j] == task_for(size as int, part as int, k));
            } else {
                assert(cur[j] == task_for(size as int, part as int, m));
            }
        }
        assert forall|k: int| 1 <= k <= m && !already_uploaded(parts, k) implies #[trigger] cur.contains(
            task_for(size as int, part as int, k),
        ) by {
            if k < m {
                assert(prev.contains(task_for(size as int, part as int, k)));
                let j = choose|j: int| 0 <= j < prev.len() && prev[j] == task_for(size as int, part as int, k);
                assert(cur[j] == prev[j]);
            } else {
                assert(cur[cur.len() - 1] == task_for(size as int, part as int, m));
            }
        }
    }
}

/// A resumed upload sends exactly the parts the server does not hold as
/// accepted: every part it sends is one of the content's parts that is not
/// accepted yet, and every such part is sent.
pub proof fn lemma_resume_sends_missing_parts(size: u64, part: u64, parts: Seq<PartInfo>)
    requires
        part > 0,
    ensures
        ({
            let n = spec_chunk_count(size as int, part as int);
            let tasks = pending_tasks(size as int, part as int, parts, n);
            &&& forall|j: int| 0 <= j < tasks.len() ==> exists|k: int|
                1 <= k <= n && !already_uploaded(parts, k) && #[trigger] tasks[j] == task_for(size as int, part as int, k)
            &&& forall|k: int| 1 <= k <= n && !already_uploaded(parts, k) ==> #[trigger] tasks.contains(
                task_for(size as int, part as int, k),
            )
        }),
{
    lemma_pending_members(size, part, parts, spec_chunk_count(size as int, part as int));
}

} // verus!
