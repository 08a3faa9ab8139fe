use vstd::prelude::*;

verus! {

/// Number of items handed to the classifier in one call.
pub const BATCH_SIZE: usize = 10;

/// One classified item, as the classifier reports it.
///
/// The confidence is carried as the bit pattern of a 32-bit float: the
/// scan never reads it, it only keeps it alongside the path.
pub struct BuckDetection {
    pub path: String,
    pub has_buck: bool,
    pub confidence_bits: u32,
}

impl BuckDetection {
    /// A field-by-field copy.
    pub fn duplicate(&self) -> (r: BuckDetection)
        ensures
            r == *self,
    {
        BuckDetection {
            path: self.path.clone(),
            has_buck: self.has_buck,
            confidence_bits: self.confidence_bits,
        }
    }
}

/// What a scan reports back to the caller that started it.
pub struct ScanStartResult {
    pub total_images: usize,
}

/// A point-in-time copy of a scan's progress.
pub struct ScanProgress {
    pub total: usize,
    pub processed: usize,
    pub is_complete: bool,
    pub buck_images: Vec<BuckDetection>,
}

/// Why a scan could not be started.
#[derive(Debug, PartialEq, Eq, Structural)]
pub enum ScanError {
    /// The folder held no eligible item.
    NoItemsFound,
}

impl ScanError {
    pub fn message(&self) -> (r: String)
        ensures
            r@ == "No images found in the selected folder"@,
    {
        "No images found in the selected folder".to_owned()
    }
}

/// The items of `s` that the classifier matched, in their order.
pub open spec fn matches_of(s: Seq<BuckDetection>) -> Seq<BuckDetection>
    decreases s.len(),
{
    if s.len() == 0 {
        Seq::empty()
    } else {
        let rest = matches_of(s.drop_last());
        if s.last().has_buck {
            rest.push(s.last())
        } else {
            rest
        }
    }
}

/// The number of batches that `n` items fill.
pub open spec fn batch_count(n: nat) -> nat {
    ((n + BATCH_SIZE - 1) / (BATCH_SIZE as int)) as nat
}

/// Batch `k` of `items`: the items from `k * BATCH_SIZE` on, at most `BATCH_SIZE` of them.
pub open spec fn batch_at(items: Seq<String>, k: int) -> Seq<String> {
    let lo = k * BATCH_SIZE;
    let hi = if (k + 1) * BATCH_SIZE <= items.len() {
        (k + 1) * BATCH_SIZE
    } else {
        items.len() as int
    };
    items.subrange(lo, hi)
}

/// `items` cut, in order, into batches of `BATCH_SIZE`; the last may be shorter.
pub open spec fn batches_of(items: Seq<String>) -> Seq<Seq<String>> {
    Seq::new(batch_count(items.len()), |k: int| batch_at(items, k))
}

/// Every batch but the last holds `BATCH_SIZE` items, the last between one and `BATCH_SIZE`.
pub open spec fn well_sized(b: Seq<Seq<String>>) -> bool {
    forall|i: int|
        #![trigger b[i]]
        0 <= i < b.len() ==> 1 <= b[i].len() <= BATCH_SIZE && (i < b.len() - 1 ==> b[i].len()
            == BATCH_SIZE)
}

/// The number of items in well-sized batches.
pub open spec fn items_in(b: Seq<Seq<String>>) -> nat {
    if b.len() == 0 {
        0
    } else {
        ((b.len() - 1) * BATCH_SIZE + b.last().len()) as nat
    }
}

/// The abstract state of a scan.
pub struct ScanView {
    pub total: nat,
    pub processed: nat,
    pub is_complete: bool,
    pub is_scanning: bool,
    pub results: Seq<BuckDetection>,
    pub source_folder: Option<Seq<char>>,
    pub generation: nat,
    /// The batches of the current scan, and how many of them are done.
    pub batches: Seq<Seq<String>>,
    pub cursor: nat,
}

impl ScanView {
    pub open spec fn wf(self) -> bool {
        &&& self.cursor <= self.batches.len()
        &&& well_sized(self.batches)
        &&& self.total == items_in(self.batches)
        &&& self.total <= usize::MAX
        &&& self.generation <= u64::MAX
        &&& self.processed == if self.cursor < self.batches.len() {
            self.cursor * BATCH_SIZE
        } else {
            self.total as int
        }
        &&& self.is_scanning == (self.cursor < self.batches.len())
        &&& self.is_complete == (self.batches.len() > 0 && self.cursor == self.batches.len())
    }

    /// The state right after a scan of `items` under `folder` starts.
    /// With no items nothing starts and nothing changes.
    pub open spec fn start(self, folder: Seq<char>, items: Seq<String>) -> ScanView {
        if items.len() == 0 {
            self
        } else {
            ScanView {
                total: items.len(),
                processed: 0,
                is_complete: false,
                is_scanning: true,
                results: Seq::empty(),
                source_folder: Some(folder),
                generation: if self.generation >= u64::MAX {
                    0
                } else {
                    self.generation + 1
                },
                batches: batches_of(items),
                cursor: 0,
            }
        }
    }

    /// The state after the classifier answered for the next batch of scan
    /// `generation`: `Some` with its results, or `None` when the call failed.
    /// A failed batch counts as attempted with no match. An answer of a scan
    /// that a later start superseded, or one that comes after the last batch,
    /// changes nothing.
    pub open spec fn after_batch(
        self,
        generation: nat,
        found: Option<Seq<BuckDetection>>,
    ) -> ScanView {
        if generation == self.generation && self.cursor < self.batches.len() {
            let c = self.cursor + 1;
            ScanView {
                processed: self.processed + self.batches[self.cursor as int].len(),
                is_complete: c == self.batches.len(),
                is_scanning: c < self.batches.len(),
                results: match found {
                    Some(f) => self.results + matches_of(f),
                    None => self.results,
                },
                cursor: c,
                ..self
            }
        } else {
            self
        }
    }

    /// The state after the answers `outcomes` came in, in order, for scan `generation`.
    pub open spec fn run(
        self,
        generation: nat,
        outcomes: Seq<Option<Seq<BuckDetection>>>,
    ) -> ScanView
        decreases outcomes.len(),
    {
        if outcomes.len() == 0 {
            self
        } else {
            self.after_batch(generation, outcomes[0]).run(generation, outcomes.drop_first())
        }
    }
}

/// Folding in an answer keeps the state well formed.
pub proof fn lemma_after_batch_wf(v: ScanView, generation: nat, found: Option<Seq<BuckDetection>>)
    requires
        v.wf(),
    ensures
        v.after_batch(generation, found).wf(),
        v.after_batch(generation, found).total == v.total,
        v.after_batch(generation, found).generation == v.generation,
        v.after_batch(generation, found).batches == v.batches,
{
    if generation == v.generation && v.cursor < v.batches.len() {
        let b = v.batches;
        assert(b[v.cursor as int].len() <= BATCH_SIZE);
        if v.cursor + 1 < b.len() {
            assert(b[v.cursor as int].len() == BATCH_SIZE);
        }
    }
}

/// Every scan ends: once each remaining batch has been answered, whether the
/// classifier succeeded or failed on it, all items are processed and the scan
/// is complete.
pub proof fn lemma_scan_completes(v: ScanView, outcomes: Seq<Option<Seq<BuckDetection>>>)
    requires
        v.wf(),
        v.batches.len() > 0,
        outcomes.len() == v.batches.len() - v.cursor,
    ensures
        v.run(v.generation, outcomes).processed == v.total,
        v.run(v.generation, outcomes).total == v.total,
        v.run(v.generation, outcomes).is_complete,
        !v.run(v.generation, outcomes).is_scanning,
    decreases outcomes.len(),
{
    if outcomes.len() > 0 {
        let next = v.after_batch(v.generation, outcomes[0]);
        lemma_after_batch_wf(v, v.generation, outcomes[0]);
        lemma_scan_completes(next, outcomes.drop_first());
    }
}

/// The processed count never goes down, and the total never changes, while
/// answers come in.
pub proof fn lemma_processed_monotone(
    v: ScanView,
    generation: nat,
    outcomes: Seq<Option<Seq<BuckDetection>>>,
)
    requires
        v.wf(),
    ensures
        v.processed <= v.run(generation, outcomes).processed,
        v.run(generation, outcomes).total == v.total,
    decreases outcomes.len(),
{
    if outcomes.len() > 0 {
        lemma_after_batch_wf(v, generation, outcomes[0]);
        lemma_processed_monotone(
            v.after_batch(generation, outcomes[0]),
            generation,
            outcomes.drop_first(),
        );
    }
}

/// The results only grow while answers come in: what was there stays, in
/// its place.
pub proof fn lemma_results_grow(
    v: ScanView,
    generation: nat,
    outcomes: Seq<Option<Seq<BuckDetection>>>,
)
    ensures
        v.results.len() <= v.run(generation, outcomes).results.len(),
        v.run(generation, outcomes).results.subrange(0, v.results.len() as int) == v.results,
    decreases outcomes.len(),
{
    if outcomes.len() > 0 {
        let next = v.after_batch(generation, outcomes[0]);
        assert(next.results.subrange(0, v.results.len() as int) =~= v.results);
        lemma_results_grow(next, generation, outcomes.drop_first());
        let e = v.run(generation, outcomes);
        assert(e.results.subrange(0, v.results.len() as int) =~= next.results.subrange(
            0,
            v.results.len() as int,
        ));
    }
}

/// The processed count always stands on a batch boundary: a whole number of
/// full batches, or the total once the last batch is in.
pub proof fn lemma_processed_on_batch_boundary(v: ScanView)
    requires
        v.wf(),
    ensures
        v.processed == if v.cursor * BATCH_SIZE <= v.total {
            v.cursor * BATCH_SIZE
        } else {
            v.total as int
        },
        v.processed % (BATCH_SIZE as nat) == 0 || v.processed == v.total,
        v.processed <= v.total,
{
    if v.cursor < v.batches.len() {
        assert(v.cursor * 10 <= (v.batches.len() - 1) * 10);
    } else if v.batches.len() > 0 {
        assert(v.batches.last().len() >= 1);
        assert(v.batches.last().len() <= BATCH_SIZE);
    }
}

/// An answer for a scan that a later start superseded changes nothing.
pub proof fn lemma_stale_answer_ignored(
    v: ScanView,
    generation: nat,
    found: Option<Seq<BuckDetection>>,
)
    requires
        generation != v.generation,
    ensures
        v.after_batch(generation, found) == v,
{
}

/// The classifier's answer as the scan sees it: its results, or `None` when the call failed.
pub open spec fn answer_of(outcome: &Result<Vec<BuckDetection>, String>) -> Option<
    Seq<BuckDetection>,
> {
    match outcome {
        Ok(v) => Some(v@),
        Err(_) => None,
    }
}

/// The shared record of one scan's progress and results.
pub struct ScanStateInner {
    total: usize,
    processed: usize,
    is_complete: bool,
    is_scanning: bool,
    buck_images: Vec<BuckDetection>,
    source_folder: Option<String>,
    generation: u64,
    batches: Vec<Vec<String>>,
    cursor: usize,
}

impl View for ScanStateInner {
    type V = ScanView;

    closed spec fn view(&self) -> ScanView {
        ScanView {
            total: self.total as nat,
            processed: self.processed as nat,
            is_complete: self.is_complete,
            is_scanning: self.is_scanning,
            results: self.buck_images@,
            source_folder: match self.source_folder {
                Some(s) => Some(s@),
                None => None,
            },
            generation: self.generation as nat,
            batches: self.batches@.map_values(|b: Vec<String>| b@),
            cursor: self.cursor as nat,
        }
    }
}


/// The batches of `items` are well sized and hold exactly the items.
pub proof fn lemma_batches_of_sized(items: Seq<String>)
    requires
        items.len() > 0,
    ensures
        well_sized(batches_of(items)),
        items_in(batches_of(items)) == items.len(),
        batches_of(items).len() > 0,
{
    let n = items.len();
    let cnt = batch_count(n);
    assert(cnt * 10 >= n && (cnt - 1) * 10 < n && cnt >= 1);
    let b = batches_of(items);
    assert forall|i: int| #![trigger b[i]] 0 <= i < b.len() implies 1 <= b[i].len() <= BATCH_SIZE
        && (i < b.len() - 1 ==> b[i].len() == BATCH_SIZE) by {
        assert(i * 10 < n);
        if i < b.len() - 1 {
            assert((i + 1) * 10 <= (cnt - 1) * 10);
        }
    }
}

/// Cuts `items`, in order, into batches of `BATCH_SIZE`; the last may be shorter.
pub fn partition_batches(items: &Vec<String>) -> (r: Vec<Vec<String>>)
    ensures
        r@.map_values(|b: Vec<String>| b@) == batches_of(items@),
{
    let n = items.len();
    let mut batches: Vec<Vec<String>> = Vec::new();
    let mut i: usize = 0;
    while i < n
        invariant
            n == items@.len(),
            i <= n,
            i < n ==> i == batches@.len() * BATCH_SIZE,
            i == n ==> batches@.len() == batch_count(n as nat),
            batches@.len() * BATCH_SIZE < n + BATCH_SIZE,
            forall|k: int|
                #![trigger batches@[k]]
                0 <= k < batches@.len() ==> batches@[k]@ == batch_at(items@, k),
        decreases n - i,
    {
        let end: usize = if n - i > BATCH_SIZE {
            i + BATCH_SIZE
        } else {
            n
        };
        let mut batch: Vec<String> = Vec::new();
        let mut j: usize = i;
        while j < end
            invariant
                i <= j <= end <= n,
                n == items@.len(),
                batch@ == items@.subrange(i as int, j as int),
            decreases end - j,
        {
            batch.push(items[j].clone());
            j = j + 1;
            assert(batch@ =~= items@.subrange(i as int, j as int));
        }
        assert(batch@ == batch_at(items@, batches@.len() as int));
        batches.push(batch);
        i = end;
    }
    assert(batches@.map_values(|b: Vec<String>| b@) =~= batches_of(items@));
    batches
}


impl ScanStateInner {
    /// The state at process start: no scan has run.
    pub fn new() -> (r: ScanStateInner)
        ensures
            r@.wf(),
            r@.total == 0,
            r@.processed == 0,
            !r@.is_complete,
            !r@.is_scanning,
            r@.results.len() == 0,
            r@.source_folder is None,
            r@.generation == 0,
            r@.batches.len() == 0,
            r@.cursor == 0,
    {
        let r = ScanStateInner {
            total: 0,
            processed: 0,
            is_complete: false,
            is_scanning: false,
            buck_images: Vec::new(),
            source_folder: None,
            generation: 0,
            batches: Vec::new(),
            cursor: 0,
        };
        assert(r@.batches =~= Seq::<Seq<String>>::empty());
        r
    }

    /// Starts a scan of `items` found under `folder`. With no items it fails
    /// and leaves the state as it was; else the state is reset for the new
    /// scan, under a new generation, and the number of items is returned.
    pub fn start_scan(&mut self, folder: String, items: &Vec<String>) -> (r: Result<
        ScanStartResult,
        ScanError,
    >)
        requires
            old(self)@.wf(),
        ensures
            final(self)@.wf(),
            final(self)@ == old(self)@.start(folder@, items@),
            r is Err <==> items@.len() == 0,
            r matches Err(e) ==> e == ScanError::NoItemsFound,
            r matches Ok(s) ==> s.total_images == items@.len(),
    {
        let n = items.len();
        if n == 0 {
            return Err(ScanError::NoItemsFound);
        }
        let batches = partition_batches(items);
        proof {
            lemma_batches_of_sized(items@);
        }
        self.total = n;
        self.processed = 0;
        self.is_complete = false;
        self.is_scanning = true;
        self.buck_images = Vec::new();
        self.source_folder = Some(folder);
        self.generation = self.generation.wrapping_add(1);
        self.batches = batches;
        self.cursor = 0;
        assert(self@.results =~= Seq::<BuckDetection>::empty());
        assert(self@ =~= old(self)@.start(folder@, items@));
        Ok(ScanStartResult { total_images: n })
    }

    /// The generation of the scan that most recently started.
    pub fn generation(&self) -> (r: u64)
        ensures
            r == self@.generation,
    {
        self.generation
    }

    /// The items of the next batch to classify for scan `generation`, while
    /// that scan runs and no later one has started.
    pub fn next_batch(&self, generation: u64) -> (r: Option<Vec<String>>)
        requires
            self@.wf(),
        ensures
            r is Some <==> self@.is_scanning && generation == self@.generation,
            r matches Some(b) ==> b@ == self@.batches[self@.cursor as int],
    {
        if generation == self.generation && self.cursor < self.batches.len() {
            let src = &self.batches[self.cursor];
            let mut b: Vec<String> = Vec::new();
            let mut j: usize = 0;
            while j < src.len()
                invariant
                    j <= src@.len(),
                    b@ == src@.subrange(0, j as int),
                decreases src@.len() - j,
            {
                b.push(src[j].clone());
                j = j + 1;
                assert(b@ =~= src@.subrange(0, j as int));
            }
            assert(b@ =~= src@);
            Some(b)
        } else {
            None
        }
    }

    /// Folds the classifier's answer for the next batch of scan `generation`
    /// into the state: `Ok` with its results, `Err` when the call failed.
    /// Either way the batch counts as processed; only matches are kept.
    /// An answer for a superseded scan changes nothing.
    pub fn complete_batch(&mut self, generation: u64, outcome: Result<Vec<BuckDetection>, String>)
        requires
            old(self)@.wf(),
        ensures
            final(self)@.wf(),
            final(self)@ == old(self)@.after_batch(generation as nat, answer_of(&outcome)),
    {
        if generation != self.generation || self.cursor >= self.batches.len() {
            return;
        }
        let ghost v0 = self@;
        let ghost found_view = answer_of(&outcome);
        let len = self.batches[self.cursor].len();
        proof {
            let b = v0.batches;
            assert(b[self.cursor as int] == self.batches@[self.cursor as int]@);
            if self.cursor + 1 < b.len() {
                assert(b[self.cursor as int].len() == BATCH_SIZE);
                assert((self.cursor + 1) * 10 <= (b.len() - 1) * 10);
            }
        }
        self.processed = self.processed + len;
        self.cursor = self.cursor + 1;
        self.is_complete = self.cursor == self.batches.len();
        self.is_scanning = self.cursor < self.batches.len();
        if let Ok(found) = &outcome {
            let ghost base = self.buck_images@;
            let ghost mid = self@;
            let mut i: usize = 0;
            while i < found.len()
                invariant
                    self@ == (ScanView { results: self.buck_images@, ..mid }),
                    i <= found@.len(),
                    self.buck_images@ == base + matches_of(found@.take(i as int)),
                decreases found@.len() - i,
            {
                assert(found@.take(i + 1).drop_last() =~= found@.take(i as int));
                if found[i].has_buck {
                    self.buck_images.push(found[i].duplicate());
                }
                i = i + 1;
                assert(self.buck_images@ =~= base + matches_of(found@.take(i as int)));
            }
            assert(found@.take(found@.len() as int) =~= found@);
        }
        assert(self@ =~= v0.after_batch(generation as nat, found_view));
    }

    /// A copy of the progress: counts, completion and the matches so far.
    pub fn snapshot(&self) -> (r: ScanProgress)
        ensures
            r.total == self@.total,
            r.processed == self@.processed,
            r.is_complete == self@.is_complete,
            r.buck_images@ == self@.results,
    {
        let mut out: Vec<BuckDetection> = Vec::new();
        let mut i: usize = 0;
        while i < self.buck_images.len()
            invariant
                i <= self.buck_images@.len(),
                out@ == self.buck_images@.take(i as int),
            decreases self.buck_images@.len() - i,
        {
            out.push(self.buck_images[i].duplicate());
            i = i + 1;
            assert(out@ =~= self.buck_images@.take(i as int));
        }
        assert(out@ =~= self.buck_images@);
        ScanProgress {
            total: self.total,
            processed: self.processed,
            is_complete: self.is_complete,
            buck_images: out,
        }
    }

    pub fn total(&self) -> (r: usize)
        ensures
            r == self@.total,
    {
        self.total
    }

    pub fn processed(&self) -> (r: usize)
        ensures
            r == self@.processed,
    {
        self.processed
    }

    pub fn is_complete(&self) -> (r: bool)
        ensures
            r == self@.is_complete,
    {
        self.is_complete
    }

    pub fn is_scanning(&self) -> (r: bool)
        ensures
            r == self@.is_scanning,
    {
        self.is_scanning
    }

    pub fn source_folder(&self) -> (r: Option<String>)
        ensures
            r matches Some(s) ==> self@.source_folder == Some(s@),
            r is None ==> self@.source_folder is None,
    {
        match &self.source_folder {
            Some(s) => Some(s.clone()),
            None => None,
        }
    }
}

} // verus!
