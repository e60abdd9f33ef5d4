use crate::util::{append_bytes, be_bytes, hash, sha256_of, u128_to_be};
use vstd::prelude::*;

verus! {

/// Bit `i` of a byte sequence, counting from the most significant bit of
/// the first byte.
pub open spec fn bit_at(s: Seq<u8>, i: int) -> bool {
    (s[i / 8] >> ((7 - i % 8) as u8)) & 1u8 == 1u8
}

/// The mask of difficulty `d`: `d` zero bits, then one bits up to the end of
/// the byte that follows them (a whole byte of ones when `d` is a multiple
/// of eight).
pub open spec fn mask_for(d: u8) -> Seq<u8> {
    Seq::new((d / 8) as nat, |_j: int| 0u8).push(0xffu8 >> (d % 8))
}

/// A hash satisfies a mask when, on every byte of the mask, the hash has
/// no one bit where the mask has a zero bit.
pub open spec fn satisfies(hash: Seq<u8>, mask: Seq<u8>) -> bool {
    &&& mask.len() <= hash.len()
    &&& forall|i: int| 0 <= i < mask.len() ==> (#[trigger] hash[i] | mask[i]) == mask[i]
}

/// Given a difficulty level, returns the byte mask that a hash is checked
/// against.
pub fn parse_diff_to_mask(diff: u8) -> (r: Vec<u8>)
    ensures
        r@ == mask_for(diff),
{
    let mut mask: Vec<u8> = Vec::new();
    let full: u8 = diff / 8;
    let mut j: u8 = 0;
    while j < full
        invariant
            j <= full,
            full == diff / 8,
            mask@ == Seq::new(j as nat, |_j: int| 0u8),
        decreases full - j,
    {
        mask.push(0);
        j = j + 1;
        assert(mask@ =~= Seq::new(j as nat, |_j: int| 0u8));
    }
    mask.push(0xffu8 >> (diff % 8));
    mask
}

/// Whether `hash` satisfies `mask`.
pub fn hash_meets_mask(hash: &[u8; 32], mask: &Vec<u8>) -> (r: bool)
    ensures
        r == satisfies(hash@, mask@),
{
    if mask.len() > 32 {
        return false;
    }
    let mut i: usize = 0;
    while i < mask.len()
        invariant
            i <= mask@.len() <= 32,
            hash@.len() == 32,
            forall|k: int| 0 <= k < i ==> (#[trigger] hash@[k] | mask@[k]) == mask@[k],
        decreases mask@.len() - i,
    {
        if hash[i] | mask[i] != mask[i] {
            return false;
        }
        i = i + 1;
    }
    true
}

proof fn lemma_zero_byte_bits(s: u8)
    by (bit_vector)
    ensures
        (0u8 >> s) & 1u8 != 1u8,
{
}

proof fn lemma_low_ones_bit(k: u8, b: u8)
    by (bit_vector)
    requires
        k < 8,
        b < 8,
    ensures
        ((0xffu8 >> k) >> ((7 - b) as u8)) & 1u8 == 1u8 <==> b >= k,
{
}

proof fn lemma_or_within_mask_bit(x: u8, m: u8, s: u8)
    by (bit_vector)
    requires
        x | m == m,
        (m >> s) & 1u8 != 1u8,
    ensures
        (x >> s) & 1u8 != 1u8,
{
}

/// The mask of difficulty `d` is `ceil((d + pad) / 8)` bytes long, where
/// `pad` (one to eight) fills the last byte with ones, and reads as exactly
/// `d` zero bits followed by one bits.
pub proof fn lemma_mask_layout(d: u8)
    ensures
        mask_for(d).len() == (d + (8 - d % 8)) / 8,
        forall|i: int|
            0 <= i < 8 * mask_for(d).len() ==> (#[trigger] bit_at(mask_for(d), i) <==> i >= d),
{
    let m = mask_for(d);
    assert forall|i: int| 0 <= i < 8 * m.len() implies (#[trigger] bit_at(m, i) <==> i >= d) by {
        let j = i / 8;
        let b = i % 8;
        if j < d / 8 {
            assert(m[j] == 0u8);
            lemma_zero_byte_bits((7 - b) as u8);
        } else {
            assert(j == d / 8);
            assert(m[j] == 0xffu8 >> (d % 8));
            lemma_low_ones_bit(d % 8, b as u8);
        }
    }
}

/// Every hash that satisfies the mask of difficulty `d` starts with `d`
/// zero bits.
pub proof fn lemma_satisfying_hash_leading_zeros(d: u8, h: Seq<u8>)
    requires
        satisfies(h, mask_for(d)),
    ensures
        forall|i: int| 0 <= i < d ==> !#[trigger] bit_at(h, i),
{
    let m = mask_for(d);
    lemma_mask_layout(d);
    assert forall|i: int| 0 <= i < d implies !#[trigger] bit_at(h, i) by {
        let j = i / 8;
        assert(0 <= j < m.len());
        assert(!bit_at(m, i));
        assert((h[j] | m[j]) == m[j]);
        lemma_or_within_mask_bit(h[j], m[j], (7 - i % 8) as u8);
    }
}

proof fn lemma_zero_bits_make_zero_byte(x: u8)
    by (bit_vector)
    requires
        (x >> 7u8) & 1u8 != 1u8,
        (x >> 6u8) & 1u8 != 1u8,
        (x >> 5u8) & 1u8 != 1u8,
        (x >> 4u8) & 1u8 != 1u8,
        (x >> 3u8) & 1u8 != 1u8,
        (x >> 2u8) & 1u8 != 1u8,
        (x >> 1u8) & 1u8 != 1u8,
        (x >> 0u8) & 1u8 != 1u8,
    ensures
        x | 0u8 == 0u8,
{
}

proof fn lemma_high_zero_bits_within_mask(x: u8, k: u8)
    by (bit_vector)
    requires
        k < 8,
        0 < k ==> (x >> 7u8) & 1u8 != 1u8,
        1 < k ==> (x >> 6u8) & 1u8 != 1u8,
        2 < k ==> (x >> 5u8) & 1u8 != 1u8,
        3 < k ==> (x >> 4u8) & 1u8 != 1u8,
        4 < k ==> (x >> 3u8) & 1u8 != 1u8,
        5 < k ==> (x >> 2u8) & 1u8 != 1u8,
        6 < k ==> (x >> 1u8) & 1u8 != 1u8,
    ensures
        x | (0xffu8 >> k) == 0xffu8 >> k,
{
}

/// A hash as long as the mask of difficulty `d` that starts with `d` zero
/// bits satisfies that mask; with the law above, a hash satisfies the mask
/// exactly when its first `d` bits are zero.
pub proof fn lemma_leading_zeros_satisfy_mask(d: u8, h: Seq<u8>)
    requires
        h.len() >= mask_for(d).len(),
        forall|i: int| 0 <= i < d ==> !#[trigger] bit_at(h, i),
    ensures
        satisfies(h, mask_for(d)),
{
    let m = mask_for(d);
    assert forall|j: int| 0 <= j < m.len() implies (#[trigger] h[j] | m[j]) == m[j] by {
        assert(!bit_at(h, 8 * j + 0) || 8 * j + 0 >= d);
        assert(!bit_at(h, 8 * j + 1) || 8 * j + 1 >= d);
        assert(!bit_at(h, 8 * j + 2) || 8 * j + 2 >= d);
        assert(!bit_at(h, 8 * j + 3) || 8 * j + 3 >= d);
        assert(!bit_at(h, 8 * j + 4) || 8 * j + 4 >= d);
        assert(!bit_at(h, 8 * j + 5) || 8 * j + 5 >= d);
        assert(!bit_at(h, 8 * j + 6) || 8 * j + 6 >= d);
        assert(!bit_at(h, 8 * j + 7) || 8 * j + 7 >= d);
        if j < d / 8 {
            assert(m[j] == 0u8);
            lemma_zero_bits_make_zero_byte(h[j]);
        } else {
            assert(j == d / 8);
            assert(m[j] == 0xffu8 >> (d % 8));
            lemma_high_zero_bits_within_mask(h[j], d % 8);
        }
    }
}

/// The bytes a worker hashes for a nonce: the nonce as sixteen big-endian
/// bytes, then the payload.
pub open spec fn candidate(nonce: u128, payload: Seq<u8>) -> Seq<u8> {
    be_bytes(nonce as nat, 16) + payload
}

/// Builds the bytes hashed for `nonce` over `payload`.
pub fn candidate_bytes(nonce: u128, payload: &Vec<u8>) -> (r: Vec<u8>)
    ensures
        r@ == candidate(nonce, payload@),
{
    let prefix = u128_to_be(nonce);
    let mut data: Vec<u8> = Vec::new();
    append_bytes(&mut data, prefix.as_slice());
    append_bytes(&mut data, payload.as_slice());
    data
}

/// Whether two digests are equal, byte by byte.
fn digests_equal(a: &[u8; 32], b: &[u8; 32]) -> (r: bool)
    ensures
        r == (a@ == b@),
{
    let mut i: usize = 0;
    while i < 32
        invariant
            i <= 32,
            a@.len() == 32,
            b@.len() == 32,
            forall|k: int| 0 <= k < i ==> a@[k] == b@[k],
        decreases 32 - i,
    {
        if a[i] != b[i] {
            return false;
        }
        i = i + 1;
    }
    assert(a@ =~= b@);
    true
}

/// One mining worker: it owns its nonce counter and a copy of the payload
/// and mask of the job it works on.
pub struct MiningWorker {
    pub nonce: u128,
    pub payload: Vec<u8>,
    pub mask: Vec<u8>,
    pub finished: bool,
}

/// What one step of a worker came to.
#[derive(Debug)]
pub enum WorkerStep {
    /// The nonce and the hash it gave, which satisfies the mask.
    Found(u128, [u8; 32]),
    /// The nonce failed; the worker moved on to the next one.
    Searching,
    /// The worker is done and reports nothing more.
    Stopped,
}

impl MiningWorker {
    /// A worker that starts its search at nonce `start`.
    pub fn new(start: u128, payload: Vec<u8>, mask: Vec<u8>) -> (r: MiningWorker)
        ensures
            r.nonce == start,
            r.payload@ == payload@,
            r.mask@ == mask@,
            !r.finished,
    {
        MiningWorker { nonce: start, payload, mask, finished: false }
    }

    /// One iteration of the search. A worker that was cancelled, or that has
    /// already finished, stops and never reports again. Otherwise it hashes
    /// its current nonce with the payload: a hash that satisfies the mask is
    /// reported and ends the search, any other moves the worker to the next
    /// nonce (the search ends after the largest nonce).
    pub fn step(&mut self, cancelled: bool) -> (r: WorkerStep)
        ensures
            final(self).payload@ == old(self).payload@,
            final(self).mask@ == old(self).mask@,
            old(self).finished || cancelled ==> {
                &&& r is Stopped
                &&& final(self).finished
                &&& final(self).nonce == old(self).nonce
            },
            !old(self).finished && !cancelled ==> {
                let h = sha256_of(candidate(old(self).nonce, old(self).payload@));
                if satisfies(h, old(self).mask@) {
                    &&& r is Found
                    &&& r->Found_0 == old(self).nonce
                    &&& r->Found_1@ == h
                    &&& final(self).finished
                    &&& final(self).nonce == old(self).nonce
                } else if old(self).nonce == u128::MAX {
                    &&& r is Stopped
                    &&& final(self).finished
                    &&& final(self).nonce == old(self).nonce
                } else {
                    &&& r is Searching
                    &&& !final(self).finished
                    &&& final(self).nonce == old(self).nonce + 1
                }
            },
    {
        if self.finished || cancelled {
            self.finished = true;
            return WorkerStep::Stopped;
        }
        let data = candidate_bytes(self.nonce, &self.payload);
        let hashed = hash(&data);
        if hash_meets_mask(&hashed, &self.mask) {
            self.finished = true;
            return WorkerStep::Found(self.nonce, hashed);
        }
        if self.nonce == u128::MAX {
            self.finished = true;
            return WorkerStep::Stopped;
        }
        self.nonce = self.nonce + 1;
        WorkerStep::Searching
    }
}

/// The first nonce of each of `n` equal contiguous ranges of the nonce space.
pub open spec fn nonce_starts(n: u8) -> Seq<u128>
    recommends
        n > 0,
{
    Seq::new(n as nat, |i: int| (i * (u128::MAX as int / n as int)) as u128)
}

/// Splits the nonce space into `worker_count` equal contiguous ranges and
/// returns the first nonce of each.
pub fn partition_nonces(worker_count: u8) -> (r: Vec<u128>)
    requires
        worker_count > 0,
    ensures
        r@ == nonce_starts(worker_count),
{
    let range: u128 = u128::MAX / worker_count as u128;
    let mut starts: Vec<u128> = Vec::new();
    let mut start: u128 = 0;
    let mut i: u8 = 0;
    while i < worker_count
        invariant
            i <= worker_count,
            worker_count > 0,
            range == u128::MAX as int / worker_count as int,
            start == i * range,
            starts@ =~= Seq::new(i as nat, |k: int| (k * (u128::MAX as int / worker_count as int)) as u128),
        decreases worker_count - i,
    {
        starts.push(start);
        assert((i + 1) * range <= u128::MAX) by (nonlinear_arith)
            requires
                i + 1 <= worker_count,
                worker_count > 0,
                range == u128::MAX as int / worker_count as int,
        {
            assert(worker_count * (u128::MAX as int / worker_count as int) <= u128::MAX);
        }
        assert((i + 1) * range == i * range + range) by (nonlinear_arith);
        start = start + range;
        i = i + 1;
    }
    starts
}

/// Commands accepted by the mining manager, in the order they were sent.
#[allow(non_camel_case_types)]
#[derive(Debug)]
pub enum MinerCommand {
    /// Cancel every worker and stop the manager.
    KILL,
    /// Set the difficulty of the next search.
    UPDATE_DIFF(u8),
    /// Set the payload of the next search.
    UPDATE_DATA(Vec<u8>),
    /// Start a search with the latest difficulty and payload.
    START,
}

/// Why a mining manager could not be made.
#[derive(Debug, Clone, Copy, PartialEq, Eq, Structural)]
pub enum MinerError {
    /// A search needs at least one worker.
    ZeroWorkers,
}

/// Where a mining manager stands.
#[derive(Debug, Clone, Copy, PartialEq, Eq, Structural)]
pub enum ManagerPhase {
    /// No search is running.
    Idle,
    /// Workers are searching for the current job.
    Searching,
    /// The manager was killed and takes no more commands.
    Terminated,
}

/// The payload and mask of one search, fixed while it runs.
pub struct MiningJob {
    pub data: Vec<u8>,
    pub difficulty_mask: Vec<u8>,
}

/// What the manager asks of the code that runs it.
#[derive(Debug)]
pub enum ManagerAction {
    /// Spawn one worker per start nonce on the payload and mask, tagging
    /// the results they send with the job number.
    SpawnWorkers { job: u64, starts: Vec<u128>, data: Vec<u8>, mask: Vec<u8> },
    /// Cancel every worker spawned so far.
    CancelWorkers,
    /// Hand a solution (big-endian nonce and hash) to the manager's caller.
    Report { nonce: [u8; 16], hash: [u8; 32] },
    /// Stop the manager.
    Terminate,
}

/// The mathematical value of a manager action.
pub enum Action {
    SpawnWorkers { job: u64, starts: Seq<u128>, data: Seq<u8>, mask: Seq<u8> },
    CancelWorkers,
    Report { nonce: Seq<u8>, hash: Seq<u8> },
    Terminate,
}

impl View for ManagerAction {
    type V = Action;

    open spec fn view(&self) -> Action {
        match self {
            ManagerAction::SpawnWorkers { job, starts, data, mask } => Action::SpawnWorkers {
                job: *job,
                starts: starts@,
                data: data@,
                mask: mask@,
            },
            ManagerAction::CancelWorkers => Action::CancelWorkers,
            ManagerAction::Report { nonce, hash } => Action::Report { nonce: nonce@, hash: hash@ },
            ManagerAction::Terminate => Action::Terminate,
        }
    }
}

/// The values of a sequence of actions.
pub open spec fn actions_view(actions: Seq<ManagerAction>) -> Seq<Action> {
    actions.map_values(|a: ManagerAction| a@)
}

/// The mathematical state of a mining manager.
pub struct ManagerState {
    pub worker_count: u8,
    pub diff: u8,
    pub data: Seq<u8>,
    pub phase: ManagerPhase,
    pub job_id: u64,
    pub job_data: Seq<u8>,
    pub job_mask: Seq<u8>,
}

/// The number that follows `id` among job numbers (they wrap around).
pub open spec fn next_job_id(id: u64) -> u64 {
    if id == u64::MAX {
        0
    } else {
        (id + 1) as u64
    }
}

/// How the manager answers a command: its next state and its actions.
pub open spec fn on_command(s: ManagerState, cmd: MinerCommand) -> (ManagerState, Seq<Action>) {
    if s.phase == ManagerPhase::Terminated {
        (s, Seq::empty())
    } else {
        match cmd {
            MinerCommand::KILL => (
                ManagerState { phase: ManagerPhase::Terminated, ..s },
                seq![Action::CancelWorkers, Action::Terminate],
            ),
            MinerCommand::UPDATE_DIFF(d) => (ManagerState { diff: d, ..s }, Seq::empty()),
            MinerCommand::UPDATE_DATA(b) => (ManagerState { data: b@, ..s }, Seq::empty()),
            MinerCommand::START => {
                let id = next_job_id(s.job_id);
                let next = ManagerState {
                    phase: ManagerPhase::Searching,
                    job_id: id,
                    job_data: s.data,
                    job_mask: mask_for(s.diff),
                    ..s
                };
                let spawn = Action::SpawnWorkers {
                    job: id,
                    starts: nonce_starts(s.worker_count),
                    data: s.data,
                    mask: mask_for(s.diff),
                };
                if s.phase == ManagerPhase::Searching {
                    (next, seq![Action::CancelWorkers, spawn])
                } else {
                    (next, seq![spawn])
                }
            },
        }
    }
}

/// Whether a worker's result solves the running job: it belongs to that
/// job, and re-hashing its nonce with the job's payload gives its hash,
/// which satisfies the job's mask.
pub open spec fn solves_job(s: ManagerState, job: u64, nonce: u128, hash: Seq<u8>) -> bool {
    &&& s.phase == ManagerPhase::Searching
    &&& job == s.job_id
    &&& hash == sha256_of(candidate(nonce, s.job_data))
    &&& satisfies(hash, s.job_mask)
}

/// How the manager answers a worker's result: a solution of the running job
/// cancels every worker and is reported once; anything else is dropped.
pub open spec fn on_result(s: ManagerState, job: u64, nonce: u128, hash: Seq<u8>) -> (ManagerState, Seq<Action>) {
    if solves_job(s, job, nonce, hash) {
        (
            ManagerState { phase: ManagerPhase::Idle, ..s },
            seq![Action::CancelWorkers, Action::Report { nonce: be_bytes(nonce as nat, 16), hash }],
        )
    } else {
        (s, Seq::empty())
    }
}

/// The mining manager: it keeps the difficulty and payload for the next
/// search, starts searches, and relays the first solution of each.
pub struct MiningManager {
    pub worker_count: u8,
    pub diff: u8,
    pub data: Vec<u8>,
    pub diff_mask: Vec<u8>,
    pub phase: ManagerPhase,
    pub job_id: u64,
    pub job: MiningJob,
}

impl View for MiningManager {
    type V = ManagerState;

    open spec fn view(&self) -> ManagerState {
        ManagerState {
            worker_count: self.worker_count,
            diff: self.diff,
            data: self.data@,
            phase: self.phase,
            job_id: self.job_id,
            job_data: self.job.data@,
            job_mask: self.job.difficulty_mask@,
        }
    }
}

impl MiningManager {
    /// The manager is well formed: it has workers, and its mask is the one
    /// of its difficulty.
    pub open spec fn wf(&self) -> bool {
        &&& self.worker_count > 0
        &&& self.diff_mask@ == mask_for(self.diff)
    }

    /// An idle manager with difficulty zero and an empty payload, that will
    /// run `worker_count` workers per search; zero workers is refused.
    pub fn new(worker_count: u8) -> (r: Result<MiningManager, MinerError>)
        ensures
            worker_count == 0 <==> r == Err::<MiningManager, MinerError>(MinerError::ZeroWorkers),
            r matches Ok(m) ==> {
                &&& m.wf()
                &&& m@ == ManagerState {
                    worker_count,
                    diff: 0,
                    data: Seq::empty(),
                    phase: ManagerPhase::Idle,
                    job_id: 0,
                    job_data: Seq::empty(),
                    job_mask: Seq::empty(),
                }
            },
    {
        if worker_count == 0 {
            return Err(MinerError::ZeroWorkers);
        }
        Ok(MiningManager {
            worker_count,
            diff: 0,
            data: Vec::new(),
            diff_mask: parse_diff_to_mask(0),
            phase: ManagerPhase::Idle,
            job_id: 0,
            job: MiningJob { data: Vec::new(), difficulty_mask: Vec::new() },
        })
    }

    /// Handles one command and returns the actions it calls for.
    pub fn handle_command(&mut self, cmd: MinerCommand) -> (r: Vec<ManagerAction>)
        requires
            old(self).wf(),
        ensures
            final(self).wf(),
            (final(self)@, actions_view(r@)) == on_command(old(self)@, cmd),
    {
        let ghost s0 = self@;
        let mut actions: Vec<ManagerAction> = Vec::new();
        if self.phase == ManagerPhase::Terminated {
            assert(actions_view(actions@) =~= Seq::<Action>::empty());
            return actions;
        }
        match cmd {
            MinerCommand::KILL => {
                self.phase = ManagerPhase::Terminated;
                actions.push(ManagerAction::CancelWorkers);
                actions.push(ManagerAction::Terminate);
                assert(actions_view(actions@) =~= seq![Action::CancelWorkers, Action::Terminate]);
            },
            MinerCommand::UPDATE_DIFF(val) => {
                self.diff = val;
                self.diff_mask = parse_diff_to_mask(val);
                assert(actions_view(actions@) =~= Seq::<Action>::empty());
            },
            MinerCommand::UPDATE_DATA(bin) => {
                self.data = bin;
                assert(actions_view(actions@) =~= Seq::<Action>::empty());
            },
            MinerCommand::START => {
                let was_searching = self.phase == ManagerPhase::Searching;
                if was_searching {
                    actions.push(ManagerAction::CancelWorkers);
                }
                let id: u64 = if self.job_id == u64::MAX {
                    0
                } else {
                    self.job_id + 1
                };
                self.job_id = id;
                self.job = MiningJob { data: self.data.clone(), difficulty_mask: self.diff_mask.clone() };
                let starts = partition_nonces(self.worker_count);
                actions.push(
                    ManagerAction::SpawnWorkers {
                        job: id,
                        starts,
                        data: self.data.clone(),
                        mask: self.diff_mask.clone(),
                    },
                );
                let ghost spawn = Action::SpawnWorkers {
                    job: id,
                    starts: nonce_starts(s0.worker_count),
                    data: s0.data,
                    mask: mask_for(s0.diff),
                };
                proof {
                    if was_searching {
                        assert(actions_view(actions@) =~= seq![Action::CancelWorkers, spawn]);
                    } else {
                        assert(actions_view(actions@) =~= seq![spawn]);
                    }
                }
                self.phase = ManagerPhase::Searching;
            },
        }
        actions
    }

    /// Handles a result `(nonce, hash)` that a worker of job `job` sent, and
    /// returns the actions it calls for.
    pub fn handle_result(&mut self, job: u64, nonce: u128, hash: [u8; 32]) -> (r: Vec<ManagerAction>)
        requires
            old(self).wf(),
        ensures
            final(self).wf(),
            (final(self)@, actions_view(r@)) == on_result(old(self)@, job, nonce, hash@),
    {
        let mut actions: Vec<ManagerAction> = Vec::new();
        if self.phase != ManagerPhase::Searching || job != self.job_id {
            assert(actions_view(actions@) =~= Seq::<Action>::empty());
            return actions;
        }
        let data = candidate_bytes(nonce, &self.job.data);
        let rehashed = crate::util::hash(&data);
        if !digests_equal(&rehashed, &hash) || !hash_meets_mask(&hash, &self.job.difficulty_mask) {
            assert(actions_view(actions@) =~= Seq::<Action>::empty());
            return actions;
        }
        self.phase = ManagerPhase::Idle;
        actions.push(ManagerAction::CancelWorkers);
        actions.push(ManagerAction::Report { nonce: u128_to_be(nonce), hash });
        assert(actions_view(actions@) =~= seq![
            Action::CancelWorkers,
            Action::Report { nonce: be_bytes(nonce as nat, 16), hash: hash@ },
        ]);
        actions
    }
}

/// An event the manager reacts to: a command from its caller, or a result
/// `(job, nonce, hash)` from a worker.
pub enum Event {
    Command(MinerCommand),
    Result(u64, u128, Seq<u8>),
}

/// The manager's answer to one event.
pub open spec fn on_event(s: ManagerState, e: Event) -> (ManagerState, Seq<Action>) {
    match e {
        Event::Command(cmd) => on_command(s, cmd),
        Event::Result(job, nonce, hash) => on_result(s, job, nonce, hash),
    }
}

/// The state after a sequence of events, and every action taken on the way.
pub open spec fn run(s: ManagerState, events: Seq<Event>) -> (ManagerState, Seq<Action>)
    decreases events.len(),
{
    if events.len() == 0 {
        (s, Seq::empty())
    } else {
        let first = on_event(s, events[0]);
        let rest = run(first.0, events.drop_first());
        (rest.0, first.1 + rest.1)
    }
}

/// Whether a sequence of actions holds a report.
pub open spec fn has_report(actions: Seq<Action>) -> bool {
    exists|i: int| 0 <= i < actions.len() && actions[i] is Report
}

/// Whether a sequence of events starts no new search.
pub open spec fn starts_no_search(events: Seq<Event>) -> bool {
    forall|i: int| 0 <= i < events.len() ==> !(#[trigger] events[i] matches Event::Command(MinerCommand::START))
}

/// Every solution the manager reports re-hashes to its hash, which
/// satisfies the job's mask; it comes right after the one cancellation of
/// every worker, and the manager is idle again.
pub proof fn lemma_reported_solution_is_valid(s: ManagerState, job: u64, nonce: u128, hash: Seq<u8>)
    requires
        has_report(on_result(s, job, nonce, hash).1),
    ensures
        hash == sha256_of(candidate(nonce, s.job_data)),
        satisfies(hash, s.job_mask),
        on_result(s, job, nonce, hash).1 == seq![
            Action::CancelWorkers,
            Action::Report { nonce: be_bytes(nonce as nat, 16), hash },
        ],
        on_result(s, job, nonce, hash).0.phase == ManagerPhase::Idle,
{
    if !solves_job(s, job, nonce, hash) {
        assert(on_result(s, job, nonce, hash).1.len() == 0);
    }
}

proof fn lemma_quiet_run(s: ManagerState, events: Seq<Event>)
    requires
        s.phase != ManagerPhase::Searching,
        starts_no_search(events),
    ensures
        !has_report(run(s, events).1),
    decreases events.len(),
{
    if events.len() > 0 {
        let first = on_event(s, events[0]);
        assert(!(events[0] matches Event::Command(MinerCommand::START)));
        assert(first.0.phase != ManagerPhase::Searching);
        assert(!has_report(first.1));
        let rest = events.drop_first();
        assert forall|i: int| 0 <= i < rest.len() implies !(#[trigger] rest[i] matches Event::Command(
            MinerCommand::START,
        )) by {
            assert(rest[i] == events[i + 1]);
        }
        lemma_quiet_run(first.0, rest);
        let all = first.1 + run(first.0, rest).1;
        assert forall|i: int| 0 <= i < all.len() implies !(#[trigger] all[i] is Report) by {
            if i < first.1.len() {
                assert(all[i] == first.1[i]);
            } else {
                assert(all[i] == run(first.0, rest).1[i - first.1.len()]);
            }
        }
    }
}

/// Once the manager has reported a solution, it reports nothing more until
/// a new search is started: no later result, of that job or any other,
/// is relayed.
pub proof fn lemma_no_report_after_solution(
    s: ManagerState,
    job: u64,
    nonce: u128,
    hash: Seq<u8>,
    events: Seq<Event>,
)
    requires
        has_report(on_result(s, job, nonce, hash).1),
        starts_no_search(events),
    ensures
        !has_report(run(on_result(s, job, nonce, hash).0, events).1),
{
    lemma_reported_solution_is_valid(s, job, nonce, hash);
    lemma_quiet_run(on_result(s, job, nonce, hash).0, events);
}

/// The number of reports among some actions.
pub open spec fn count_reports(actions: Seq<Action>) -> nat
    decreases actions.len(),
{
    if actions.len() == 0 {
        0
    } else {
        count_reports(actions.drop_last()) + if actions.last() is Report {
            1nat
        } else {
            0nat
        }
    }
}

/// The number of searches a sequence of events starts.
pub open spec fn count_starts(events: Seq<Event>) -> nat
    decreases events.len(),
{
    if events.len() == 0 {
        0
    } else {
        count_starts(events.drop_last()) + if events.last() matches Event::Command(MinerCommand::START) {
            1nat
        } else {
            0nat
        }
    }
}

/// One if the manager is searching, else zero.
pub open spec fn open_searches(s: ManagerState) -> nat {
    if s.phase == ManagerPhase::Searching {
        1
    } else {
        0
    }
}

proof fn lemma_count_reports_append(a: Seq<Action>, b: Seq<Action>)
    ensures
        count_reports(a + b) == count_reports(a) + count_reports(b),
    decreases b.len(),
{
    if b.len() > 0 {
        lemma_count_reports_append(a, b.drop_last());
        assert((a + b).drop_last() =~= a + b.drop_last());
    }
}

proof fn lemma_event_reports(s: ManagerState, e: Event)
    ensures
        count_reports(on_event(s, e).1) + open_searches(on_event(s, e).0) <= open_searches(s) + if e matches Event::Command(MinerCommand::START) {
            1nat
        } else {
            0nat
        },
{
    reveal_with_fuel(count_reports, 3);
    let a = on_event(s, e).1;
    if a.len() == 2 {
        assert(a.drop_last().drop_last() =~= Seq::<Action>::empty());
        assert(!(a[0] is Report));
    } else if a.len() == 1 {
        assert(a.drop_last() =~= Seq::<Action>::empty());
        assert(!(a[0] is Report));
    } else {
        assert(a.len() == 0);
    }
}

proof fn lemma_run_drop_last(s: ManagerState, events: Seq<Event>)
    requires
        events.len() > 0,
    ensures
        run(s, events).0 == on_event(run(s, events.drop_last()).0, events.last()).0,
        run(s, events).1 == run(s, events.drop_last()).1 + on_event(run(s, events.drop_last()).0, events.last()).1,
    decreases events.len(),
{
    reveal_with_fuel(run, 2);
    if events.len() > 1 {
        let rest = events.drop_first();
        lemma_run_drop_last(on_event(s, events[0]).0, rest);
        assert(rest.drop_last() =~= events.drop_last().drop_first());
        assert(events.drop_last()[0] == events[0]);
        assert(rest.last() == events.last());
        let first = on_event(s, events[0]);
        assert(run(s, events.drop_last()).1 == first.1 + run(first.0, rest.drop_last()).1);
        assert(first.1 + (run(first.0, rest.drop_last()).1 + on_event(run(first.0, rest.drop_last()).0, rest.last()).1)
            =~= (first.1 + run(first.0, rest.drop_last()).1) + on_event(run(first.0, rest.drop_last()).0, rest.last()).1);
    } else {
        assert(events.drop_first() =~= Seq::<Event>::empty());
        assert(events.drop_last() =~= Seq::<Event>::empty());
        assert(run(s, events).1 =~= on_event(s, events[0]).1 + Seq::<Action>::empty());
        assert(run(s, events.drop_last()).1 + on_event(s, events[0]).1 =~= on_event(s, events[0]).1);
    }
}

/// At most one result is relayed per search: over any sequence of events,
/// the manager reports no more solutions than it has searches to close (one
/// if it is searching at the start, one for each search the events start).
pub proof fn lemma_one_report_per_search(s: ManagerState, events: Seq<Event>)
    ensures
        count_reports(run(s, events).1) + open_searches(run(s, events).0) <= open_searches(s) + count_starts(events),
    decreases events.len(),
{
    if events.len() > 0 {
        let pre = events.drop_last();
        lemma_one_report_per_search(s, pre);
        lemma_run_drop_last(s, events);
        let mid = run(s, pre);
        lemma_event_reports(mid.0, events.last());
        lemma_count_reports_append(mid.1, on_event(mid.0, events.last()).1);
    }
}

} // verus!
