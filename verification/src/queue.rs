//! Batch operation queue: priorities, item states, retries and clean-up.
//! Persistence, notification and the worker tasks belong to the caller.

use vstd::prelude::*;
use crate::error::{Result, TripleWrapperError};
use crate::paths::{join, join_exec};
use crate::text::{concat, dec_chars, owned, string_from, u64_chars};
use crate::types::{sat_sub, OperationId, OperationRequest, ProgressTelemetry, RequestModel};

verus! {

// ---------------------------------------------------------------------------
// Priorities and states
// ---------------------------------------------------------------------------

/// Priority levels for queued operations.
#[derive(Debug, Clone, Copy, PartialEq, Eq, Hash, Structural)]
pub enum Priority {
    Low,
    Normal,
    High,
    Critical,
}

/// Numeric order of priorities: Low 0, Normal 1, High 2, Critical 3.
pub open spec fn rank(p: Priority) -> nat {
    match p {
        Priority::Low => 0,
        Priority::Normal => 1,
        Priority::High => 2,
        Priority::Critical => 3,
    }
}

impl Priority {
    /// The numeric order of this priority.
    pub fn rank(&self) -> (r: u8)
        ensures
            r == rank(*self),
    {
        match self {
            Priority::Low => 0,
            Priority::Normal => 1,
            Priority::High => 2,
            Priority::Critical => 3,
        }
    }
}

impl Default for Priority {
    fn default() -> (p: Self)
        ensures
            p == Priority::Normal,
    {
        Priority::Normal
    }
}

/// Status of a queued operation.
#[derive(Debug, Clone, Copy, PartialEq, Eq, Structural)]
pub enum QueueItemStatus {
    Pending,
    Running,
    Paused,
    Completed,
    Failed,
    Cancelled,
}

/// States after which an item is done (completed, failed or cancelled).
pub open spec fn is_terminal(s: QueueItemStatus) -> bool {
    s == QueueItemStatus::Completed || s == QueueItemStatus::Failed || s
        == QueueItemStatus::Cancelled
}

// ---------------------------------------------------------------------------
// Items
// ---------------------------------------------------------------------------

/// A single item in the operation queue.
pub struct QueueItem {
    pub id: OperationId,
    pub uuid: String,
    pub request: OperationRequest,
    pub priority: Priority,
    pub status: QueueItemStatus,
    pub created_at: u64,
    pub started_at: Option<u64>,
    pub completed_at: Option<u64>,
    pub retry_count: u32,
    pub max_retries: u32,
    pub progress: Option<ProgressTelemetry>,
    pub error_message: Option<String>,
}

/// Mathematical content of a [`QueueItem`].
pub struct ItemModel {
    pub id: OperationId,
    pub uuid: Seq<char>,
    pub request: RequestModel,
    pub priority: Priority,
    pub status: QueueItemStatus,
    pub created_at: u64,
    pub started_at: Option<u64>,
    pub completed_at: Option<u64>,
    pub retry_count: u32,
    pub max_retries: u32,
    pub progress: Option<ProgressTelemetry>,
    pub error_message: Option<Seq<char>>,
}

impl View for QueueItem {
    type V = ItemModel;

    open spec fn view(&self) -> ItemModel {
        ItemModel {
            id: self.id,
            uuid: self.uuid@,
            request: self.request@,
            priority: self.priority,
            status: self.status,
            created_at: self.created_at,
            started_at: self.started_at,
            completed_at: self.completed_at,
            retry_count: self.retry_count,
            max_retries: self.max_retries,
            progress: self.progress,
            error_message: crate::types::opt_string_view(self.error_message),
        }
    }
}

/// A new item for `request`: pending, never started, three retries allowed.
pub open spec fn is_fresh_item(m: ItemModel, request: RequestModel, priority: Priority) -> bool {
    &&& m.id == request.id
    &&& m.request == request
    &&& m.priority == priority
    &&& m.status == QueueItemStatus::Pending
    &&& m.started_at is None
    &&& m.completed_at is None
    &&& m.retry_count == 0
    &&& m.max_retries == 3
    &&& m.progress is None
    &&& m.error_message is None
}

/// `Uuid::new_v4().to_string()`: a random UUID in its hyphenated form.
#[verifier::external_body]
fn new_uuid_string() -> (r: String)
    ensures
        r@.len() == 36,
{
    uuid::Uuid::new_v4().to_string()
}

/// `SystemTime::now()`, as whole seconds since the Unix epoch (0 before it).
#[verifier::external_body]
pub(crate) fn unix_now_secs() -> u64 {
    std::time::SystemTime::now().duration_since(std::time::UNIX_EPOCH).unwrap_or_default().as_secs()
}

impl QueueItem {
    /// A fresh item with the given UUID and creation time.
    pub fn new_at(request: OperationRequest, priority: Priority, uuid: String, now: u64) -> (item:
        Self)
        ensures
            is_fresh_item(item@, request@, priority),
            item@.uuid == uuid@,
            item.created_at == now,
    {
        QueueItem {
            id: request.id,
            uuid,
            request,
            priority,
            status: QueueItemStatus::Pending,
            created_at: now,
            started_at: None,
            completed_at: None,
            retry_count: 0,
            max_retries: 3,
            progress: None,
            error_message: None,
        }
    }

    /// A fresh item with a random UUID, created now.
    pub fn new(request: OperationRequest, priority: Priority) -> (item: Self)
        ensures
            is_fresh_item(item@, request@, priority),
            item@.uuid.len() == 36,
    {
        let uuid = new_uuid_string();
        let now = unix_now_secs();
        Self::new_at(request, priority, uuid, now)
    }

    /// A copy of this item.
    pub fn duplicate(&self) -> (r: Self)
        ensures
            r@ == self@,
    {
        QueueItem {
            id: self.id,
            uuid: self.uuid.clone(),
            request: self.request.duplicate(),
            priority: self.priority,
            status: self.status,
            created_at: self.created_at,
            started_at: self.started_at,
            completed_at: self.completed_at,
            retry_count: self.retry_count,
            max_retries: self.max_retries,
            progress: match &self.progress {
                Some(p) => Some(p.duplicate()),
                None => None,
            },
            error_message: match &self.error_message {
                Some(e) => Some(e.clone()),
                None => None,
            },
        }
    }
}

// ---------------------------------------------------------------------------
// Configuration
// ---------------------------------------------------------------------------

/// Queue configuration.
#[derive(Clone)]
pub struct QueueConfig {
    pub max_concurrent_operations: usize,
    pub default_priority: Priority,
    pub max_retries: u32,
    pub retry_delay_seconds: u64,
    pub persistence_path: String,
    pub auto_start: bool,
}

/// `dirs_next::data_dir()`, as a string (lossily converted).
#[verifier::external_body]
pub(crate) fn user_data_dir() -> Option<String> {
    dirs_next::data_dir().map(|p| p.to_string_lossy().into_owned())
}

/// `<data dir or .>/triplewrapper/<file>`.
pub open spec fn data_file(data_dir: Option<Seq<char>>, file: Seq<char>) -> Seq<char> {
    let base = match data_dir {
        Some(d) => d,
        None => "."@,
    };
    join(join(base, "triplewrapper"@), file)
}

/// `<data dir or .>/triplewrapper/<file>`.
pub fn data_file_path(data_dir: Option<&str>, file: &str) -> (r: String)
    ensures
        r@ == data_file(crate::text::opt_view(data_dir), file@),
{
    let base = match data_dir {
        Some(d) => owned(d),
        None => owned("."),
    };
    let dir = join_exec(base.as_str(), "triplewrapper");
    join_exec(dir.as_str(), file)
}

impl QueueConfig {
    /// Defaults with the queue file under `data_dir` (the user data
    /// directory, `None` when unknown).
    pub fn for_data_dir(data_dir: Option<&str>) -> (c: Self)
        ensures
            c.max_concurrent_operations == 2,
            c.default_priority == Priority::Normal,
            c.max_retries == 3,
            c.retry_delay_seconds == 5,
            c.persistence_path@ == data_file(crate::text::opt_view(data_dir), "queue.json"@),
            c.auto_start,
    {
        QueueConfig {
            max_concurrent_operations: 2,
            default_priority: Priority::Normal,
            max_retries: 3,
            retry_delay_seconds: 5,
            persistence_path: data_file_path(data_dir, "queue.json"),
            auto_start: true,
        }
    }
}

impl Default for QueueConfig {
    fn default() -> (c: Self)
        ensures
            c.max_concurrent_operations == 2,
            c.default_priority == Priority::Normal,
            c.max_retries == 3,
            c.retry_delay_seconds == 5,
            exists|d: Option<Seq<char>>| c.persistence_path@ == data_file(d, "queue.json"@),
            c.auto_start,
    {
        let dir = user_data_dir();
        match dir {
            Some(d) => Self::for_data_dir(Some(d.as_str())),
            None => Self::for_data_dir(None),
        }
    }
}

// ---------------------------------------------------------------------------
// Sequence facts used by the queue
// ---------------------------------------------------------------------------

/// Highest priority first (ties in any order).
pub open spec fn ordered_by_priority(s: Seq<ItemModel>) -> bool {
    forall|i: int, j: int| 0 <= i < j < s.len() ==> rank(s[j].priority) <= rank(s[i].priority)
}

/// Where an item of priority `p` goes: before the first item of lower
/// priority (after all items of equal or higher priority).
pub open spec fn insert_pos(s: Seq<ItemModel>, p: Priority) -> int
    decreases s.len(),
{
    if s.len() == 0 {
        0
    } else if rank(s[0].priority) < rank(p) {
        0
    } else {
        1 + insert_pos(s.drop_first(), p)
    }
}

/// Largest id in the queue (0 when empty).
pub open spec fn max_id(s: Seq<ItemModel>) -> u64
    decreases s.len(),
{
    if s.len() == 0 {
        0
    } else {
        let m = max_id(s.drop_last());
        if s.last().id.0 > m {
            s.last().id.0
        } else {
            m
        }
    }
}

/// First index holding an item with the given status.
pub open spec fn first_with_status(s: Seq<ItemModel>, st: QueueItemStatus) -> Option<int>
    decreases s.len(),
{
    if s.len() == 0 {
        None
    } else if s[0].status == st {
        Some(0)
    } else {
        match first_with_status(s.drop_first(), st) {
            Some(k) => Some(k + 1),
            None => None,
        }
    }
}

/// First index holding the item with id `id`.
pub open spec fn index_of_id(s: Seq<ItemModel>, id: OperationId) -> Option<int>
    decreases s.len(),
{
    if s.len() == 0 {
        None
    } else if s[0].id == id {
        Some(0)
    } else {
        match index_of_id(s.drop_first(), id) {
            Some(k) => Some(k + 1),
            None => None,
        }
    }
}

pub proof fn lemma_insert_pos_bounds(s: Seq<ItemModel>, p: Priority)
    ensures
        0 <= insert_pos(s, p) <= s.len(),
        forall|i: int| 0 <= i < insert_pos(s, p) ==> rank(s[i].priority) >= rank(p),
        insert_pos(s, p) < s.len() ==> rank(s[insert_pos(s, p)].priority) < rank(p),
    decreases s.len(),
{
    if s.len() > 0 && rank(s[0].priority) >= rank(p) {
        lemma_insert_pos_bounds(s.drop_first(), p);
        assert forall|i: int| 0 <= i < insert_pos(s, p) implies rank(s[i].priority) >= rank(p) by {
            if i > 0 {
                assert(s[i] == s.drop_first()[i - 1]);
            }
        }
        if insert_pos(s, p) < s.len() {
            assert(s[insert_pos(s, p)] == s.drop_first()[insert_pos(s, p) - 1]);
        }
    }
}

/// Inserting at `insert_pos` keeps a priority-ordered sequence ordered.
pub proof fn lemma_insert_keeps_order(s: Seq<ItemModel>, m: ItemModel)
    requires
        ordered_by_priority(s),
    ensures
        ordered_by_priority(s.insert(insert_pos(s, m.priority), m)),
{
    lemma_insert_pos_bounds(s, m.priority);
    let k = insert_pos(s, m.priority);
    let t = s.insert(k, m);
    assert forall|i: int, j: int| 0 <= i < j < t.len() implies rank(t[j].priority) <= rank(
        t[i].priority,
    ) by {
        if j < k {
            assert(t[i] == s[i] && t[j] == s[j]);
        } else if j == k {
            assert(t[i] == s[i]);
        } else if i < k {
            assert(t[i] == s[i] && t[j] == s[j - 1]);
            assert(rank(s[k].priority) < rank(m.priority));
            assert(rank(s[j - 1].priority) <= rank(s[k].priority));
        } else if i == k {
            assert(t[j] == s[j - 1]);
            assert(rank(s[j - 1].priority) <= rank(s[k].priority));
        } else {
            assert(t[i] == s[i - 1] && t[j] == s[j - 1]);
        }
    }
}

pub proof fn lemma_max_id_bound(s: Seq<ItemModel>)
    ensures
        forall|i: int| 0 <= i < s.len() ==> s[i].id.0 <= max_id(s),
    decreases s.len(),
{
    if s.len() > 0 {
        lemma_max_id_bound(s.drop_last());
        assert forall|i: int| 0 <= i < s.len() implies s[i].id.0 <= max_id(s) by {
            if i < s.len() - 1 {
                assert(s[i] == s.drop_last()[i]);
            }
        }
    }
}

/// Every status except `st`'s index and the items before it.
pub proof fn lemma_first_with_status(s: Seq<ItemModel>, st: QueueItemStatus)
    ensures
        match first_with_status(s, st) {
            Some(k) => 0 <= k < s.len() && s[k].status == st && forall|j: int|
                0 <= j < k ==> s[j].status != st,
            None => forall|j: int| 0 <= j < s.len() ==> s[j].status != st,
        },
    decreases s.len(),
{
    if s.len() > 0 && s[0].status != st {
        lemma_first_with_status(s.drop_first(), st);
        match first_with_status(s.drop_first(), st) {
            Some(k) => {
                assert(s[k + 1] == s.drop_first()[k]);
                assert forall|j: int| 0 <= j < k + 1 implies s[j].status != st by {
                    if j > 0 {
                        assert(s[j] == s.drop_first()[j - 1]);
                    }
                }
            },
            None => {
                assert forall|j: int| 0 <= j < s.len() implies s[j].status != st by {
                    if j > 0 {
                        assert(s[j] == s.drop_first()[j - 1]);
                    }
                }
            },
        }
    }
}

proof fn lemma_index_of_id(s: Seq<ItemModel>, id: OperationId)
    ensures
        match index_of_id(s, id) {
            Some(k) => 0 <= k < s.len() && s[k].id == id && forall|j: int| 0 <= j < k ==> s[j].id != id,
            None => forall|j: int| 0 <= j < s.len() ==> s[j].id != id,
        },
    decreases s.len(),
{
    if s.len() > 0 && s[0].id != id {
        lemma_index_of_id(s.drop_first(), id);
        match index_of_id(s.drop_first(), id) {
            Some(k) => {
                assert(s[k + 1] == s.drop_first()[k]);
                assert forall|j: int| 0 <= j < k + 1 implies s[j].id != id by {
                    if j > 0 {
                        assert(s[j] == s.drop_first()[j - 1]);
                    }
                }
            },
            None => {
                assert forall|j: int| 0 <= j < s.len() implies s[j].id != id by {
                    if j > 0 {
                        assert(s[j] == s.drop_first()[j - 1]);
                    }
                }
            },
        }
    }
}

proof fn lemma_first_with_status_at(s: Seq<ItemModel>, st: QueueItemStatus, k: int)
    requires
        0 <= k < s.len(),
        s[k].status == st,
        forall|j: int| 0 <= j < k ==> s[j].status != st,
    ensures
        first_with_status(s, st) == Some(k),
{
    lemma_first_with_status(s, st);
    match first_with_status(s, st) {
        Some(m) => {
            if m < k {
                assert(s[m].status != st);
            }
            if m > k {
                assert(s[k].status != st);
            }
        },
        None => {
            assert(s[k].status != st);
        },
    }
}

proof fn lemma_index_of_id_at(s: Seq<ItemModel>, id: OperationId, k: int)
    requires
        0 <= k < s.len(),
        s[k].id == id,
        forall|j: int| 0 <= j < k ==> s[j].id != id,
    ensures
        index_of_id(s, id) == Some(k),
{
    lemma_index_of_id(s, id);
    match index_of_id(s, id) {
        Some(m) => {
            if m < k {
                assert(s[m].id != id);
            }
            if m > k {
                assert(s[k].id != id);
            }
        },
        None => {
            assert(s[k].id != id);
        },
    }
}

proof fn lemma_insert_pos_at(s: Seq<ItemModel>, p: Priority, k: int)
    requires
        0 <= k <= s.len(),
        forall|j: int| 0 <= j < k ==> rank(s[j].priority) >= rank(p),
        k < s.len() ==> rank(s[k].priority) < rank(p),
    ensures
        insert_pos(s, p) == k,
    decreases s.len(),
{
    if s.len() > 0 && k > 0 {
        assert forall|j: int| 0 <= j < k - 1 implies rank(s.drop_first()[j].priority) >= rank(p) by {
            assert(s.drop_first()[j] == s[j + 1]);
        }
        if k - 1 < s.len() - 1 {
            assert(s.drop_first()[k - 1] == s[k]);
        }
        lemma_insert_pos_at(s.drop_first(), p, k - 1);
    }
}

// ---------------------------------------------------------------------------
// The queue
// ---------------------------------------------------------------------------

/// The operation queue: items (highest priority first), ids of running
/// items, and the paused / shutting-down flags.
pub struct OperationQueue {
    config: QueueConfig,
    items: Vec<QueueItem>,
    running: Vec<OperationId>,
    paused: bool,
    shutdown: bool,
}

/// The item after a status change: completed items get `completed_at = now`.
pub open spec fn with_status(m: ItemModel, status: QueueItemStatus, now: u64) -> ItemModel {
    if is_terminal(status) {
        ItemModel { status, completed_at: Some(now), ..m }
    } else {
        ItemModel { status, ..m }
    }
}

/// The running ids other than `id`, in order.
pub open spec fn without_id(running: Seq<OperationId>, id: OperationId) -> Seq<OperationId> {
    running.filter(|r: OperationId| r != id)
}

/// Ids of running items after `id` changes to `status`.
pub open spec fn running_after(running: Seq<OperationId>, id: OperationId, status: QueueItemStatus) -> Seq<OperationId> {
    if is_terminal(status) {
        without_id(running, id)
    } else if status == QueueItemStatus::Running && !running.contains(id) {
        running.push(id)
    } else {
        running
    }
}

/// Items kept by a clean-up with the given cutoff: unfinished items, and
/// finished ones completed after the cutoff.
/// The items that a cleanup with this cutoff keeps, in order.
pub open spec fn cleaned(s: Seq<ItemModel>, cutoff: u64) -> Seq<ItemModel> {
    s.filter(|m: ItemModel| survives_cleanup(m, cutoff))
}

pub open spec fn survives_cleanup(m: ItemModel, cutoff: u64) -> bool {
    m.status == QueueItemStatus::Pending || m.status == QueueItemStatus::Running || m.status
        == QueueItemStatus::Paused || (match m.completed_at {
        Some(t) => t,
        None => 0,
    }) > cutoff
}

/// What a restart keeps of a persisted item: pending and paused items as
/// they were, running ones back to pending (not started); nothing else.
pub open spec fn restored(m: ItemModel) -> Option<ItemModel> {
    if m.status == QueueItemStatus::Running {
        Some(ItemModel { status: QueueItemStatus::Pending, started_at: None, ..m })
    } else if m.status == QueueItemStatus::Paused || m.status == QueueItemStatus::Pending {
        Some(m)
    } else {
        None
    }
}

/// Queue contents after restoring `items` in order: each kept item is
/// inserted after every item of equal or higher priority (a stable sort).
pub open spec fn restored_queue(items: Seq<ItemModel>) -> Seq<ItemModel>
    decreases items.len(),
{
    if items.len() == 0 {
        Seq::empty()
    } else {
        let q = restored_queue(items.drop_last());
        match restored(items.last()) {
            Some(m) => q.insert(insert_pos(q, m.priority), m),
            None => q,
        }
    }
}

/// The message for an unknown id.
pub open spec fn not_found_text(id: OperationId) -> Seq<char> {
    "Queue item not found: "@ + dec_chars(id.0 as nat)
}

fn not_found(id: OperationId) -> (e: TripleWrapperError)
    ensures
        e is Internal && e->Internal_0@ == not_found_text(id),
{
    let n = u64_chars(id.0);
    let mut v = crate::text::chars_of("Queue item not found: ");
    crate::text::push_all(&mut v, &n);
    TripleWrapperError::Internal(string_from(&v))
}

pub open spec fn item_views(v: Seq<QueueItem>) -> Seq<ItemModel> {
    v.map_values(|i: QueueItem| i@)
}

/// How a worker's run of an item ended.
pub enum Outcome {
    Succeeded,
    Failed(String),
}

impl OperationQueue {
    pub closed spec fn config_view(&self) -> QueueConfig {
        self.config
    }

    pub closed spec fn items_view(&self) -> Seq<ItemModel> {
        item_views(self.items@)
    }

    pub closed spec fn running_view(&self) -> Seq<OperationId> {
        self.running@
    }

    pub closed spec fn paused_view(&self) -> bool {
        self.paused
    }

    pub closed spec fn shutdown_view(&self) -> bool {
        self.shutdown
    }

    /// Well-formed: items ordered by priority, highest first.
    pub open spec fn wf(&self) -> bool {
        ordered_by_priority(self.items_view())
    }

    /// An empty, unpaused queue.
    pub fn new(config: QueueConfig) -> (q: Self)
        ensures
            q.wf(),
            q.config_view() == config,
            q.items_view().len() == 0,
            q.running_view().len() == 0,
            !q.paused_view(),
            !q.shutdown_view(),
    {
        OperationQueue { config, items: Vec::new(), running: Vec::new(), paused: false, shutdown: false }
    }

    /// The configuration.
    pub fn config(&self) -> (c: &QueueConfig)
        ensures
            *c == self.config_view(),
    {
        &self.config
    }

    fn insert_item(&mut self, item: QueueItem)
        requires
            old(self).wf(),
        ensures
            final(self).wf(),
            final(self).items_view() == old(self).items_view().insert(
                insert_pos(old(self).items_view(), item.priority),
                item@,
            ),
            final(self).config_view() == old(self).config_view(),
            final(self).running_view() == old(self).running_view(),
            final(self).paused_view() == old(self).paused_view(),
            final(self).shutdown_view() == old(self).shutdown_view(),
    {
        let ghost s = self.items_view();
        let p = item.priority.rank();
        let mut k: usize = 0;
        while k < self.items.len() && self.items[k].priority.rank() >= p
            invariant
                k <= self.items@.len(),
                s == item_views(self.items@),
                p == rank(item.priority),
                forall|j: int| 0 <= j < k ==> rank(s[j].priority) >= p,
            decreases self.items.len() - k,
        {
            k = k + 1;
        }
        proof {
            lemma_insert_pos_at(s, item.priority, k as int);
            lemma_insert_keeps_order(s, item@);
        }
        let ghost v0 = self.items@;
        self.items.insert(k, item);
        assert(item_views(self.items@) =~= s.insert(k as int, item@));
    }

    /// Replaces the contents with persisted items as a restart restores
    /// them (see [`restored_queue`]).
    pub fn load(&mut self, items: Vec<QueueItem>)
        ensures
            final(self).wf(),
            final(self).items_view() == restored_queue(item_views(items@)),
            final(self).config_view() == old(self).config_view(),
            final(self).running_view() == old(self).running_view(),
            final(self).paused_view() == old(self).paused_view(),
            final(self).shutdown_view() == old(self).shutdown_view(),
    {
        self.items = Vec::new();
        let ghost all = item_views(items@);
        let total: usize = items.len();
        let ghost n = all.len();
        // Items are consumed front to back.
        let mut src = reverse_items(items);
        let mut i: usize = 0;
        assert(all.take(0) =~= Seq::<ItemModel>::empty());
        while src.len() > 0
            invariant
                self.wf(),
                src@.len() + i == n,
                n == total,
                n == all.len(),
                i <= n,
                forall|j: int| 0 <= j < src@.len() ==> src@[j]@ == all[n - 1 - j],
                self.items_view() == restored_queue(all.take(i as int)),
                self.config_view() == old(self).config_view(),
                self.running_view() == old(self).running_view(),
                self.paused_view() == old(self).paused_view(),
                self.shutdown_view() == old(self).shutdown_view(),
            decreases src.len(),
        {
            let mut m = src.pop().unwrap();
            assert(m@ == all[i as int]);
            assert(all.take(i + 1).drop_last() =~= all.take(i as int));
            assert(all.take(i + 1).last() == all[i as int]);
            match m.status {
                QueueItemStatus::Running => {
                    m.status = QueueItemStatus::Pending;
                    m.started_at = None;
                    self.insert_item(m);
                },
                QueueItemStatus::Paused | QueueItemStatus::Pending => {
                    self.insert_item(m);
                },
                _ => {},
            }
            i = i + 1;
        }
        assert(all.take(n as int) =~= all);
    }

    /// Queues `request` with `priority` (the configured default when
    /// `None`). The item gets id `max id + 1` and goes after every item of
    /// equal or higher priority.
    pub fn enqueue(&mut self, request: OperationRequest, priority: Option<Priority>) -> (id: OperationId)
        requires
            old(self).wf(),
            max_id(old(self).items_view()) < u64::MAX,
        ensures
            ({
                let p = match priority {
                    Some(p) => p,
                    None => old(self).config_view().default_priority,
                };
                let k = insert_pos(old(self).items_view(), p);
                &&& id.0 == max_id(old(self).items_view()) + 1
                &&& final(self).wf()
                &&& final(self).items_view().len() == old(self).items_view().len() + 1
                &&& final(self).items_view() == old(self).items_view().insert(
                    k,
                    final(self).items_view()[k],
                )
                &&& is_fresh_item(
                    final(self).items_view()[k],
                    RequestModel { id, ..request@ },
                    p,
                )
            }),
            final(self).config_view() == old(self).config_view(),
            final(self).running_view() == old(self).running_view(),
            final(self).paused_view() == old(self).paused_view(),
            final(self).shutdown_view() == old(self).shutdown_view(),
    {
        let p = match priority {
            Some(p) => p,
            None => self.config.default_priority,
        };
        let next = self.max_id() + 1;
        let mut request = request;
        request.id = OperationId(next);
        let item = QueueItem::new(request, p);
        let ghost s = self.items_view();
        let ghost m = item@;
        self.insert_item(item);
        proof {
            lemma_insert_pos_bounds(s, p);
            let k = insert_pos(s, p);
            assert(self.items_view()[k] == m);
        }
        OperationId(next)
    }

    /// Largest id in the queue (0 when empty).
    pub fn max_id(&self) -> (m: u64)
        ensures
            m == max_id(self.items_view()),
    {
        let mut m: u64 = 0;
        let mut i: usize = 0;
        while i < self.items.len()
            invariant
                i <= self.items@.len(),
                m == max_id(item_views(self.items@.take(i as int))),
            decreases self.items.len() - i,
        {
            assert(item_views(self.items@.take(i + 1)).drop_last() =~= item_views(
                self.items@.take(i as int),
            ));
            if self.items[i].id.0 > m {
                m = self.items[i].id.0;
            }
            i = i + 1;
        }
        assert(self.items@.take(self.items.len() as int) =~= self.items@);
        m
    }

    /// Queues several operations, in order; returns their ids.
    pub fn enqueue_batch(&mut self, requests: Vec<(OperationRequest, Option<Priority>)>) -> (ids: Vec<OperationId>)
        requires
            old(self).wf(),
            max_id(old(self).items_view()) + requests@.len() <= u64::MAX,
        ensures
            final(self).wf(),
            ids@.len() == requests@.len(),
            forall|k: int| 0 <= k < ids@.len() ==> ids@[k].0 == max_id(old(self).items_view()) + k + 1,
            final(self).items_view().len() == old(self).items_view().len() + requests@.len(),
            final(self).config_view() == old(self).config_view(),
            final(self).running_view() == old(self).running_view(),
            final(self).paused_view() == old(self).paused_view(),
            final(self).shutdown_view() == old(self).shutdown_view(),
    {
        let ghost m0 = max_id(self.items_view());
        let ghost len0 = self.items_view().len();
        let mut ids: Vec<OperationId> = Vec::new();
        let mut src = reverse_requests(requests);
        let ghost total = src@.len();
        while src.len() > 0
            invariant
                self.wf(),
                ids@.len() + src@.len() == total,
                max_id(self.items_view()) == m0 + ids@.len(),
                m0 + total <= u64::MAX,
                forall|k: int| 0 <= k < ids@.len() ==> ids@[k].0 == m0 + k + 1,
                self.items_view().len() == len0 + ids@.len(),
                self.config_view() == old(self).config_view(),
                self.running_view() == old(self).running_view(),
                self.paused_view() == old(self).paused_view(),
                self.shutdown_view() == old(self).shutdown_view(),
            decreases src.len(),
        {
            let (req, pri) = src.pop().unwrap();
            let ghost before = self.items_view();
            let ghost p = match pri {
                Some(p) => p,
                None => self.config_view().default_priority,
            };
            let id = self.enqueue(req, pri);
            proof {
                lemma_insert_pos_bounds(before, p);
                let k = insert_pos(before, p);
                assert(self.items_view() == before.insert(k, self.items_view()[k]));
                assert(self.items_view()[k].id == id);
                lemma_max_id_after_insert(before, self.items_view(), id);
            }
            ids.push(id);
        }
        ids
    }

    /// Takes the first pending item (the highest-priority one) out of the
    /// queue, marked running and started now.
    pub fn dequeue(&mut self) -> (r: Option<QueueItem>)
        requires
            old(self).wf(),
        ensures
            final(self).wf(),
            match r {
                Some(item) => match first_with_status(
                    old(self).items_view(),
                    QueueItemStatus::Pending,
                ) {
                    Some(k) => {
                        &&& final(self).items_view() == old(self).items_view().remove(k)
                        &&& item@ == (ItemModel {
                            status: QueueItemStatus::Running,
                            started_at: item@.started_at,
                            ..old(self).items_view()[k]
                        })
                        &&& item@.started_at is Some
                    },
                    None => false,
                },
                None => first_with_status(old(self).items_view(), QueueItemStatus::Pending) is None
                    && final(self).items_view() == old(self).items_view(),
            },
            final(self).config_view() == old(self).config_view(),
            final(self).running_view() == old(self).running_view(),
            final(self).paused_view() == old(self).paused_view(),
            final(self).shutdown_view() == old(self).shutdown_view(),
    {
        let ghost s = self.items_view();
        let mut k: usize = 0;
        while k < self.items.len()
            invariant
                k <= self.items@.len(),
                s == item_views(self.items@),
                s == old(self).items_view(),
                self.wf(),
                self.config_view() == old(self).config_view(),
                self.running_view() == old(self).running_view(),
                self.paused_view() == old(self).paused_view(),
                self.shutdown_view() == old(self).shutdown_view(),
                forall|j: int| 0 <= j < k ==> s[j].status != QueueItemStatus::Pending,
            decreases self.items.len() - k,
        {
            if self.items[k].status == QueueItemStatus::Pending {
                proof {
                    lemma_first_with_status_at(s, QueueItemStatus::Pending, k as int);
                }
                let mut item = self.items.remove(k);
                assert(item@ == s[k as int]);
                assert(item_views(self.items@) =~= s.remove(k as int));
                proof {
                    assert forall|i: int, j: int|
                        0 <= i < j < self.items_view().len() implies rank(
                        self.items_view()[j].priority,
                    ) <= rank(self.items_view()[i].priority) by {
                        let t = s.remove(k as int);
                        if j < k {
                        } else if i < k {
                            assert(t[j] == s[j + 1]);
                        } else {
                            assert(t[i] == s[i + 1] && t[j] == s[j + 1]);
                        }
                    }
                }
                item.status = QueueItemStatus::Running;
                item.started_at = Some(unix_now_secs());
                return Some(item);
            }
            k = k + 1;
        }
        proof {
            lemma_first_with_status(s, QueueItemStatus::Pending);
            match first_with_status(s, QueueItemStatus::Pending) {
                Some(m) => {
                    assert(s[m].status != QueueItemStatus::Pending);
                },
                None => {},
            }
        }
        None
    }

    fn find_index(&self, id: OperationId) -> (r: Option<usize>)
        ensures
            match r {
                Some(k) => index_of_id(self.items_view(), id) == Some(k as int),
                None => index_of_id(self.items_view(), id) is None,
            },
    {
        let ghost s = self.items_view();
        let mut k: usize = 0;
        while k < self.items.len()
            invariant
                k <= self.items@.len(),
                s == item_views(self.items@),
                forall|j: int| 0 <= j < k ==> s[j].id != id,
            decreases self.items.len() - k,
        {
            if self.items[k].id == id {
                proof {
                    lemma_index_of_id_at(s, id, k as int);
                }
                return Some(k);
            }
            k = k + 1;
        }
        proof {
            lemma_index_of_id(s, id);
            match index_of_id(s, id) {
                Some(m) => {
                    assert(s[m].id != id);
                },
                None => {},
            }
        }
        None
    }

    /// Replaces the item at `k` by `item` (same priority).
    fn replace_at(&mut self, k: usize, item: QueueItem)
        requires
            old(self).wf(),
            k < old(self).items_view().len(),
            item.priority == old(self).items_view()[k as int].priority,
        ensures
            final(self).wf(),
            final(self).items_view() == old(self).items_view().update(k as int, item@),
            final(self).config_view() == old(self).config_view(),
            final(self).running_view() == old(self).running_view(),
            final(self).paused_view() == old(self).paused_view(),
            final(self).shutdown_view() == old(self).shutdown_view(),
    {
        let ghost s = self.items_view();
        let _old = self.items.remove(k);
        self.items.insert(k, item);
        assert(item_views(self.items@) =~= s.update(k as int, item@));
    }

    fn remove_running(&mut self, id: OperationId)
        ensures
            final(self).running_view() == without_id(old(self).running_view(), id),
            final(self).items@ == old(self).items@,
            final(self).config_view() == old(self).config_view(),
            final(self).paused_view() == old(self).paused_view(),
            final(self).shutdown_view() == old(self).shutdown_view(),
    {
        let ghost r0 = self.running@;
        let mut kept: Vec<OperationId> = Vec::new();
        let mut i: usize = 0;
        while i < self.running.len()
            invariant
                i <= self.running@.len(),
                self.running@ == r0,
                kept@ == without_id(r0.take(i as int), id),
            decreases self.running.len() - i,
        {
            let r = self.running[i];
            assert(r0.take(i + 1).drop_last() =~= r0.take(i as int));
            if r != id {
                kept.push(r);
            }
            assert(kept@ == without_id(r0.take(i + 1), id)) by {
                reveal(Seq::filter);
            }
            i = i + 1;
        }
        assert(r0.take(r0.len() as int) =~= r0);
        self.running = kept;
    }

    /// Marks `id` as running (once).
    pub fn mark_running(&mut self, id: OperationId)
        ensures
            final(self).running_view() == (if old(self).running_view().contains(id) {
                old(self).running_view()
            } else {
                old(self).running_view().push(id)
            }),
            final(self).items_view() == old(self).items_view(),
            final(self).config_view() == old(self).config_view(),
            final(self).paused_view() == old(self).paused_view(),
            final(self).shutdown_view() == old(self).shutdown_view(),
    {
        let mut i: usize = 0;
        while i < self.running.len()
            invariant
                i <= self.running@.len(),
                forall|j: int| 0 <= j < i ==> self.running@[j] != id,
            decreases self.running.len() - i,
        {
            if self.running[i] == id {
                assert(self.running@.contains(id));
                return ;
            }
            i = i + 1;
        }
        self.running.push(id);
    }

    /// Sets the status of item `id`; finished states record the time and
    /// leave the running set, `Running` joins it.
    pub fn update_status(&mut self, id: OperationId, status: QueueItemStatus) -> (r: Result<()>)
        requires
            old(self).wf(),
        ensures
            final(self).wf(),
            final(self).config_view() == old(self).config_view(),
            final(self).paused_view() == old(self).paused_view(),
            final(self).shutdown_view() == old(self).shutdown_view(),
            match index_of_id(old(self).items_view(), id) {
                Some(k) => {
                    &&& r is Ok
                    &&& final(self).items_view().len() == old(self).items_view().len()
                    &&& final(self).items_view() == old(self).items_view().update(
                        k,
                        with_status(
                            old(self).items_view()[k],
                            status,
                            match final(self).items_view()[k].completed_at {
                                Some(t) => t,
                                None => 0,
                            },
                        ),
                    )
                    &&& final(self).running_view() == running_after(
                        old(self).running_view(),
                        id,
                        status,
                    )
                },
                None => {
                    &&& r is Err && r->Err_0 is Internal && r->Err_0->Internal_0@ == not_found_text(id)
                    &&& final(self).items_view() == old(self).items_view()
                    &&& final(self).running_view() == old(self).running_view()
                },
            },
    {
        match self.find_index(id) {
            None => Err(not_found(id)),
            Some(k) => {
                proof {
                    lemma_index_of_id(self.items_view(), id);
                }
                let mut item = self.items[k].duplicate_full();
                item.status = status;
                let terminal = status == QueueItemStatus::Completed || status
                    == QueueItemStatus::Failed || status == QueueItemStatus::Cancelled;
                if terminal {
                    item.completed_at = Some(unix_now_secs());
                }
                self.replace_at(k, item);
                if terminal {
                    self.remove_running(id);
                } else if status == QueueItemStatus::Running {
                    self.mark_running(id);
                }
                Ok(())
            },
        }
    }

    /// Stores the latest telemetry of item `id`.
    pub fn update_progress(&mut self, id: OperationId, progress: ProgressTelemetry) -> (r: Result<()>)
        requires
            old(self).wf(),
        ensures
            final(self).wf(),
            final(self).config_view() == old(self).config_view(),
            final(self).running_view() == old(self).running_view(),
            final(self).paused_view() == old(self).paused_view(),
            final(self).shutdown_view() == old(self).shutdown_view(),
            match index_of_id(old(self).items_view(), id) {
                Some(k) => r is Ok && final(self).items_view() == old(self).items_view().update(
                    k,
                    (ItemModel { progress: Some(progress), ..old(self).items_view()[k] }),
                ),
                None => r is Err && r->Err_0 is Internal && r->Err_0->Internal_0@ == not_found_text(
                    id,
                ) && final(self).items_view() == old(self).items_view(),
            },
    {
        match self.find_index(id) {
            None => Err(not_found(id)),
            Some(k) => {
                proof {
                    lemma_index_of_id(self.items_view(), id);
                }
                let mut item = self.items[k].duplicate_full();
                item.progress = Some(progress);
                self.replace_at(k, item);
                Ok(())
            },
        }
    }

    /// Stops handing out work.
    pub fn pause(&mut self)
        ensures
            final(self).paused_view(),
            final(self).items_view() == old(self).items_view(),
            final(self).running_view() == old(self).running_view(),
            final(self).config_view() == old(self).config_view(),
            final(self).shutdown_view() == old(self).shutdown_view(),
    {
        self.paused = true;
    }

    /// Hands out work again.
    pub fn resume(&mut self)
        ensures
            !final(self).paused_view(),
            final(self).items_view() == old(self).items_view(),
            final(self).running_view() == old(self).running_view(),
            final(self).config_view() == old(self).config_view(),
            final(self).shutdown_view() == old(self).shutdown_view(),
    {
        self.paused = false;
    }

    pub fn is_paused(&self) -> (r: bool)
        ensures
            r == self.paused_view(),
    {
        self.paused
    }

    /// Asks the workers to stop.
    pub fn request_shutdown(&mut self)
        ensures
            final(self).shutdown_view(),
            final(self).items_view() == old(self).items_view(),
            final(self).running_view() == old(self).running_view(),
            final(self).config_view() == old(self).config_view(),
            final(self).paused_view() == old(self).paused_view(),
    {
        self.shutdown = true;
    }

    pub fn is_shutting_down(&self) -> (r: bool)
        ensures
            r == self.shutdown_view(),
    {
        self.shutdown
    }

    /// Pauses item `id` (status `Paused`).
    pub fn pause_item(&mut self, id: OperationId) -> (r: Result<()>)
        requires
            old(self).wf(),
        ensures
            final(self).wf(),
            final(self).config_view() == old(self).config_view(),
            final(self).paused_view() == old(self).paused_view(),
            final(self).shutdown_view() == old(self).shutdown_view(),
            match index_of_id(old(self).items_view(), id) {
                Some(k) => r is Ok && final(self).items_view() == old(self).items_view().update(
                    k,
                    (ItemModel { status: QueueItemStatus::Paused, ..old(self).items_view()[k] }),
                ) && final(self).running_view() == old(self).running_view(),
                None => r is Err && r->Err_0 is Internal && r->Err_0->Internal_0@ == not_found_text(
                    id,
                ) && final(self).items_view() == old(self).items_view() && final(self).running_view() == old(self).running_view(),
            },
    {
        self.update_status(id, QueueItemStatus::Paused)
    }

    /// Cancels item `id` (status `Cancelled`, completed now, not running).
    pub fn cancel_item(&mut self, id: OperationId) -> (r: Result<()>)
        requires
            old(self).wf(),
        ensures
            final(self).wf(),
            final(self).config_view() == old(self).config_view(),
            final(self).paused_view() == old(self).paused_view(),
            final(self).shutdown_view() == old(self).shutdown_view(),
            match index_of_id(old(self).items_view(), id) {
                Some(k) => r is Ok && final(self).items_view()[k].status
                    == QueueItemStatus::Cancelled && final(self).items_view()[k].completed_at is Some
                    && final(self).items_view() == old(self).items_view().update(
                    k,
                    final(self).items_view()[k],
                ) && final(self).running_view() == without_id(old(self).running_view(), id),
                None => r is Err && r->Err_0 is Internal && r->Err_0->Internal_0@ == not_found_text(
                    id,
                ) && final(self).items_view() == old(self).items_view() && final(self).running_view() == old(self).running_view(),
            },
    {
        let r = self.update_status(id, QueueItemStatus::Cancelled);
        proof {
            match index_of_id(old(self).items_view(), id) {
                Some(k) => {
                    lemma_index_of_id(old(self).items_view(), id);
                    assert(final(self).items_view()[k].completed_at is Some);
                },
                None => {},
            }
        }
        r
    }

    /// Puts paused item `id` back to pending.
    pub fn resume_item(&mut self, id: OperationId) -> (r: Result<()>)
        requires
            old(self).wf(),
        ensures
            final(self).wf(),
            final(self).config_view() == old(self).config_view(),
            final(self).running_view() == old(self).running_view(),
            final(self).paused_view() == old(self).paused_view(),
            final(self).shutdown_view() == old(self).shutdown_view(),
            match index_of_id(old(self).items_view(), id) {
                Some(k) => if old(self).items_view()[k].status == QueueItemStatus::Paused {
                    r is Ok && final(self).items_view() == old(self).items_view().update(
                        k,
                        (ItemModel { status: QueueItemStatus::Pending, ..old(self).items_view()[k] }),
                    )
                } else {
                    r is Err && r->Err_0 is Internal && r->Err_0->Internal_0@ == "Item is not paused"@
                        && final(self).items_view() == old(self).items_view()
                },
                None => r is Err && r->Err_0 is Internal && r->Err_0->Internal_0@ == not_found_text(
                    id,
                ) && final(self).items_view() == old(self).items_view(),
            },
    {
        match self.find_index(id) {
            None => Err(not_found(id)),
            Some(k) => {
                proof {
                    lemma_index_of_id(self.items_view(), id);
                }
                if self.items[k].status == QueueItemStatus::Paused {
                    let mut item = self.items[k].duplicate_full();
                    item.status = QueueItemStatus::Pending;
                    self.replace_at(k, item);
                    Ok(())
                } else {
                    Err(TripleWrapperError::Internal(owned("Item is not paused")))
                }
            },
        }
    }

    /// Sends failed item `id` back to pending while retries remain: one more
    /// retry counted, error and timestamps cleared.
    pub fn retry_item(&mut self, id: OperationId) -> (r: Result<()>)
        requires
            old(self).wf(),
        ensures
            final(self).wf(),
            final(self).config_view() == old(self).config_view(),
            final(self).running_view() == old(self).running_view(),
            final(self).paused_view() == old(self).paused_view(),
            final(self).shutdown_view() == old(self).shutdown_view(),
            match index_of_id(old(self).items_view(), id) {
                Some(k) => {
                    let m = old(self).items_view()[k];
                    if m.status != QueueItemStatus::Failed {
                        r is Err && r->Err_0 is Internal && r->Err_0->Internal_0@
                            == "Item is not in failed state"@ && final(self).items_view() == old(self).items_view()
                    } else if m.retry_count >= m.max_retries {
                        r is Err && r->Err_0 is Internal && r->Err_0->Internal_0@
                            == "Max retries exceeded"@ && final(self).items_view() == old(self).items_view()
                    } else {
                        r is Ok && final(self).items_view() == old(self).items_view().update(
                            k,
                            (ItemModel {
                                status: QueueItemStatus::Pending,
                                retry_count: (m.retry_count + 1) as u32,
                                error_message: None,
                                started_at: None,
                                completed_at: None,
                                ..m
                            }),
                        )
                    }
                },
                None => r is Err && r->Err_0 is Internal && r->Err_0->Internal_0@ == not_found_text(
                    id,
                ) && final(self).items_view() == old(self).items_view(),
            },
    {
        match self.find_index(id) {
            None => Err(not_found(id)),
            Some(k) => {
                proof {
                    lemma_index_of_id(self.items_view(), id);
                }
                if self.items[k].status != QueueItemStatus::Failed {
                    return Err(TripleWrapperError::Internal(owned("Item is not in failed state")));
                }
                if self.items[k].retry_count >= self.items[k].max_retries {
                    return Err(TripleWrapperError::Internal(owned("Max retries exceeded")));
                }
                let mut item = self.items[k].duplicate_full();
                item.status = QueueItemStatus::Pending;
                item.retry_count = item.retry_count + 1;
                item.error_message = None;
                item.started_at = None;
                item.completed_at = None;
                self.replace_at(k, item);
                Ok(())
            },
        }
    }

    /// Drops finished items completed at or before `cutoff` (seconds since
    /// the epoch); returns how many were dropped.
    pub fn cleanup_before(&mut self, cutoff: u64) -> (removed: usize)
        requires
            old(self).wf(),
        ensures
            final(self).wf(),
            final(self).items_view() == old(self).items_view().filter(
                |m: ItemModel| survives_cleanup(m, cutoff),
            ),
            removed == old(self).items_view().len() - final(self).items_view().len(),
            final(self).config_view() == old(self).config_view(),
            final(self).running_view() == old(self).running_view(),
            final(self).paused_view() == old(self).paused_view(),
            final(self).shutdown_view() == old(self).shutdown_view(),
    {
        let ghost s = self.items_view();
        let initial = self.items.len();
        let mut taken: Vec<QueueItem> = Vec::new();
        std::mem::swap(&mut taken, &mut self.items);
        let mut src = reverse_items(taken);
        let mut kept: Vec<QueueItem> = Vec::new();
        let ghost n = s.len();
        let mut i: usize = 0;
        while src.len() > 0
            invariant
                src@.len() + i == n,
                n == s.len(),
                n == initial,
                i <= n,
                forall|j: int| 0 <= j < src@.len() ==> src@[j]@ == s[n - 1 - j],
                item_views(kept@) == s.take(i as int).filter(|m: ItemModel| survives_cleanup(m, cutoff)),
            decreases src.len(),
        {
            let item = src.pop().unwrap();
            assert(item@ == s[i as int]);
            assert(s.take(i + 1).drop_last() =~= s.take(i as int));
            let keep = item.status == QueueItemStatus::Pending || item.status
                == QueueItemStatus::Running || item.status == QueueItemStatus::Paused || (match item.completed_at {
                Some(t) => t,
                None => 0,
            }) > cutoff;
            let ghost k0 = item_views(kept@);
            if keep {
                kept.push(item);
                assert(item_views(kept@) =~= k0.push(s[i as int]));
            }
            assert(item_views(kept@) == s.take(i + 1).filter(|m: ItemModel| survives_cleanup(m, cutoff))) by {
                reveal(Seq::filter);
            }
            i = i + 1;
        }
        assert(s.take(n as int) =~= s);
        proof {
            let f = s.filter(|m: ItemModel| survives_cleanup(m, cutoff));
            s.lemma_filter_len(|m: ItemModel| survives_cleanup(m, cutoff));
            assert forall|a: int, b: int| 0 <= a < b < f.len() implies rank(f[b].priority) <= rank(
                f[a].priority,
            ) by {
                lemma_filter_order(s, |m: ItemModel| survives_cleanup(m, cutoff), a, b);
            }
        }
        self.items = kept;
        initial - self.items.len()
    }

    /// Drops finished items completed `max_age_secs` or more seconds before
    /// `now` (seconds since the epoch): the cut-off is `now - max_age_secs`,
    /// saturating at 0.
    pub fn cleanup_aged(&mut self, now: u64, max_age_secs: u64) -> (removed: usize)
        requires
            old(self).wf(),
        ensures
            final(self).wf(),
            final(self).items_view() == cleaned(old(self).items_view(), sat_sub(now, max_age_secs)),
            removed == old(self).items_view().len() - final(self).items_view().len(),
            final(self).config_view() == old(self).config_view(),
            final(self).running_view() == old(self).running_view(),
            final(self).paused_view() == old(self).paused_view(),
            final(self).shutdown_view() == old(self).shutdown_view(),
    {
        let cutoff = now.saturating_sub(max_age_secs);
        self.cleanup_before(cutoff)
    }

    /// Drops finished items completed `max_age_secs` or more seconds ago,
    /// measured against the system clock (see [`Self::cleanup_aged`]).
    pub fn cleanup_old(&mut self, max_age_secs: u64) -> (removed: usize)
        requires
            old(self).wf(),
        ensures
            final(self).wf(),
            exists|cutoff: u64| #[trigger] cleaned(old(self).items_view(), cutoff) == final(self).items_view(),
            exists|now: u64|
                #[trigger] cleaned(old(self).items_view(), sat_sub(now, max_age_secs))
                    == final(self).items_view(),
            removed == old(self).items_view().len() - final(self).items_view().len(),
            final(self).running_view() == old(self).running_view(),
    {
        let now = unix_now_secs();
        let removed = self.cleanup_aged(now, max_age_secs);
        assert(cleaned(old(self).items_view(), sat_sub(now, max_age_secs)) == self.items_view());
        removed
    }

    /// Copies of all items, in queue order.
    pub fn get_all(&self) -> (r: Vec<QueueItem>)
        ensures
            item_views(r@) == self.items_view(),
    {
        let mut r: Vec<QueueItem> = Vec::new();
        let mut i: usize = 0;
        while i < self.items.len()
            invariant
                i <= self.items@.len(),
                item_views(r@) == item_views(self.items@.take(i as int)),
            decreases self.items.len() - i,
        {
            let ghost r0 = item_views(r@);
            r.push(self.items[i].duplicate());
            assert(item_views(r@) =~= r0.push(self.items@[i as int]@));
            assert(item_views(self.items@.take(i + 1)) =~= item_views(self.items@.take(i as int)).push(
                self.items@[i as int]@,
            ));
            i = i + 1;
        }
        assert(self.items@.take(self.items.len() as int) =~= self.items@);
        r
    }

    /// Copies of the items with the given status, in queue order.
    pub fn get_by_status(&self, status: QueueItemStatus) -> (r: Vec<QueueItem>)
        ensures
            item_views(r@) == self.items_view().filter(|m: ItemModel| m.status == status),
    {
        let ghost s = self.items_view();
        let mut r: Vec<QueueItem> = Vec::new();
        let mut i: usize = 0;
        while i < self.items.len()
            invariant
                i <= self.items@.len(),
                s == item_views(self.items@),
                item_views(r@) == s.take(i as int).filter(|m: ItemModel| m.status == status),
            decreases self.items.len() - i,
        {
            let ghost r0 = item_views(r@);
            assert(s.take(i + 1).drop_last() =~= s.take(i as int));
            if self.items[i].status == status {
                r.push(self.items[i].duplicate());
                assert(item_views(r@) =~= r0.push(s[i as int]));
            }
            assert(item_views(r@) == s.take(i + 1).filter(|m: ItemModel| m.status == status)) by {
                reveal(Seq::filter);
            }
            i = i + 1;
        }
        assert(s.take(s.len() as int) =~= s);
        r
    }

    /// Number of running items.
    pub fn running_count(&self) -> (n: usize)
        ensures
            n == self.running_view().len(),
    {
        self.running.len()
    }

    /// Number of pending items.
    pub fn pending_count(&self) -> (n: usize)
        ensures
            n == self.items_view().filter(|m: ItemModel| m.status == QueueItemStatus::Pending).len(),
    {
        let ghost s = self.items_view();
        let mut n: usize = 0;
        let mut i: usize = 0;
        while i < self.items.len()
            invariant
                i <= self.items@.len(),
                s == item_views(self.items@),
                n == s.take(i as int).filter(|m: ItemModel| m.status == QueueItemStatus::Pending).len(),
                n <= i,
            decreases self.items.len() - i,
        {
            assert(s.take(i + 1).drop_last() =~= s.take(i as int));
            if self.items[i].status == QueueItemStatus::Pending {
                n = n + 1;
            }
            assert(n == s.take(i + 1).filter(|m: ItemModel| m.status == QueueItemStatus::Pending).len())
                by {
                reveal(Seq::filter);
            }
            i = i + 1;
        }
        assert(s.take(s.len() as int) =~= s);
        n
    }

    /// Whether fewer items run than the concurrency limit.
    pub fn can_accept_work(&self) -> (r: bool)
        ensures
            r == (self.running_view().len() < self.config_view().max_concurrent_operations),
    {
        self.running.len() < self.config.max_concurrent_operations
    }

    /// Sets the concurrency limit (at least 1).
    pub fn set_max_concurrent(&mut self, n: usize)
        ensures
            final(self).config_view().max_concurrent_operations == (if n < 1 {
                1
            } else {
                n
            }),
            final(self).config_view().default_priority == old(self).config_view().default_priority,
            final(self).config_view().max_retries == old(self).config_view().max_retries,
            final(self).config_view().retry_delay_seconds == old(self).config_view().retry_delay_seconds,
            final(self).config_view().persistence_path@ == old(self).config_view().persistence_path@,
            final(self).config_view().auto_start == old(self).config_view().auto_start,
            final(self).items_view() == old(self).items_view(),
            final(self).running_view() == old(self).running_view(),
            final(self).paused_view() == old(self).paused_view(),
            final(self).shutdown_view() == old(self).shutdown_view(),
    {
        self.config.max_concurrent_operations = if n < 1 {
            1
        } else {
            n
        };
    }

    /// Records how a worker's run of `item` (as it was handed out) ended:
    /// success completes it; a failure stores the message and sends it back
    /// to pending while retries remain, else fails it. The result is written
    /// to the queued item with that id, if it is still queued, and the id
    /// leaves the running set. Returns the status decided.
    pub fn record_outcome(&mut self, item: &mut QueueItem, outcome: Outcome) -> (status: QueueItemStatus)
        requires
            old(self).wf(),
        ensures
            final(self).wf(),
            match outcome {
                Outcome::Succeeded => status == QueueItemStatus::Completed && final(item)@ == old(item)@,
                Outcome::Failed(msg) => {
                    &&& final(item)@.error_message == Some(msg@)
                    &&& if old(item).retry_count < old(item).max_retries {
                        status == QueueItemStatus::Pending && final(item).retry_count == old(
                            item,
                        ).retry_count + 1
                    } else {
                        status == QueueItemStatus::Failed && final(item).retry_count == old(
                            item,
                        ).retry_count
                    }
                    &&& final(item)@ == (ItemModel {
                        error_message: final(item)@.error_message,
                        retry_count: final(item).retry_count,
                        ..old(item)@
                    })
                },
            },
            match index_of_id(old(self).items_view(), old(item).id) {
                Some(k) => {
                    let q = old(self).items_view()[k];
                    let base = (ItemModel {
                        status,
                        error_message: final(item)@.error_message,
                        retry_count: final(item).retry_count,
                        ..q
                    });
                    &&& is_terminal(status) ==> final(self).items_view() == old(self).items_view().update(
                        k,
                        (ItemModel { completed_at: final(self).items_view()[k].completed_at, ..base }),
                    ) && final(self).items_view()[k].completed_at is Some
                    &&& !is_terminal(status) ==> final(self).items_view() == old(self).items_view().update(k, (ItemModel { started_at: None, ..base }))
                },
                None => final(self).items_view() == old(self).items_view(),
            },
            final(self).running_view() == without_id(old(self).running_view(), old(item).id),
            final(self).config_view() == old(self).config_view(),
            final(self).paused_view() == old(self).paused_view(),
            final(self).shutdown_view() == old(self).shutdown_view(),
    {
        let status = match outcome {
            Outcome::Succeeded => QueueItemStatus::Completed,
            Outcome::Failed(msg) => {
                item.error_message = Some(msg);
                if item.retry_count < item.max_retries {
                    item.retry_count = item.retry_count + 1;
                    QueueItemStatus::Pending
                } else {
                    QueueItemStatus::Failed
                }
            },
        };
        let terminal = status != QueueItemStatus::Pending;
        match self.find_index(item.id) {
            Some(k) => {
                proof {
                    lemma_index_of_id(self.items_view(), item.id);
                }
                let mut q = self.items[k].duplicate_full();
                q.status = status;
                q.error_message = match &item.error_message {
                    Some(e) => Some(e.clone()),
                    None => None,
                };
                q.retry_count = item.retry_count;
                if terminal {
                    q.completed_at = Some(unix_now_secs());
                } else {
                    q.started_at = None;
                }
                self.replace_at(k, q);
            },
            None => {},
        }
        self.remove_running(item.id);
        status
    }
}

impl QueueItem {
    /// A copy of this item, equal to it.
    fn duplicate_full(&self) -> (r: Self)
        ensures
            r@ == self@,
            r.priority == self.priority,
            r.id == self.id,
    {
        self.duplicate()
    }
}

/// The items in reverse order (so that `pop` yields them front to back).
fn reverse_items(v: Vec<QueueItem>) -> (r: Vec<QueueItem>)
    ensures
        r@.len() == v@.len(),
        forall|j: int| 0 <= j < r@.len() ==> r@[j] == v@[v@.len() - 1 - j],
{
    let ghost v0 = v@;
    let mut v = v;
    let mut r: Vec<QueueItem> = Vec::new();
    while v.len() > 0
        invariant
            r@.len() + v@.len() == v0.len(),
            v@ == v0.take(v@.len() as int),
            forall|j: int| 0 <= j < r@.len() ==> r@[j] == v0[v0.len() - 1 - j],
        decreases v.len(),
    {
        let x = v.pop().unwrap();
        r.push(x);
    }
    r
}

/// The requests in reverse order (so that `pop` yields them front to back).
fn reverse_requests(v: Vec<(OperationRequest, Option<Priority>)>) -> (r: Vec<(OperationRequest, Option<Priority>)>)
    ensures
        r@.len() == v@.len(),
        forall|j: int| 0 <= j < r@.len() ==> r@[j] == v@[v@.len() - 1 - j],
{
    let ghost v0 = v@;
    let mut v = v;
    let mut r: Vec<(OperationRequest, Option<Priority>)> = Vec::new();
    while v.len() > 0
        invariant
            r@.len() + v@.len() == v0.len(),
            v@ == v0.take(v@.len() as int),
            forall|j: int| 0 <= j < r@.len() ==> r@[j] == v0[v0.len() - 1 - j],
        decreases v.len(),
    {
        let x = v.pop().unwrap();
        r.push(x);
    }
    r
}

/// Filtering keeps relative order.
proof fn lemma_filter_order(s: Seq<ItemModel>, f: spec_fn(ItemModel) -> bool, a: int, b: int)
    requires
        ordered_by_priority(s),
        0 <= a < b < s.filter(f).len(),
    ensures
        rank(s.filter(f)[b].priority) <= rank(s.filter(f)[a].priority),
    decreases s.len(),
{
    reveal(Seq::filter);
    if s.len() > 0 {
        let t = s.drop_last();
        assert(ordered_by_priority(t)) by {
            assert forall|i: int, j: int| 0 <= i < j < t.len() implies rank(t[j].priority) <= rank(
                t[i].priority,
            ) by {
                assert(t[i] == s[i] && t[j] == s[j]);
            }
        }
        t.lemma_filter_len(f);
        if f(s.last()) && b == s.filter(f).len() - 1 {
            // s.filter(f)[b] is s.last(); every kept item comes from an earlier index.
            assert(s.filter(f) == t.filter(f).push(s.last()));
            assert(s.filter(f)[a] == t.filter(f)[a]);
            lemma_filter_elem_from(t, f, a);
            let k = choose|k: int| 0 <= k < t.len() && t[k] == t.filter(f)[a];
            assert(t[k] == s[k]);
            assert(rank(s[s.len() - 1].priority) <= rank(s[k].priority));
        } else {
            if f(s.last()) {
                assert(s.filter(f) == t.filter(f).push(s.last()));
                assert(s.filter(f)[a] == t.filter(f)[a]);
                assert(s.filter(f)[b] == t.filter(f)[b]);
            } else {
                assert(s.filter(f) == t.filter(f));
            }
            lemma_filter_order(t, f, a, b);
        }
    }
}

proof fn lemma_filter_elem_from(s: Seq<ItemModel>, f: spec_fn(ItemModel) -> bool, a: int)
    requires
        0 <= a < s.filter(f).len(),
    ensures
        exists|k: int| 0 <= k < s.len() && s[k] == s.filter(f)[a],
{
    assert(s.filter(f).contains(s.filter(f)[a]));
    s.lemma_filter_contains_rev(f, s.filter(f)[a]);
}

proof fn lemma_max_id_after_insert(before: Seq<ItemModel>, after: Seq<ItemModel>, id: OperationId)
    requires
        id.0 == max_id(before) + 1,
        exists|k: int| 0 <= k <= before.len() && after == before.insert(k, after[k]) && after[k].id == id,
    ensures
        max_id(after) == id.0,
{
    let k = choose|k: int| 0 <= k <= before.len() && after == before.insert(k, after[k]) && after[k].id == id;
    lemma_max_id_insert(before, k, after[k]);
}

proof fn lemma_max_id_insert(s: Seq<ItemModel>, k: int, m: ItemModel)
    requires
        0 <= k <= s.len(),
        m.id.0 >= max_id(s),
    ensures
        max_id(s.insert(k, m)) == m.id.0,
    decreases s.len(),
{
    let t = s.insert(k, m);
    if k == s.len() {
        assert(t.drop_last() =~= s);
    } else {
        assert(t.drop_last() =~= s.drop_last().insert(k, m));
        lemma_max_id_bound(s);
        assert(max_id(s.drop_last()) <= max_id(s)) by {
            lemma_max_id_mono(s);
        }
        lemma_max_id_insert(s.drop_last(), k, m);
        assert(t.last() == s.last());
    }
}

proof fn lemma_max_id_mono(s: Seq<ItemModel>)
    requires
        s.len() > 0,
    ensures
        max_id(s.drop_last()) <= max_id(s),
{
}

} // verus!
