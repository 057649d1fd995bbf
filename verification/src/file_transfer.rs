//! Directory listings and the progress of file transfers, kept for a consumer that polls.

use crate::json::{
    json_list, json_member, json_of, json_text, json_values, lemma_merged_distinct, object_of,
    Fields, Json, JsonFields,
};
use crate::message::{FileEntry, SessionID};
use crate::table::{
    distinct_keys, lemma_lookup_absent, lemma_lookup_at, lemma_lookup_put, lemma_put_distinct,
    lemma_put_put, lemma_put_same, lookup, put, Table,
};
use crate::text::opt_text;
use std::collections::VecDeque;
use vstd::prelude::*;

verus! {

/// The most directory listings that wait for one session.
pub const MAX_FT_DIR_LISTINGS: usize = 64;

/// The most job events that wait for one session.
pub const MAX_FT_JOB_EVENTS: usize = 512;

/// What waits for one session.
pub struct HeadlessFtQueues {
    dir_listings: VecDeque<String>,
    job_events: VecDeque<String>,
    /// The question whether to overwrite a file; there is at most one.
    override_confirm: Option<String>,
}

/// What waits for one session, each item a JSON text, the oldest one first.
pub struct FtQueuesView {
    pub dir_listings: Seq<Seq<char>>,
    pub job_events: Seq<Seq<char>>,
    pub override_confirm: Option<Seq<char>>,
}

impl View for HeadlessFtQueues {
    type V = FtQueuesView;

    closed spec fn view(&self) -> FtQueuesView {
        FtQueuesView {
            dir_listings: self.dir_listings@.map_values(|s: String| s@),
            job_events: self.job_events@.map_values(|s: String| s@),
            override_confirm: opt_text(self.override_confirm),
        }
    }
}

/// A queue of at most `max` items after one more came: the oldest one makes room.
pub open spec fn bounded_push(queue: Seq<Seq<char>>, item: Seq<char>, max: int) -> Seq<Seq<char>> {
    if queue.len() < max {
        queue.push(item)
    } else {
        queue.push(item).skip(1)
    }
}

impl FtQueuesView {
    pub open spec fn empty() -> FtQueuesView {
        FtQueuesView {
            dir_listings: Seq::empty(),
            job_events: Seq::empty(),
            override_confirm: None,
        }
    }

    /// The queues are within their bounds.
    pub open spec fn wf(self) -> bool {
        &&& self.dir_listings.len() <= MAX_FT_DIR_LISTINGS
        &&& self.job_events.len() <= MAX_FT_JOB_EVENTS
    }

    pub open spec fn with_dir_listing(self, json: Seq<char>) -> FtQueuesView {
        FtQueuesView {
            dir_listings: bounded_push(self.dir_listings, json, MAX_FT_DIR_LISTINGS as int),
            ..self
        }
    }

    pub open spec fn with_job_event(self, json: Seq<char>) -> FtQueuesView {
        FtQueuesView {
            job_events: bounded_push(self.job_events, json, MAX_FT_JOB_EVENTS as int),
            ..self
        }
    }

    pub open spec fn with_override_confirm(self, json: Seq<char>) -> FtQueuesView {
        FtQueuesView { override_confirm: Some(json), ..self }
    }
}

/// What waits for each session.
pub struct HeadlessFt {
    sessions: Table<SessionID, HeadlessFtQueues>,
}

/// What waits for each session.
pub struct FtView {
    pub sessions: Seq<(SessionID, FtQueuesView)>,
}

impl View for HeadlessFt {
    type V = FtView;

    closed spec fn view(&self) -> FtView {
        FtView { sessions: self.sessions@ }
    }
}

impl FtView {
    pub open spec fn wf(self) -> bool {
        &&& distinct_keys(self.sessions)
        &&& forall|i: int| 0 <= i < self.sessions.len() ==> (#[trigger] self.sessions[i]).1.wf()
    }

    /// What waits for a session.
    pub open spec fn queues(self, id: SessionID) -> FtQueuesView {
        match lookup(self.sessions, id) {
            Some(queues) => queues,
            None => FtQueuesView::empty(),
        }
    }

    /// The same, with other queues for one session.
    pub open spec fn with(self, id: SessionID, queues: FtQueuesView) -> FtView {
        FtView { sessions: put(self.sessions, id, queues) }
    }

    pub open spec fn push_dir_listing(self, id: SessionID, json: Seq<char>) -> FtView {
        self.with(id, self.queues(id).with_dir_listing(json))
    }

    pub open spec fn push_job_event(self, id: SessionID, json: Seq<char>) -> FtView {
        self.with(id, self.queues(id).with_job_event(json))
    }

    pub open spec fn set_override_confirm(self, id: SessionID, json: Seq<char>) -> FtView {
        self.with(id, self.queues(id).with_override_confirm(json))
    }

    /// The oldest directory listing of a session is taken.
    pub open spec fn take_dir_listing(self, id: SessionID) -> FtView {
        let queues = self.queues(id);
        if queues.dir_listings.len() > 0 {
            self.with(
                id,
                FtQueuesView { dir_listings: queues.dir_listings.skip(1), ..queues },
            )
        } else {
            self
        }
    }

    /// The oldest job event of a session is taken.
    pub open spec fn take_job_event(self, id: SessionID) -> FtView {
        let queues = self.queues(id);
        if queues.job_events.len() > 0 {
            self.with(id, FtQueuesView { job_events: queues.job_events.skip(1), ..queues })
        } else {
            self
        }
    }

    /// The question of a session is taken.
    pub open spec fn take_override_confirm(self, id: SessionID) -> FtView {
        let queues = self.queues(id);
        if queues.override_confirm is Some {
            self.with(id, FtQueuesView { override_confirm: None, ..queues })
        } else {
            self
        }
    }
}

/// The front of a queue.
pub open spec fn front(queue: Seq<Seq<char>>) -> Option<Seq<char>> {
    if queue.len() > 0 {
        Some(queue[0])
    } else {
        None
    }
}

proof fn lemma_with_wf(ft: FtView, id: SessionID, queues: FtQueuesView)
    requires
        ft.wf(),
        queues.wf(),
    ensures
        ft.with(id, queues).wf(),
{
    let after = ft.with(id, queues).sessions;
    lemma_put_distinct(ft.sessions, id, queues);
    assert forall|i: int| 0 <= i < after.len() implies (#[trigger] after[i]).1.wf() by {
        lemma_lookup_at(after, i);
        lemma_lookup_put(ft.sessions, id, queues, after[i].0);
        lemma_lookup_absent(ft.sessions, after[i].0);
        if after[i].0 != id {
            let j = choose|j: int|
                0 <= j < ft.sessions.len() && (#[trigger] ft.sessions[j]).0 == after[i].0;
            lemma_lookup_at(ft.sessions, j);
        }
    }
}

proof fn lemma_queues_wf(ft: FtView, id: SessionID)
    requires
        ft.wf(),
    ensures
        ft.queues(id).wf(),
{
    lemma_lookup_absent(ft.sessions, id);
    if lookup(ft.sessions, id) is Some {
        let j = choose|j: int| 0 <= j < ft.sessions.len() && (#[trigger] ft.sessions[j]).0 == id;
        lemma_lookup_at(ft.sessions, j);
    }
}

fn push_bounded(queue: &mut VecDeque<String>, json: String, max: usize)
    requires
        old(queue)@.len() <= max,
    ensures
        final(queue)@.map_values(|s: String| s@) == bounded_push(
            old(queue)@.map_values(|s: String| s@),
            json@,
            max as int,
        ),
{
    queue.push_back(json);
    if queue.len() > max {
        queue.pop_front();
    }
    assert(queue@.map_values(|s: String| s@) =~= bounded_push(
        old(queue)@.map_values(|s: String| s@),
        json@,
        max as int,
    ));
}

impl HeadlessFtQueues {
    fn new() -> (queues: HeadlessFtQueues)
        ensures
            queues@ == FtQueuesView::empty(),
    {
        let queues = HeadlessFtQueues {
            dir_listings: VecDeque::new(),
            job_events: VecDeque::new(),
            override_confirm: None,
        };
        assert(queues@.dir_listings =~= Seq::empty());
        assert(queues@.job_events =~= Seq::empty());
        queues
    }
}

impl HeadlessFt {
    pub open spec fn wf(&self) -> bool {
        self@.wf()
    }

    pub fn new() -> (ft: HeadlessFt)
        ensures
            ft@.sessions == Seq::<(SessionID, FtQueuesView)>::empty(),
            ft.wf(),
    {
        HeadlessFt { sessions: Table::new() }
    }

    /// Makes sure that a session has queues.
    fn ensure(&mut self, id: SessionID)
        requires
            old(self).wf(),
        ensures
            lookup(final(self)@.sessions, id) == Some(old(self)@.queues(id)),
            forall|queues: FtQueuesView| #[trigger]
                final(self)@.with(id, queues) == old(self)@.with(id, queues),
            final(self).sessions.wf(),
    {
        if !self.sessions.contains_key(&id) {
            self.sessions.insert(id, HeadlessFtQueues::new());
            proof {
                lemma_lookup_put(old(self)@.sessions, id, FtQueuesView::empty(), id);
                assert forall|queues: FtQueuesView| #[trigger]
                    self@.with(id, queues) == old(self)@.with(id, queues) by {
                    lemma_put_put(old(self)@.sessions, id, FtQueuesView::empty(), queues);
                }
            }
        }
    }
}

/// Queues a directory listing for a session.
pub fn ft_push_dir_listing(ft: &mut HeadlessFt, session_id: SessionID, json: String)
    requires
        old(ft).wf(),
    ensures
        final(ft)@ == old(ft)@.push_dir_listing(session_id, json@),
        final(ft).wf(),
{
    proof {
        lemma_queues_wf(ft@, session_id);
        lemma_with_wf(ft@, session_id, ft@.queues(session_id).with_dir_listing(json@));
    }
    let ghost goal = ft@.queues(session_id).with_dir_listing(json@);
    ft.ensure(session_id);
    let ghost ready = ft@;
    if let Some(queues) = ft.sessions.get_mut(&session_id) {
        push_bounded(&mut queues.dir_listings, json, MAX_FT_DIR_LISTINGS);
    }
    assert(ft@ == ready.with(session_id, goal));
}

/// Queues a job event for a session.
pub fn ft_push_job_event(ft: &mut HeadlessFt, session_id: SessionID, json: String)
    requires
        old(ft).wf(),
    ensures
        final(ft)@ == old(ft)@.push_job_event(session_id, json@),
        final(ft).wf(),
{
    proof {
        lemma_queues_wf(ft@, session_id);
        lemma_with_wf(ft@, session_id, ft@.queues(session_id).with_job_event(json@));
    }
    let ghost goal = ft@.queues(session_id).with_job_event(json@);
    ft.ensure(session_id);
    let ghost ready = ft@;
    if let Some(queues) = ft.sessions.get_mut(&session_id) {
        push_bounded(&mut queues.job_events, json, MAX_FT_JOB_EVENTS);
    }
    assert(ft@ == ready.with(session_id, goal));
}

/// Notes the question of a session; an earlier one that was not taken is replaced.
pub fn ft_set_override_confirm(ft: &mut HeadlessFt, session_id: SessionID, json: String)
    requires
        old(ft).wf(),
    ensures
        final(ft)@ == old(ft)@.set_override_confirm(session_id, json@),
        final(ft).wf(),
{
    proof {
        lemma_queues_wf(ft@, session_id);
        lemma_with_wf(ft@, session_id, ft@.queues(session_id).with_override_confirm(json@));
    }
    let ghost goal = ft@.queues(session_id).with_override_confirm(json@);
    ft.ensure(session_id);
    let ghost ready = ft@;
    if let Some(queues) = ft.sessions.get_mut(&session_id) {
        queues.override_confirm = Some(json);
    }
    assert(ft@ == ready.with(session_id, goal));
}

/// Takes the oldest directory listing of a session.
pub fn ft_take_dir_listing(ft: &mut HeadlessFt, session_id: &SessionID) -> (json: Option<String>)
    requires
        old(ft).wf(),
    ensures
        opt_text(json) == front(old(ft)@.queues(*session_id).dir_listings),
        final(ft)@ == old(ft)@.take_dir_listing(*session_id),
        final(ft).wf(),
{
    let ghost before = ft@;
    proof {
        lemma_queues_wf(before, *session_id);
        let queues = before.queues(*session_id);
        if queues.dir_listings.len() > 0 {
            lemma_with_wf(
                before,
                *session_id,
                FtQueuesView { dir_listings: queues.dir_listings.skip(1), ..queues },
            );
        }
    }
    let json = match ft.sessions.get_mut(session_id) {
        Some(queues) => {
            let ghost was = queues@;
            let json = queues.dir_listings.pop_front();
            assert(was.dir_listings.len() > 0 ==> queues@.dir_listings
                =~= was.dir_listings.skip(1));
            json
        },
        None => None,
    };
    proof {
        lemma_put_same(before.sessions, *session_id);
    }
    json
}

/// Takes the oldest job event of a session.
pub fn ft_take_job_event(ft: &mut HeadlessFt, session_id: &SessionID) -> (json: Option<String>)
    requires
        old(ft).wf(),
    ensures
        opt_text(json) == front(old(ft)@.queues(*session_id).job_events),
        final(ft)@ == old(ft)@.take_job_event(*session_id),
        final(ft).wf(),
{
    let ghost before = ft@;
    proof {
        lemma_queues_wf(before, *session_id);
        let queues = before.queues(*session_id);
        if queues.job_events.len() > 0 {
            lemma_with_wf(
                before,
                *session_id,
                FtQueuesView { job_events: queues.job_events.skip(1), ..queues },
            );
        }
    }
    let json = match ft.sessions.get_mut(session_id) {
        Some(queues) => {
            let ghost was = queues@;
            let json = queues.job_events.pop_front();
            assert(was.job_events.len() > 0 ==> queues@.job_events =~= was.job_events.skip(1));
            json
        },
        None => None,
    };
    proof {
        lemma_put_same(before.sessions, *session_id);
    }
    json
}

/// Takes the question of a session.
pub fn ft_take_override_confirm(ft: &mut HeadlessFt, session_id: &SessionID) -> (json: Option<
    String,
>)
    requires
        old(ft).wf(),
    ensures
        opt_text(json) == old(ft)@.queues(*session_id).override_confirm,
        final(ft)@ == old(ft)@.take_override_confirm(*session_id),
        final(ft).wf(),
{
    let ghost before = ft@;
    proof {
        lemma_queues_wf(before, *session_id);
        let queues = before.queues(*session_id);
        lemma_with_wf(before, *session_id, FtQueuesView { override_confirm: None, ..queues });
    }
    let json = match ft.sessions.get_mut(session_id) {
        Some(queues) => queues.override_confirm.take(),
        None => None,
    };
    proof {
        lemma_put_same(before.sessions, *session_id);
    }
    json
}

/// The JSON object of a directory entry.
pub open spec fn entry_json(entry: FileEntry) -> Json {
    object_of(
        JsonFields::empty()
            .push(("entry_type"@, Json::Integer(entry.entry_type as int)))
            .push(("name"@, Json::Text(entry.name@)))
            .push(("is_hidden"@, Json::Bool(entry.is_hidden)))
            .push(("size"@, Json::Integer(entry.size as int)))
            .push(("modified_time"@, Json::Integer(entry.modified_time as int))),
    )
}

/// The JSON objects of the entries of a directory.
pub fn ft_entries_to_json(entries: &Vec<FileEntry>) -> (values: Vec<serde_json::Value>)
    ensures
        json_values(values@) == entries@.map_values(|entry: FileEntry| entry_json(entry)),
{
    let mut values: Vec<serde_json::Value> = Vec::new();
    let ghost goal = entries@.map_values(|entry: FileEntry| entry_json(entry));
    assert(json_values(values@) =~= goal.take(0));
    let mut i: usize = 0;
    while i < entries.len()
        invariant
            i <= entries.len(),
            goal == entries@.map_values(|entry: FileEntry| entry_json(entry)),
            json_values(values@) == goal.take(i as int),
        decreases entries.len() - i,
    {
        let entry = &entries[i];
        let value = Fields::new()
            .integer("entry_type", entry.entry_type as i64)
            .text("name", entry.name.as_str())
            .truth("is_hidden", entry.is_hidden)
            .unsigned("size", entry.size)
            .unsigned("modified_time", entry.modified_time)
            .object();
        assert(json_of(value) == entry_json(*entry));
        let ghost before = values@;
        values.push(value);
        assert(json_values(values@) =~= json_values(before).push(entry_json(*entry)));
        assert(goal.take(i + 1) =~= goal.take(i as int).push(goal[i as int]));
        i += 1;
    }
    assert(goal.take(goal.len() as int) =~= goal);
    values
}

/// The sum of the sizes of the entries.
pub open spec fn total_size(entries: Seq<FileEntry>) -> nat
    decreases entries.len(),
{
    if entries.len() == 0 {
        0
    } else {
        total_size(entries.drop_last()) + entries.last().size as nat
    }
}

proof fn lemma_total_size_grows(entries: Seq<FileEntry>, i: int)
    requires
        0 <= i <= entries.len(),
    ensures
        total_size(entries.take(i)) <= total_size(entries),
    decreases entries.len(),
{
    if i < entries.len() {
        lemma_total_size_grows(entries.drop_last(), i);
        assert(entries.drop_last().take(i) =~= entries.take(i));
    } else {
        assert(entries.take(i) =~= entries);
    }
}

/// The sum of the sizes of the entries, which has to fit.
pub fn sum_sizes(entries: &Vec<FileEntry>) -> (total: u64)
    requires
        total_size(entries@) <= u64::MAX,
    ensures
        total == total_size(entries@),
{
    let mut total: u64 = 0;
    let mut i: usize = 0;
    while i < entries.len()
        invariant
            i <= entries.len(),
            total_size(entries@) <= u64::MAX,
            total == total_size(entries@.take(i as int)),
        decreases entries.len() - i,
    {
        proof {
            lemma_total_size_grows(entries@, i + 1);
            assert(entries@.take(i + 1).drop_last() =~= entries@.take(i as int));
        }
        total = total + entries[i].size;
        i += 1;
    }
    assert(entries@.take(entries@.len() as int) =~= entries@);
    total
}

/// The JSON real numbers of a directory entry.
pub struct EntryReals {
    pub time: serde_json::Value,
    pub size: serde_json::Value,
}

/// The JSON object of a directory entry for the user interface, which wants the time and the size
/// as real numbers.
pub open spec fn fd_entry_json(entry: FileEntry, reals: EntryReals) -> Json {
    object_of(
        JsonFields::empty()
            .push(("name"@, Json::Text(entry.name@)))
            .push(("type"@, Json::Integer(fd_type(entry.entry_type) as int)))
            .push(("time"@, json_of(reals.time)))
            .push(("size"@, json_of(reals.size))),
    )
}

/// The type of a directory entry for the user interface: a directory is of type 1 there.
pub open spec fn fd_type(entry_type: i32) -> i32 {
    if entry_type == 0 {
        1
    } else {
        entry_type
    }
}

/// The JSON objects of the directory entries for the user interface.
pub open spec fn fd_entries_json(entries: Seq<FileEntry>, reals: Seq<EntryReals>) -> Seq<Json> {
    Seq::new(entries.len(), |i: int| fd_entry_json(entries[i], reals[i]))
}

fn fd_entry(entry: &FileEntry, reals: EntryReals) -> (value: serde_json::Value)
    ensures
        json_of(value) == fd_entry_json(*entry, reals),
{
    let kind: i32 = if entry.entry_type == 0 {
        1
    } else {
        entry.entry_type
    };
    Fields::new()
        .text("name", entry.name.as_str())
        .integer("type", kind as i64)
        .value("time", reals.time)
        .value("size", reals.size)
        .object()
}

/// A directory listing for the user interface: the entries, or only how many there are, and the sum
/// of their sizes. The real numbers of the entries and of the sum come with it.
pub fn make_fd_flutter(
    id: i32,
    entries: &Vec<FileEntry>,
    only_count: bool,
    reals: Vec<EntryReals>,
    total: serde_json::Value,
) -> (text: String)
    requires
        !only_count ==> reals@.len() == entries@.len(),
    ensures
        text@ == json_text(
            object_of(
                JsonFields::empty()
                    .push(("id"@, Json::Integer(id as int)))
                    .push(
                    if only_count {
                        ("num_entries"@, Json::Integer(entries@.len() as i32 as int))
                    } else {
                        ("entries"@, Json::List(fd_entries_json(entries@, reals@)))
                    },
                ).push(("total_size"@, json_of(total))),
            ),
        ),
{
    let fields = Fields::new().integer("id", id as i64);
    let fields = if only_count {
        fields.integer("num_entries", entries.len() as i32 as i64)
    } else {
        let mut values: Vec<serde_json::Value> = Vec::new();
        let ghost goal = fd_entries_json(entries@, reals@);
        let mut i: usize = 0;
        let count: usize = entries.len();
        assert(json_values(values@) =~= goal.take(0));
        for pair in it: reals.into_iter()
            invariant
                it.seq() == reals@,
                reals@.len() == entries@.len(),
                count == entries@.len(),
                i == it.index(),
                goal == fd_entries_json(entries@, reals@),
                json_values(values@) == goal.take(i as int),
        {
            assert(i < count);
            let value = fd_entry(&entries[i], pair);
            let ghost before = values@;
            values.push(value);
            assert(json_values(values@) =~= json_values(before).push(json_of(value)));
            assert(goal.take(i + 1) =~= goal.take(i as int).push(goal[i as int]));
            i += 1;
        }
        assert(goal.take(goal.len() as int) =~= goal);
        fields.value("entries", json_list(values))
    };
    fields.value("total_size", total).print()
}

/// The queues of one session are its own: what is queued or taken for one session leaves every
/// other session alone.
pub proof fn lemma_other_sessions_stay(ft: FtView, id: SessionID, queues: FtQueuesView, other: SessionID)
    requires
        other != id,
    ensures
        ft.with(id, queues).queues(other) == ft.queues(other),
        ft.with(id, queues).queues(id) == queues,
{
    lemma_lookup_put(ft.sessions, id, queues, other);
    lemma_lookup_put(ft.sessions, id, queues, id);
}

/// A listing that is queued while none waits is the one that is taken next; then none waits.
pub proof fn lemma_dir_listing_comes_back(ft: FtView, id: SessionID, json: Seq<char>)
    requires
        ft.queues(id).dir_listings.len() == 0,
    ensures
        front(ft.push_dir_listing(id, json).queues(id).dir_listings) == Some(json),
        ft.push_dir_listing(id, json).take_dir_listing(id).queues(id).dir_listings.len() == 0,
{
    let pushed = ft.push_dir_listing(id, json);
    let queues = pushed.queues(id);
    lemma_lookup_put(ft.sessions, id, ft.queues(id).with_dir_listing(json), id);
    lemma_lookup_put(
        pushed.sessions,
        id,
        FtQueuesView { dir_listings: queues.dir_listings.skip(1), ..queues },
        id,
    );
}

/// A job event that is queued while none waits is the one that is taken next; then none waits.
pub proof fn lemma_job_event_comes_back(ft: FtView, id: SessionID, json: Seq<char>)
    requires
        ft.queues(id).job_events.len() == 0,
    ensures
        front(ft.push_job_event(id, json).queues(id).job_events) == Some(json),
        ft.push_job_event(id, json).take_job_event(id).queues(id).job_events.len() == 0,
{
    let pushed = ft.push_job_event(id, json);
    let queues = pushed.queues(id);
    lemma_lookup_put(ft.sessions, id, ft.queues(id).with_job_event(json), id);
    lemma_lookup_put(
        pushed.sessions,
        id,
        FtQueuesView { job_events: queues.job_events.skip(1), ..queues },
        id,
    );
}

/// A question is taken once.
pub proof fn lemma_override_confirm_is_taken_once(ft: FtView, id: SessionID, json: Seq<char>)
    ensures
        ft.set_override_confirm(id, json).queues(id).override_confirm == Some(json),
        ft.set_override_confirm(id, json).take_override_confirm(id).queues(id).override_confirm
            is None,
{
    let set = ft.set_override_confirm(id, json);
    lemma_lookup_put(ft.sessions, id, ft.queues(id).with_override_confirm(json), id);
    lemma_lookup_put(
        set.sessions,
        id,
        FtQueuesView { override_confirm: None, ..set.queues(id) },
        id,
    );
}

/// A queue never grows beyond its bound, ends with what came last, and keeps the others in their
/// order; only a full queue loses its oldest item.
pub proof fn lemma_bounded_push(queue: Seq<Seq<char>>, item: Seq<char>, max: int)
    requires
        0 < max,
        queue.len() <= max,
    ensures
        bounded_push(queue, item, max).len() <= max,
        bounded_push(queue, item, max).last() == item,
        queue.len() < max ==> bounded_push(queue, item, max).drop_last() == queue,
        queue.len() == max ==> bounded_push(queue, item, max).drop_last() == queue.skip(1),
{
    assert(queue.push(item).drop_last() =~= queue);
    assert(queue.len() > 0 ==> queue.push(item).skip(1).drop_last() =~= queue.skip(1));
}

/// What is queued, or asked, for a session changes one of its queues only: the item is the last one
/// there, the earlier ones stay in their order, and of 64 listings or 512 job events the oldest makes
/// room.
pub proof fn lemma_queued_items(ft: FtView, id: SessionID, json: Seq<char>)
    requires
        ft.wf(),
    ensures
        ({
            let before = ft.queues(id);
            let listed = ft.push_dir_listing(id, json).queues(id);
            let told = ft.push_job_event(id, json).queues(id);
            let asked = ft.set_override_confirm(id, json).queues(id);
            &&& listed.dir_listings == if before.dir_listings.len() == 64 {
                before.dir_listings.skip(1).push(json)
            } else {
                before.dir_listings.push(json)
            }
            &&& listed.job_events == before.job_events
            &&& listed.override_confirm == before.override_confirm
            &&& told.job_events == if before.job_events.len() == 512 {
                before.job_events.skip(1).push(json)
            } else {
                before.job_events.push(json)
            }
            &&& told.dir_listings == before.dir_listings
            &&& told.override_confirm == before.override_confirm
            &&& asked.override_confirm == Some(json)
            &&& asked.dir_listings == before.dir_listings
            &&& asked.job_events == before.job_events
        }),
{
    let before = ft.queues(id);
    lemma_queues_wf(ft, id);
    lemma_lookup_put(ft.sessions, id, before.with_dir_listing(json), id);
    lemma_lookup_put(ft.sessions, id, before.with_job_event(json), id);
    lemma_lookup_put(ft.sessions, id, before.with_override_confirm(json), id);
    assert(before.dir_listings.len() == 64 ==> before.dir_listings.push(json).skip(1)
        =~= before.dir_listings.skip(1).push(json));
    assert(before.job_events.len() == 512 ==> before.job_events.push(json).skip(1)
        =~= before.job_events.skip(1).push(json));
}

/// What is taken from a session is the oldest item of one queue; the later ones stay in their order,
/// and the other queues are left alone.
pub proof fn lemma_taken_items(ft: FtView, id: SessionID)
    ensures
        ({
            let before = ft.queues(id);
            let listed = ft.take_dir_listing(id).queues(id);
            let told = ft.take_job_event(id).queues(id);
            let asked = ft.take_override_confirm(id).queues(id);
            &&& before.dir_listings.len() > 0 ==> front(before.dir_listings) == Some(
                before.dir_listings.first(),
            ) && seq![before.dir_listings.first()] + listed.dir_listings == before.dir_listings
            &&& before.dir_listings.len() == 0 ==> front(before.dir_listings) is None && listed
                == before
            &&& listed.job_events == before.job_events
            &&& listed.override_confirm == before.override_confirm
            &&& before.job_events.len() > 0 ==> front(before.job_events) == Some(
                before.job_events.first(),
            ) && seq![before.job_events.first()] + told.job_events == before.job_events
            &&& before.job_events.len() == 0 ==> front(before.job_events) is None && told == before
            &&& told.dir_listings == before.dir_listings
            &&& told.override_confirm == before.override_confirm
            &&& asked.override_confirm is None
            &&& asked.dir_listings == before.dir_listings
            &&& asked.job_events == before.job_events
        }),
{
    let before = ft.queues(id);
    lemma_lookup_put(
        ft.sessions,
        id,
        FtQueuesView { dir_listings: before.dir_listings.skip(1), ..before },
        id,
    );
    lemma_lookup_put(
        ft.sessions,
        id,
        FtQueuesView { job_events: before.job_events.skip(1), ..before },
        id,
    );
    lemma_lookup_put(ft.sessions, id, FtQueuesView { override_confirm: None, ..before }, id);
    if before.dir_listings.len() > 0 {
        assert(seq![before.dir_listings.first()] + before.dir_listings.skip(1)
            =~= before.dir_listings);
    }
    if before.job_events.len() > 0 {
        assert(seq![before.job_events.first()] + before.job_events.skip(1) =~= before.job_events);
    }
}

/// Nothing that is queued, asked or taken for one session touches another one.
pub proof fn lemma_operations_stay_in_their_session(
    ft: FtView,
    id: SessionID,
    json: Seq<char>,
    other: SessionID,
)
    requires
        other != id,
    ensures
        ft.push_dir_listing(id, json).queues(other) == ft.queues(other),
        ft.push_job_event(id, json).queues(other) == ft.queues(other),
        ft.set_override_confirm(id, json).queues(other) == ft.queues(other),
        ft.take_dir_listing(id).queues(other) == ft.queues(other),
        ft.take_job_event(id).queues(other) == ft.queues(other),
        ft.take_override_confirm(id).queues(other) == ft.queues(other),
{
    let before = ft.queues(id);
    lemma_other_sessions_stay(ft, id, before.with_dir_listing(json), other);
    lemma_other_sessions_stay(ft, id, before.with_job_event(json), other);
    lemma_other_sessions_stay(ft, id, before.with_override_confirm(json), other);
    lemma_other_sessions_stay(
        ft,
        id,
        FtQueuesView { dir_listings: before.dir_listings.skip(1), ..before },
        other,
    );
    lemma_other_sessions_stay(
        ft,
        id,
        FtQueuesView { job_events: before.job_events.skip(1), ..before },
        other,
    );
    lemma_other_sessions_stay(
        ft,
        id,
        FtQueuesView { override_confirm: None, ..before },
        other,
    );
}

/// A session of which nothing was ever told has nothing waiting.
pub proof fn lemma_nothing_waits_at_first(ft: FtView, id: SessionID)
    requires
        lookup(ft.sessions, id) is None,
    ensures
        ft.queues(id).dir_listings.len() == 0,
        ft.queues(id).job_events.len() == 0,
        ft.queues(id).override_confirm is None,
{
}

/// The sizes of two listings together are the sum of both, an empty listing has none, and one entry
/// has its own.
pub proof fn lemma_total_size(a: Seq<FileEntry>, b: Seq<FileEntry>, entry: FileEntry)
    ensures
        total_size(a + b) == total_size(a) + total_size(b),
        total_size(Seq::<FileEntry>::empty()) == 0,
        total_size(a.push(entry)) == total_size(a) + entry.size,
    decreases b.len(),
{
    assert(a.push(entry).drop_last() =~= a);
    if b.len() == 0 {
        assert(a + b =~= a);
    } else {
        lemma_total_size(a, b.drop_last(), entry);
        assert((a + b).drop_last() =~= a + b.drop_last());
    }
}

/// A directory is of type 1 for the user interface; every other entry keeps its type.
pub proof fn lemma_fd_type(entry_type: i32)
    ensures
        entry_type == 0 ==> fd_type(entry_type) == 1,
        entry_type != 0 ==> fd_type(entry_type) == entry_type,
{
}

/// The JSON object of an entry for a session that polls holds what the entry is, and nothing else.
pub proof fn lemma_entry_json(entry: FileEntry)
    ensures
        json_member(entry_json(entry), "entry_type"@) == Some(
            Json::Integer(entry.entry_type as int),
        ),
        json_member(entry_json(entry), "name"@) == Some(Json::Text(entry.name@)),
        json_member(entry_json(entry), "is_hidden"@) == Some(Json::Bool(entry.is_hidden)),
        json_member(entry_json(entry), "size"@) == Some(Json::Integer(entry.size as int)),
        json_member(entry_json(entry), "modified_time"@) == Some(
            Json::Integer(entry.modified_time as int),
        ),
        entry_json(entry)->Object_0.len() == 5,
{
    reveal_strlit("entry_type");
    reveal_strlit("name");
    reveal_strlit("is_hidden");
    reveal_strlit("size");
    reveal_strlit("modified_time");
    let f = JsonFields::empty()
        .push(("entry_type"@, Json::Integer(entry.entry_type as int)))
        .push(("name"@, Json::Text(entry.name@)))
        .push(("is_hidden"@, Json::Bool(entry.is_hidden)))
        .push(("size"@, Json::Integer(entry.size as int)))
        .push(("modified_time"@, Json::Integer(entry.modified_time as int)));
    assert("entry_type"@.len() == 10 && "name"@.len() == 4 && "is_hidden"@.len() == 9);
    assert("size"@.len() == 4 && "modified_time"@.len() == 13);
    assert("name"@[0] == 'n' && "size"@[0] == 's');
    assert(distinct_keys(f));
    lemma_merged_distinct(f);
    lemma_lookup_at(f, 0);
    lemma_lookup_at(f, 1);
    lemma_lookup_at(f, 2);
    lemma_lookup_at(f, 3);
    lemma_lookup_at(f, 4);
}

/// The JSON object of an entry for the user interface holds its name, its type and its two real
/// numbers, and nothing else.
pub proof fn lemma_fd_entry_json(entry: FileEntry, reals: EntryReals)
    ensures
        json_member(fd_entry_json(entry, reals), "name"@) == Some(Json::Text(entry.name@)),
        json_member(fd_entry_json(entry, reals), "type"@) == Some(
            Json::Integer(
                if entry.entry_type == 0 {
                    1
                } else {
                    entry.entry_type as int
                },
            ),
        ),
        json_member(fd_entry_json(entry, reals), "time"@) == Some(json_of(reals.time)),
        json_member(fd_entry_json(entry, reals), "size"@) == Some(json_of(reals.size)),
        fd_entry_json(entry, reals)->Object_0.len() == 4,
{
    reveal_strlit("name");
    reveal_strlit("type");
    reveal_strlit("time");
    reveal_strlit("size");
    let f = JsonFields::empty()
        .push(("name"@, Json::Text(entry.name@)))
        .push(("type"@, Json::Integer(fd_type(entry.entry_type) as int)))
        .push(("time"@, json_of(reals.time)))
        .push(("size"@, json_of(reals.size)));
    assert("name"@[0] == 'n' && "type"@[0] == 't' && "time"@[0] == 't' && "size"@[0] == 's');
    assert("type"@[1] == 'y' && "time"@[1] == 'i');
    assert(distinct_keys(f));
    lemma_merged_distinct(f);
    lemma_lookup_at(f, 0);
    lemma_lookup_at(f, 1);
    lemma_lookup_at(f, 2);
    lemma_lookup_at(f, 3);
}

/// A listing for the user interface has one object for each entry, in the order of the entries.
pub proof fn lemma_fd_entries_json(entries: Seq<FileEntry>, reals: Seq<EntryReals>, i: int)
    requires
        0 <= i < entries.len(),
    ensures
        fd_entries_json(entries, reals).len() == entries.len(),
        fd_entries_json(entries, reals)[i] == fd_entry_json(entries[i], reals[i]),
{
}

}
