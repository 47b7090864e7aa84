//! All sessions that are going on.
use crate::ffmpeg::SEGMENT_DURATION;
use crate::session;
use crate::session::HlsSession;
use crate::text;
use crate::types::{HlsSessionInfo, PlaybackSnapshot};
use vstd::prelude::*;
use vstd::string::*;

verus! {

broadcast use vstd::string::group_string_axioms;

/// How long a session goes on without being asked for anything, in nanoseconds: one minute.
pub const IDLE_TIMEOUT: u128 = 60_000_000_000;

// ── Names of sessions ────────────────────────────────────────────────────────

/// Whether `c` is a hexadecimal digit in lower case.
pub open spec fn is_hex_digit(c: char) -> bool {
    ('0' <= c <= '9') || ('a' <= c <= 'f')
}

/// Whether the text is that of a random UUID: 36 characters, with hyphens behind the 8th, the
/// 12th, the 16th and the 20th digit, version 4 and the variant of the standard.
pub open spec fn is_random_uuid(s: Seq<char>) -> bool {
    &&& s.len() == 36
    &&& forall|i: int|
        0 <= i < 36 ==> if i == 8 || i == 13 || i == 18 || i == 23 {
            #[trigger] s[i] == '-'
        } else {
            is_hex_digit(s[i])
        }
    &&& s[14] == '4'
    &&& s[19] == '8' || s[19] == '9' || s[19] == 'a' || s[19] == 'b'
}

/// Calls `uuid::Uuid::new_v4` and writes the result with hyphens in lower case, as
/// `uuid::Uuid` displays itself. Of the 128 bits, those that tell the version and the variant
/// are fixed; nothing is said of the others, which are drawn at random, nor that two results
/// differ. The call does not return where the system has no random numbers to give.
#[verifier::external_body]
fn random_uuid() -> (r: String)
    ensures
        is_random_uuid(r@),
{
    uuid::Uuid::new_v4().to_string()
}

// ── The table ────────────────────────────────────────────────────────────────

/// A session that is going on.
#[derive(Debug)]
pub struct Entry<T> {
    pub id: String,
    pub file_id: String,
    /// When it was last asked for, in nanoseconds.
    pub last_access: u128,
    pub session: T,
}

/// What the table holds of a session.
pub struct Record<T> {
    pub file_id: Seq<char>,
    pub last_access: u128,
    pub session: T,
}

/// The sessions that are going on.
#[derive(Debug)]
pub struct HlsSessionManager {
    entries: Vec<Entry<HlsSession>>,
}

/// What an entry holds.
pub open spec fn record<T>(e: Entry<T>) -> Record<T> {
    Record { file_id: e.file_id@, last_access: e.last_access, session: e.session }
}

/// Whether no two entries have the same ID.
pub open spec fn distinct<T>(entries: Seq<Entry<T>>) -> bool {
    forall|i: int, j: int|
        0 <= i < j < entries.len() ==> (#[trigger] entries[i]).id@ != (#[trigger] entries[j]).id@
}

/// Whether every session is sound.
pub open spec fn all_sound(entries: Seq<Entry<HlsSession>>) -> bool {
    forall|i: int| 0 <= i < entries.len() ==> (#[trigger] entries[i]).session@.sound()
}

/// Whether there is an entry with the ID.
pub open spec fn is_listed<T>(entries: Seq<Entry<T>>, id: Seq<char>) -> bool {
    exists|i: int| 0 <= i < entries.len() && (#[trigger] entries[i]).id@ == id
}

/// The entries by their IDs.
pub open spec fn table<T>(entries: Seq<Entry<T>>) -> Map<Seq<char>, Record<T>> {
    Map::new(
        |id: Seq<char>| is_listed(entries, id),
        |id: Seq<char>|
            record(entries[choose|i: int| 0 <= i < entries.len() && (#[trigger] entries[i]).id@ == id]),
    )
}

/// The records of one file.
pub open spec fn of_file<T>(m: Map<Seq<char>, Record<T>>, file_id: Seq<char>) -> Map<
    Seq<char>,
    Record<T>,
> {
    Map::new(|id: Seq<char>| m.contains_key(id) && m[id].file_id == file_id, |id: Seq<char>| m[id])
}

/// The records of other files.
pub open spec fn of_other_files<T>(m: Map<Seq<char>, Record<T>>, file_id: Seq<char>) -> Map<
    Seq<char>,
    Record<T>,
> {
    Map::new(|id: Seq<char>| m.contains_key(id) && m[id].file_id != file_id, |id: Seq<char>| m[id])
}

/// Whether a session that was last asked for at `last` is idle at `now`.
pub open spec fn is_idle(last: u128, now: u128) -> bool {
    now > last && now - last > IDLE_TIMEOUT
}

/// The records of the idle sessions.
pub open spec fn idle<T>(m: Map<Seq<char>, Record<T>>, now: u128) -> Map<Seq<char>, Record<T>> {
    Map::new(
        |id: Seq<char>| m.contains_key(id) && is_idle(m[id].last_access, now),
        |id: Seq<char>| m[id],
    )
}

/// The records of the sessions that are not idle.
pub open spec fn busy<T>(m: Map<Seq<char>, Record<T>>, now: u128) -> Map<Seq<char>, Record<T>> {
    Map::new(
        |id: Seq<char>| m.contains_key(id) && !is_idle(m[id].last_access, now),
        |id: Seq<char>| m[id],
    )
}

proof fn lemma_table<T>(entries: Seq<Entry<T>>)
    requires
        distinct(entries),
    ensures
        forall|i: int|
            0 <= i < entries.len() ==> table(entries).contains_key((#[trigger] entries[i]).id@)
                && table(entries)[entries[i].id@] == record(entries[i]),
{
    assert forall|i: int| 0 <= i < entries.len() implies table(entries).contains_key(
        (#[trigger] entries[i]).id@,
    ) && table(entries)[entries[i].id@] == record(entries[i]) by {
        let id = entries[i].id@;
        let k = choose|k: int| 0 <= k < entries.len() && (#[trigger] entries[k]).id@ == id;
        assert(is_listed(entries, id));
        if k < i {
            assert(entries[k].id@ != entries[i].id@);
        } else if i < k {
            assert(entries[i].id@ != entries[k].id@);
        }
    }
}

impl View for HlsSessionManager {
    type V = Map<Seq<char>, Record<HlsSession>>;

    closed spec fn view(&self) -> Map<Seq<char>, Record<HlsSession>> {
        table(self.entries@)
    }
}

/// What is left of a session that was stopped.
#[derive(Debug)]
pub struct Ended {
    pub id: String,
    /// Its playback state at the end.
    pub snapshot: PlaybackSnapshot,
    /// Whether it was going on until now: then the caller cancels the running pass, tells the
    /// worker to end, waits for it and removes the directory.
    pub was_running: bool,
}

/// Whether the snapshot is that of the session.
pub open spec fn snapshot_of(p: PlaybackSnapshot, s: session::SessionView) -> bool {
    &&& p.session_id@ == s.id
    &&& p.file_id@ == s.file_id
    &&& text::opt_string(p.user_id) == s.user_id
    &&& text::opt_string(p.video_item_id) == s.video_item_id
    &&& text::opt_string(p.episode_id) == s.episode_id
    &&& p.duration_ns == s.duration_ns
    &&& p.position_secs == s.current().download_position * SEGMENT_DURATION
    &&& p.client_name@ == "HLS Server"@
}

/// Whether `e` is what is left of a session that the table holds as `r`.
pub open spec fn is_end_of(e: Ended, r: Record<HlsSession>) -> bool {
    snapshot_of(e.snapshot, r.session@) && e.was_running == !r.session@.current().stopped
}

/// Whether an end of the session with the ID is in the list.
pub open spec fn is_ended(list: Seq<Ended>, id: Seq<char>) -> bool {
    exists|i: int| 0 <= i < list.len() && (#[trigger] list[i]).id@ == id
}

/// Whether the list holds the end of every session of the table, once, and no other.
pub open spec fn ends(list: Seq<Ended>, m: Map<Seq<char>, Record<HlsSession>>) -> bool {
    &&& forall|i: int, j: int|
        0 <= i < j < list.len() ==> (#[trigger] list[i]).id@ != (#[trigger] list[j]).id@
    &&& forall|id: Seq<char>| #[trigger] is_ended(list, id) <==> m.contains_key(id)
    &&& forall|i: int|
        0 <= i < list.len() ==> is_end_of(#[trigger] list[i], m[list[i].id@])
}

fn end(entry: Entry<HlsSession>) -> (r: Ended)
    requires
        entry.session@.sound(),
    ensures
        r.id@ == entry.id@,
        is_end_of(r, record(entry)),
{
    let mut session = entry.session;
    let snapshot = session.playback_snapshot();
    let was_running = session.stop();
    Ended { id: entry.id, snapshot, was_running }
}

fn end_all(entries: Vec<Entry<HlsSession>>) -> (r: Vec<Ended>)
    requires
        distinct(entries@),
        all_sound(entries@),
    ensures
        ends(r@, table(entries@)),
{
    let ghost all = entries@;
    let mut left = entries;
    let mut r: Vec<Ended> = Vec::new();
    let ghost n = all.len();
    while left.len() > 0
        invariant
            distinct(all),
            all_sound(all),
            n == all.len(),
            left@ == all.skip(r@.len() as int),
            r@.len() <= n,
            forall|i: int| 0 <= i < r@.len() ==> (#[trigger] r@[i]).id@ == all[i].id@,
            forall|i: int| 0 <= i < r@.len() ==> is_end_of(#[trigger] r@[i], record(all[i])),
        decreases left@.len(),
    {
        let ghost k = r@.len() as int;
        let entry = left.remove(0);
        proof {
            assert(entry == all[k]);
            assert(left@ =~= all.skip(k + 1));
        }
        r.push(end(entry));
    }
    proof {
        lemma_table(all);
        assert(r@.len() == n);
        assert forall|i: int, j: int| 0 <= i < j < r@.len() implies (#[trigger] r@[i]).id@ != (
        #[trigger] r@[j]).id@ by {
            assert(all[i].id@ != all[j].id@);
        }
        assert forall|id: Seq<char>| #[trigger] is_ended(r@, id) <==> table(all).contains_key(
            id,
        ) by {
            if is_ended(r@, id) {
                let i = choose|i: int| 0 <= i < r@.len() && (#[trigger] r@[i]).id@ == id;
                assert(all[i].id@ == id);
            }
            if table(all).contains_key(id) {
                let i = choose|i: int| 0 <= i < all.len() && (#[trigger] all[i]).id@ == id;
                assert(r@[i].id@ == id);
            }
        }
        assert forall|i: int| 0 <= i < r@.len() implies is_end_of(
            #[trigger] r@[i],
            table(all)[r@[i].id@],
        ) by {
            assert(table(all)[all[i].id@] == record(all[i]));
        }
    }
    r
}

impl HlsSessionManager {
    /// Whether no two sessions have the same ID, and each is sound.
    pub closed spec fn sound(&self) -> bool {
        distinct(self.entries@) && all_sound(self.entries@)
    }

    /// No sessions.
    pub fn new() -> (r: HlsSessionManager)
        ensures
            r.sound(),
            r@ == Map::<Seq<char>, Record<HlsSession>>::empty(),
    {
        let r = HlsSessionManager { entries: Vec::new() };
        assert(r@ =~= Map::empty());
        r
    }

    /// The place of the entry with the ID.
    fn find(&self, id: &str) -> (r: Option<usize>)
        requires
            self.sound(),
        ensures
            match r {
                Some(i) => {
                    &&& i < self.entries@.len()
                    &&& self.entries@[i as int].id@ == id@
                    &&& self@.contains_key(id@)
                    &&& self@[id@] == record(self.entries@[i as int])
                },
                None => !self@.contains_key(id@),
            },
    {
        let n: usize = self.entries.len();
        let mut i: usize = 0;
        proof {
            lemma_table(self.entries@);
        }
        while i < n
            invariant
                n == self.entries@.len(),
                i <= n,
                forall|k: int| 0 <= k < i ==> (#[trigger] self.entries@[k]).id@ != id@,
                forall|k: int|
                    0 <= k < n ==> self@.contains_key((#[trigger] self.entries@[k]).id@)
                        && self@[self.entries@[k].id@] == record(self.entries@[k]),
            decreases n - i,
        {
            if text::same_text(self.entries[i].id.as_str(), id) {
                return Some(i);
            }
            i += 1;
        }
        None
    }

    /// Names a new session, and stops the sessions of the same file.
    pub fn begin_session(&mut self, file_id: &str) -> (r: (String, Vec<Ended>))
        requires
            old(self).sound(),
        ensures
            final(self).sound(),
            final(self)@ == of_other_files(old(self)@, file_id@),
            is_random_uuid(r.0@),
            ends(r.1@, of_file(old(self)@, file_id@)),
    {
        let id = random_uuid();
        let gone = self.stop_session_for_file(file_id);
        (id, gone)
    }

    /// Enters a session that was started at `now`, and tells how a client reaches it.
    pub fn create_session(
        &mut self,
        id: String,
        file_id: &str,
        session: HlsSession,
        now: u128,
        base_url: &str,
    ) -> (r: HlsSessionInfo)
        requires
            old(self).sound(),
            session@.sound(),
        ensures
            final(self).sound(),
            final(self)@ == old(self)@.insert(
                id@,
                Record { file_id: file_id@, last_access: now, session },
            ),
            r.session_id@ == id@,
            r.playlist_url@ == base_url@ + "/api/hls/"@ + id@ + "/playlist.m3u8"@,
    {
        let mut url = text::join3(base_url, "/api/hls/", id.as_str());
        url.append("/playlist.m3u8");
        let info = HlsSessionInfo { session_id: text::copy_text(id.as_str()), playlist_url: url };
        let _replaced = self.take(id.as_str());
        let ghost before = self.entries@;
        let ghost m = self@;
        let file_id = text::copy_text(file_id);
        let entry = Entry { id, file_id, last_access: now, session };
        self.entries.push(entry);
        proof {
            lemma_table(before);
            assert forall|i: int, j: int| 0 <= i < j < self.entries@.len() implies (
            #[trigger] self.entries@[i]).id@ != (#[trigger] self.entries@[j]).id@ by {
                assert(self.entries@[i] == before[i]);
                if j < before.len() {
                    assert(self.entries@[j] == before[j]);
                } else {
                    assert(m.contains_key(before[i].id@));
                }
            }
            assert forall|i: int| 0 <= i < self.entries@.len() implies (
            #[trigger] self.entries@[i]).session@.sound() by {
                if i < before.len() {
                    assert(self.entries@[i] == before[i]);
                }
            }
            lemma_pushed(before, entry);
            assert(self@ =~= m.insert(entry.id@, record(entry)));
            assert(self@ =~= old(self)@.insert(entry.id@, record(entry)));
        }
        info
    }

    /// The session with the ID, asked for at `now`.
    pub fn get_session(&mut self, id: &str, now: u128) -> (r: Option<&mut HlsSession>)
        requires
            old(self).sound(),
        ensures
            match r {
                Some(s) => {
                    &&& old(self)@.contains_key(id@)
                    &&& *s == old(self)@[id@].session
                    &&& s@.sound()
                    &&& final(self)@ == old(self)@.insert(
                        id@,
                        Record { last_access: now, session: *final(s), ..old(self)@[id@] },
                    )
                    &&& final(s)@.sound() ==> final(self).sound()
                },
                None => {
                    &&& !old(self)@.contains_key(id@)
                    &&& final(self)@ == old(self)@
                    &&& final(self).sound()
                },
            },
    {
        match self.find(id) {
            None => None,
            Some(i) => {
                let ghost before = self.entries@;
                self.entries[i].last_access = now;
                let s = &mut self.entries[i].session;
                proof {
                    let changed = Entry {
                        last_access: now,
                        session: *final(s),
                        ..before[i as int]
                    };
                    assert(after_borrow(self).entries@ =~= before.update(i as int, changed));
                    lemma_updated(before, i as int, changed);
                }
                Some(s)
            },
        }
    }

    /// The session with the ID, which is not kept going by that.
    pub fn session_mut(&mut self, id: &str) -> (r: Option<&mut HlsSession>)
        requires
            old(self).sound(),
        ensures
            match r {
                Some(s) => {
                    &&& old(self)@.contains_key(id@)
                    &&& *s == old(self)@[id@].session
                    &&& s@.sound()
                    &&& final(self)@ == old(self)@.insert(
                        id@,
                        Record { session: *final(s), ..old(self)@[id@] },
                    )
                    &&& final(s)@.sound() ==> final(self).sound()
                },
                None => {
                    &&& !old(self)@.contains_key(id@)
                    &&& final(self)@ == old(self)@
                    &&& final(self).sound()
                },
            },
    {
        match self.find(id) {
            None => None,
            Some(i) => {
                let ghost before = self.entries@;
                let s = &mut self.entries[i].session;
                proof {
                    let changed = Entry { session: *final(s), ..before[i as int] };
                    assert(after_borrow(self).entries@ =~= before.update(i as int, changed));
                    lemma_updated(before, i as int, changed);
                }
                Some(s)
            },
        }
    }

    /// Keeps the session with the ID going, as of `now`. Returns whether there is one.
    pub fn ping_session(&mut self, id: &str, now: u128) -> (r: bool)
        requires
            old(self).sound(),
        ensures
            final(self).sound(),
            final(self)@ == accessed(old(self)@, id@, now),
            r == old(self)@.contains_key(id@),
    {
        match self.find(id) {
            None => false,
            Some(i) => {
                let ghost before = self.entries@;
                self.entries[i].last_access = now;
                proof {
                    let changed = Entry { last_access: now, ..before[i as int] };
                    assert(self.entries@ =~= before.update(i as int, changed));
                    lemma_updated(before, i as int, changed);
                }
                true
            },
        }
    }

    /// Takes the entry with the ID out of the table.
    fn take(&mut self, id: &str) -> (r: Option<Entry<HlsSession>>)
        requires
            old(self).sound(),
        ensures
            final(self).sound(),
            final(self)@ == old(self)@.remove(id@),
            match r {
                Some(entry) => {
                    &&& old(self)@.contains_key(id@)
                    &&& entry.id@ == id@
                    &&& record(entry) == old(self)@[id@]
                    &&& entry.session@.sound()
                },
                None => !old(self)@.contains_key(id@),
            },
    {
        match self.find(id) {
            None => {
                assert(self@ =~= old(self)@.remove(id@));
                None
            },
            Some(i) => {
                let ghost before = self.entries@;
                let entry = self.entries.remove(i);
                proof {
                    assert(self.entries@ =~= before.remove(i as int));
                    lemma_removed(before, i as int);
                    assert(self@ =~= old(self)@.remove(id@));
                }
                Some(entry)
            },
        }
    }

    /// Stops the session with the ID and takes it out of the table.
    pub fn stop_session(&mut self, id: &str) -> (r: Option<Ended>)
        requires
            old(self).sound(),
        ensures
            final(self).sound(),
            final(self)@ == old(self)@.remove(id@),
            match r {
                Some(e) => old(self)@.contains_key(id@) && e.id@ == id@ && is_end_of(
                    e,
                    old(self)@[id@],
                ),
                None => !old(self)@.contains_key(id@),
            },
    {
        match self.take(id) {
            Some(entry) => Some(end(entry)),
            None => None,
        }
    }

    /// Stops the sessions of the file and takes them out of the table.
    pub fn stop_session_for_file(&mut self, file_id: &str) -> (r: Vec<Ended>)
        requires
            old(self).sound(),
        ensures
            final(self).sound(),
            final(self)@ == of_other_files(old(self)@, file_id@),
            ends(r@, of_file(old(self)@, file_id@)),
    {
        let ghost keep = |id: Seq<char>| old(self)@[id].file_id != file_id@;
        let mut gone: Vec<Entry<HlsSession>> = Vec::new();
        let mut i: usize = 0;
        proof {
            lemma_split_start(self.entries@, gone@, keep);
        }
        while i < self.entries.len()
            invariant
                keep == |id: Seq<char>| old(self)@[id].file_id != file_id@,
                split(old(self)@, self.entries@, i as int, gone@, keep),
                all_sound(self.entries@),
                all_sound(gone@),
            decreases self.entries@.len() - i,
        {
            proof {
                lemma_split_lookup(old(self)@, self.entries@, i as int, gone@, keep);
            }
            if text::same_text(self.entries[i].file_id.as_str(), file_id) {
                let ghost before = self.entries@;
                let ghost gone_before = gone@;
                let entry = self.entries.remove(i);
                gone.push(entry);
                proof {
                    assert(self.entries@ =~= before.remove(i as int));
                    lemma_split_take(old(self)@, before, i as int, gone_before, keep);
                }
            } else {
                i += 1;
            }
        }
        proof {
            lemma_split_end(old(self)@, self.entries@, gone@, keep);
            assert(self@ =~= of_other_files(old(self)@, file_id@));
            assert(table(gone@) =~= of_file(old(self)@, file_id@));
        }
        end_all(gone)
    }

    /// The file of the session with the ID.
    pub fn get_file_id(&self, id: &str) -> (r: Option<String>)
        requires
            self.sound(),
        ensures
            match r {
                Some(file_id) => self@.contains_key(id@) && file_id@ == self@[id@].file_id,
                None => !self@.contains_key(id@),
            },
    {
        match self.find(id) {
            Some(i) => Some(text::copy_text(self.entries[i].file_id.as_str())),
            None => None,
        }
    }

    /// The playback states of all sessions.
    pub fn playback_snapshots(&self) -> (r: Vec<PlaybackSnapshot>)
        requires
            self.sound(),
        ensures
            exists|ids: Seq<Seq<char>>|
                {
                    &&& #[trigger] ids.no_duplicates()
                    &&& ids.len() == r@.len()
                    &&& forall|id: Seq<char>| self@.contains_key(id) <==> ids.contains(id)
                    &&& forall|i: int|
                        0 <= i < ids.len() ==> snapshot_of(
                            #[trigger] r@[i],
                            self@[ids[i]].session@,
                        )
                },
    {
        let n: usize = self.entries.len();
        let mut r: Vec<PlaybackSnapshot> = Vec::new();
        let mut i: usize = 0;
        while i < n
            invariant
                n == self.entries@.len(),
                i <= n,
                self.sound(),
                r@.len() == i,
                forall|k: int|
                    0 <= k < i ==> snapshot_of(
                        #[trigger] r@[k],
                        self.entries@[k].session@,
                    ),
            decreases n - i,
        {
            r.push(self.entries[i].session.playback_snapshot());
            i += 1;
        }
        proof {
            lemma_table(self.entries@);
            let ids = Seq::new(n as nat, |k: int| self.entries@[k].id@);
            assert forall|a: int, b: int|
                0 <= a < ids.len() && 0 <= b < ids.len() && a != b implies ids[a] != ids[b] by {
                if a < b {
                    assert(self.entries@[a].id@ != self.entries@[b].id@);
                } else {
                    assert(self.entries@[b].id@ != self.entries@[a].id@);
                }
            }
            assert(ids.no_duplicates());
            assert forall|id: Seq<char>| self@.contains_key(id) <==> ids.contains(id) by {
                if self@.contains_key(id) {
                    let k = choose|k: int|
                        0 <= k < n && (#[trigger] self.entries@[k]).id@ == id;
                    assert(ids[k] == id);
                }
                if ids.contains(id) {
                    let k = choose|k: int| 0 <= k < ids.len() && ids[k] == id;
                    assert(self.entries@[k].id@ == id);
                }
            }
            assert forall|k: int| 0 <= k < ids.len() implies snapshot_of(
                #[trigger] r@[k],
                self@[ids[k]].session@,
            ) by {
                assert(self.entries@[k].id@ == ids[k]);
            }
        }
        r
    }

    /// Stops the sessions that have not been asked for anything for more than a minute, and
    /// takes them out of the table.
    pub fn cleanup_idle_sessions(&mut self, now: u128) -> (r: Vec<Ended>)
        requires
            old(self).sound(),
        ensures
            final(self).sound(),
            final(self)@ == busy(old(self)@, now),
            ends(r@, idle(old(self)@, now)),
    {
        let ghost keep = |id: Seq<char>| !is_idle(old(self)@[id].last_access, now);
        let mut gone: Vec<Entry<HlsSession>> = Vec::new();
        let mut i: usize = 0;
        proof {
            lemma_split_start(self.entries@, gone@, keep);
        }
        while i < self.entries.len()
            invariant
                keep == |id: Seq<char>| !is_idle(old(self)@[id].last_access, now),
                split(old(self)@, self.entries@, i as int, gone@, keep),
                all_sound(self.entries@),
                all_sound(gone@),
            decreases self.entries@.len() - i,
        {
            proof {
                lemma_split_lookup(old(self)@, self.entries@, i as int, gone@, keep);
            }
            let last: u128 = self.entries[i].last_access;
            if now > last && now - last > IDLE_TIMEOUT {
                let ghost before = self.entries@;
                let ghost gone_before = gone@;
                let entry = self.entries.remove(i);
                gone.push(entry);
                proof {
                    assert(self.entries@ =~= before.remove(i as int));
                    lemma_split_take(old(self)@, before, i as int, gone_before, keep);
                }
            } else {
                i += 1;
            }
        }
        proof {
            lemma_split_end(old(self)@, self.entries@, gone@, keep);
            assert(self@ =~= busy(old(self)@, now));
            assert(table(gone@) =~= idle(old(self)@, now));
        }
        end_all(gone)
    }

    /// Stops all sessions.
    pub fn stop_all(&mut self) -> (r: Vec<Ended>)
        requires
            old(self).sound(),
        ensures
            final(self).sound(),
            final(self)@ == Map::<Seq<char>, Record<HlsSession>>::empty(),
            ends(r@, old(self)@),
    {
        let mut gone: Vec<Entry<HlsSession>> = Vec::new();
        std::mem::swap(&mut gone, &mut self.entries);
        assert(self@ =~= Map::empty());
        end_all(gone)
    }
}

impl Default for HlsSessionManager {
    fn default() -> (r: HlsSessionManager)
        ensures
            r.sound(),
            r@ == Map::<Seq<char>, Record<HlsSession>>::empty(),
    {
        HlsSessionManager::new()
    }
}

/// The table after a session was asked for at `now`.
pub open spec fn accessed<T>(m: Map<Seq<char>, Record<T>>, id: Seq<char>, now: u128) -> Map<
    Seq<char>,
    Record<T>,
> {
    if m.contains_key(id) {
        m.insert(id, Record { last_access: now, ..m[id] })
    } else {
        m
    }
}

proof fn lemma_pushed<T>(before: Seq<Entry<T>>, entry: Entry<T>)
    requires
        distinct(before),
        distinct(before.push(entry)),
    ensures
        table(before.push(entry)) == table(before).insert(entry.id@, record(entry)),
{
    let after = before.push(entry);
    lemma_table(before);
    lemma_table(after);
    assert forall|k: Seq<char>| is_listed(after, k) <==> is_listed(before, k) || k == entry.id@ by {
        if is_listed(before, k) {
            let j = choose|j: int| 0 <= j < before.len() && (#[trigger] before[j]).id@ == k;
            assert(after[j].id@ == k);
        }
        if k == entry.id@ {
            assert(after[before.len() as int].id@ == k);
        }
        if is_listed(after, k) && k != entry.id@ {
            let j = choose|j: int| 0 <= j < after.len() && (#[trigger] after[j]).id@ == k;
            assert(before[j].id@ == k);
        }
    }
    assert forall|k: Seq<char>| #[trigger] is_listed(after, k) implies table(after)[k] == table(
        before,
    ).insert(entry.id@, record(entry))[k] by {
        let j = choose|j: int| 0 <= j < after.len() && (#[trigger] after[j]).id@ == k;
        assert(after[j].id@ == k);
        if j < before.len() {
            assert(before[j].id@ == k);
            assert(after[before.len() as int].id@ == entry.id@);
        }
    }
    assert(table(after) =~= table(before).insert(entry.id@, record(entry)));
}

proof fn lemma_updated<T>(before: Seq<Entry<T>>, i: int, changed: Entry<T>)
    requires
        distinct(before),
        0 <= i < before.len(),
        changed.id == before[i].id,
    ensures
        distinct(before.update(i, changed)),
        table(before.update(i, changed)) == table(before).insert(changed.id@, record(changed)),
{
    let after = before.update(i, changed);
    assert forall|k: int| 0 <= k < after.len() implies (#[trigger] after[k]).id == before[k].id by {}
    assert forall|a: int, b: int| 0 <= a < b < after.len() implies (#[trigger] after[a]).id@ != (
    #[trigger] after[b]).id@ by {
        assert(before[a].id@ != before[b].id@);
    }
    lemma_table(before);
    lemma_table(after);
    assert forall|k: Seq<char>| is_listed(after, k) == is_listed(before, k) by {
        if is_listed(before, k) {
            let j = choose|j: int| 0 <= j < before.len() && (#[trigger] before[j]).id@ == k;
            assert(after[j].id@ == k);
        }
        if is_listed(after, k) {
            let j = choose|j: int| 0 <= j < after.len() && (#[trigger] after[j]).id@ == k;
            assert(before[j].id@ == k);
        }
    }
    assert(after[i].id@ == changed.id@);
    assert forall|k: Seq<char>| #[trigger] is_listed(after, k) implies table(after)[k] == table(
        before,
    ).insert(changed.id@, record(changed))[k] by {
        let j = choose|j: int| 0 <= j < after.len() && (#[trigger] after[j]).id@ == k;
        assert(after[j].id@ == k);
        assert(before[j].id@ == k);
        if j < i {
            assert(before[j].id@ != before[i].id@);
        } else if i < j {
            assert(before[i].id@ != before[j].id@);
        }
    }
    assert(table(after) =~= table(before).insert(changed.id@, record(changed)));
}

proof fn lemma_removed<T>(before: Seq<Entry<T>>, i: int)
    requires
        distinct(before),
        0 <= i < before.len(),
    ensures
        distinct(before.remove(i)),
        table(before.remove(i)) == table(before).remove(before[i].id@),
{
    let after = before.remove(i);
    assert forall|a: int, b: int| 0 <= a < b < after.len() implies (#[trigger] after[a]).id@ != (
    #[trigger] after[b]).id@ by {
        let x = if a < i {
            a
        } else {
            a + 1
        };
        let y = if b < i {
            b
        } else {
            b + 1
        };
        assert(before[x].id@ != before[y].id@);
    }
    lemma_table(before);
    lemma_table(after);
    assert forall|k: Seq<char>| is_listed(after, k) <==> is_listed(before, k) && k != before[i].id@ by {
        if is_listed(before, k) && k != before[i].id@ {
            let j = choose|j: int| 0 <= j < before.len() && (#[trigger] before[j]).id@ == k;
            let x = if j < i {
                j
            } else {
                j - 1
            };
            assert(after[x].id@ == k);
        }
        if is_listed(after, k) {
            let j = choose|j: int| 0 <= j < after.len() && (#[trigger] after[j]).id@ == k;
            let x = if j < i {
                j
            } else {
                j + 1
            };
            assert(before[x].id@ == k);
            if x < i {
                assert(before[x].id@ != before[i].id@);
            } else {
                assert(before[i].id@ != before[x].id@);
            }
        }
    }
    assert forall|k: Seq<char>| #[trigger] is_listed(after, k) implies table(after)[k] == table(
        before,
    ).remove(before[i].id@)[k] by {
        let j = choose|j: int| 0 <= j < after.len() && (#[trigger] after[j]).id@ == k;
        let x = if j < i {
            j
        } else {
            j + 1
        };
        assert(after[j].id@ == k);
        assert(before[x].id@ == k);
    }
    assert(table(after) =~= table(before).remove(before[i].id@));
}

// ── Splitting the table ──────────────────────────────────────────────────────

/// Whether the table `m` is split into entries that stay and entries that go: of those that
/// stay, the first `i` are kept; those that go are not; and none is lost.
spec fn split<T>(
    m: Map<Seq<char>, Record<T>>,
    entries: Seq<Entry<T>>,
    i: int,
    gone: Seq<Entry<T>>,
    keep: spec_fn(Seq<char>) -> bool,
) -> bool {
    &&& 0 <= i <= entries.len()
    &&& distinct(entries)
    &&& distinct(gone)
    &&& forall|a: int, b: int|
        0 <= a < entries.len() && 0 <= b < gone.len() ==> (#[trigger] entries[a]).id@ != (
        #[trigger] gone[b]).id@
    &&& m == table(entries).union_prefer_right(table(gone))
    &&& forall|a: int| 0 <= a < i ==> keep((#[trigger] entries[a]).id@)
    &&& forall|b: int| 0 <= b < gone.len() ==> !keep((#[trigger] gone[b]).id@)
}

proof fn lemma_split_start<T>(
    entries: Seq<Entry<T>>,
    gone: Seq<Entry<T>>,
    keep: spec_fn(Seq<char>) -> bool,
)
    requires
        distinct(entries),
        gone.len() == 0,
    ensures
        split(table(entries), entries, 0, gone, keep),
{
    assert(table(entries) =~= table(entries).union_prefer_right(table(gone)));
}

/// The entry that is looked at is recorded as it stands.
proof fn lemma_split_lookup<T>(
    m: Map<Seq<char>, Record<T>>,
    entries: Seq<Entry<T>>,
    i: int,
    gone: Seq<Entry<T>>,
    keep: spec_fn(Seq<char>) -> bool,
)
    requires
        split(m, entries, i, gone, keep),
        i < entries.len(),
    ensures
        m.contains_key(entries[i].id@),
        m[entries[i].id@] == record(entries[i]),
{
    lemma_table(entries);
    let id = entries[i].id@;
    if is_listed(gone, id) {
        let b = choose|b: int| 0 <= b < gone.len() && (#[trigger] gone[b]).id@ == id;
        assert(entries[i].id@ != gone[b].id@);
    }
}

proof fn lemma_split_take<T>(
    m: Map<Seq<char>, Record<T>>,
    entries: Seq<Entry<T>>,
    i: int,
    gone: Seq<Entry<T>>,
    keep: spec_fn(Seq<char>) -> bool,
)
    requires
        split(m, entries, i, gone, keep),
        i < entries.len(),
        !keep(entries[i].id@),
    ensures
        split(m, entries.remove(i), i, gone.push(entries[i]), keep),
{
    let e = entries[i];
    let after = entries.remove(i);
    let more = gone.push(e);
    assert forall|a: int| 0 <= a < after.len() implies (#[trigger] after[a]) == entries[if a < i {
        a
    } else {
        a + 1
    }] by {}
    lemma_removed(entries, i);
    assert forall|a: int, b: int| 0 <= a < b < more.len() implies (#[trigger] more[a]).id@ != (
    #[trigger] more[b]).id@ by {
        assert(more[a] == gone[a]);
        if b < gone.len() {
            assert(more[b] == gone[b]);
        } else {
            assert(entries[i].id@ != gone[a].id@);
        }
    }
    lemma_pushed(gone, e);
    assert forall|a: int, b: int| 0 <= a < after.len() && 0 <= b < more.len() implies (
    #[trigger] after[a]).id@ != (#[trigger] more[b]).id@ by {
        let x = if a < i {
            a
        } else {
            a + 1
        };
        assert(after[a] == entries[x]);
        if b < gone.len() {
            assert(more[b] == gone[b]);
        } else if x < i {
            assert(entries[x].id@ != entries[i].id@);
        } else {
            assert(entries[i].id@ != entries[x].id@);
        }
    }
    lemma_table(entries);
    assert(m =~= table(after).union_prefer_right(table(more))) by {
        assert(!is_listed(gone, e.id@)) by {
            if is_listed(gone, e.id@) {
                let b = choose|b: int| 0 <= b < gone.len() && (#[trigger] gone[b]).id@ == e.id@;
                assert(entries[i].id@ != gone[b].id@);
            }
        }
        assert(table(entries).contains_key(entries[i].id@));
    }
}

proof fn lemma_split_end<T>(
    m: Map<Seq<char>, Record<T>>,
    entries: Seq<Entry<T>>,
    gone: Seq<Entry<T>>,
    keep: spec_fn(Seq<char>) -> bool,
)
    requires
        split(m, entries, entries.len() as int, gone, keep),
    ensures
        table(entries) == Map::new(
            |id: Seq<char>| m.contains_key(id) && keep(id),
            |id: Seq<char>| m[id],
        ),
        table(gone) == Map::new(
            |id: Seq<char>| m.contains_key(id) && !keep(id),
            |id: Seq<char>| m[id],
        ),
{
    assert forall|id: Seq<char>| #[trigger] is_listed(entries, id) implies keep(id) && !is_listed(gone, id) by {
        let a = choose|a: int| 0 <= a < entries.len() && (#[trigger] entries[a]).id@ == id;
        assert(keep(entries[a].id@));
        if is_listed(gone, id) {
            let b = choose|b: int| 0 <= b < gone.len() && (#[trigger] gone[b]).id@ == id;
            assert(entries[a].id@ != gone[b].id@);
        }
    }
    assert forall|id: Seq<char>| #[trigger] is_listed(gone, id) implies !keep(id) by {
        let b = choose|b: int| 0 <= b < gone.len() && (#[trigger] gone[b]).id@ == id;
        assert(!keep(gone[b].id@));
    }
    assert(table(entries) =~= Map::new(
        |id: Seq<char>| m.contains_key(id) && keep(id),
        |id: Seq<char>| m[id],
    ));
    assert(table(gone) =~= Map::new(
        |id: Seq<char>| m.contains_key(id) && !keep(id),
        |id: Seq<char>| m[id],
    ));
}

// ── Laws ─────────────────────────────────────────────────────────────────────

/// Once a session for a file was entered, it is the only one for the file; those for other
/// files are what they were, but for one that had the same ID.
pub proof fn one_session_per_file<T>(
    m: Map<Seq<char>, Record<T>>,
    id: Seq<char>,
    entered: Record<T>,
)
    ensures
        ({
            let after = of_other_files(m, entered.file_id).insert(id, entered);
            &&& of_file(after, entered.file_id) == Map::<Seq<char>, Record<T>>::empty().insert(
                id,
                entered,
            )
            &&& of_other_files(after, entered.file_id) == of_other_files(
                m,
                entered.file_id,
            ).remove(id)
        }),
{
    let after = of_other_files(m, entered.file_id).insert(id, entered);
    assert(of_file(after, entered.file_id) =~= Map::<Seq<char>, Record<T>>::empty().insert(
        id,
        entered,
    ));
    assert(of_other_files(after, entered.file_id) =~= of_other_files(m, entered.file_id).remove(
        id,
    ));
}

/// A session that is asked for, or kept going, outlives every cleanup of the next minute.
pub proof fn an_accessed_session_goes_on<T>(
    m: Map<Seq<char>, Record<T>>,
    id: Seq<char>,
    now: u128,
    later: u128,
)
    requires
        m.contains_key(id),
        later <= now + IDLE_TIMEOUT,
    ensures
        busy(accessed(m, id, now), later).contains_key(id),
        busy(accessed(m, id, now), later)[id].session == m[id].session,
{
}

/// A session that is not asked for anything is stopped by every cleanup after more than a
/// minute.
pub proof fn an_idle_session_is_stopped<T>(
    m: Map<Seq<char>, Record<T>>,
    id: Seq<char>,
    later: u128,
)
    requires
        m.contains_key(id),
        later > m[id].last_access + IDLE_TIMEOUT,
    ensures
        idle(m, later).contains_key(id),
        !busy(m, later).contains_key(id),
{
}

/// A cleanup loses no session: each is either stopped or goes on, as it was.
pub proof fn a_cleanup_loses_nothing<T>(m: Map<Seq<char>, Record<T>>, now: u128)
    ensures
        busy(m, now).union_prefer_right(idle(m, now)) == m,
        busy(m, now).dom().disjoint(idle(m, now).dom()),
{
    assert(busy(m, now).union_prefer_right(idle(m, now)) =~= m);
}

/// A clean-up keeps exactly the sessions that were asked for in the last minute, as they were,
/// and takes out the others.
pub proof fn sessions_are_kept_for_a_minute<T>(
    m: Map<Seq<char>, Record<T>>,
    now: u128,
    id: Seq<char>,
)
    ensures
        busy(m, now).contains_key(id) <==> m.contains_key(id) && now <= m[id].last_access
            + 60_000_000_000,
        idle(m, now).contains_key(id) <==> m.contains_key(id) && now > m[id].last_access
            + 60_000_000_000,
        busy(m, now).contains_key(id) ==> busy(m, now)[id] == m[id],
        idle(m, now).contains_key(id) ==> idle(m, now)[id] == m[id],
{
}

/// Stopping the sessions of a file takes out those of this file and keeps those of others, as
/// they were.
pub proof fn sessions_of_other_files_are_kept<T>(
    m: Map<Seq<char>, Record<T>>,
    file_id: Seq<char>,
    id: Seq<char>,
)
    ensures
        of_other_files(m, file_id).contains_key(id) <==> m.contains_key(id) && m[id].file_id
            != file_id,
        of_file(m, file_id).contains_key(id) <==> m.contains_key(id) && m[id].file_id == file_id,
        of_other_files(m, file_id).contains_key(id) ==> of_other_files(m, file_id)[id] == m[id],
        of_file(m, file_id).contains_key(id) ==> of_file(m, file_id)[id] == m[id],
{
}

/// Asking for a session notes the time and nothing else, of this session and no other.
pub proof fn asking_notes_the_time<T>(
    m: Map<Seq<char>, Record<T>>,
    id: Seq<char>,
    now: u128,
    other: Seq<char>,
)
    ensures
        ({
            let a = accessed(m, id, now);
            &&& a.contains_key(other) <==> m.contains_key(other)
            &&& m.contains_key(id) ==> a[id].last_access == now && a[id].file_id == m[id].file_id
                && a[id].session == m[id].session
            &&& other != id && m.contains_key(other) ==> a[other] == m[other]
        }),
{
}

/// The playback state tells six seconds for every segment up to the one that the client has
/// asked for.
pub proof fn positions_are_told_in_seconds(p: PlaybackSnapshot, s: session::SessionView)
    requires
        snapshot_of(p, s),
        s.sound(),
    ensures
        p.position_secs == 6 * s.passes[s.passes.len() - 1].download_position,
        p.session_id@ == s.id && p.file_id@ == s.file_id,
        p.duration_ns == s.duration_ns,
        text::opt_string(p.user_id) == s.user_id,
        text::opt_string(p.video_item_id) == s.video_item_id,
        text::opt_string(p.episode_id) == s.episode_id,
        p.client_name@ == "HLS Server"@,
{
}

/// What is left of the sessions of a table: for each one end, and for nothing else; and it
/// tells whether the session was still running.
pub proof fn every_session_ends_once(
    list: Seq<Ended>,
    m: Map<Seq<char>, Record<HlsSession>>,
    i: int,
    j: int,
)
    requires
        ends(list, m),
        0 <= i < list.len(),
        0 <= j < list.len(),
    ensures
        list[i].id@ == list[j].id@ ==> i == j,
        m.contains_key(list[i].id@),
        ({
            let s = m[list[i].id@].session@;
            &&& list[i].was_running <==> !s.passes[s.passes.len() - 1].stopped
            &&& list[i].snapshot.session_id@ == s.id
        }),
        forall|id: Seq<char>| #[trigger] m.contains_key(id) ==> exists|k: int|
            0 <= k < list.len() && (#[trigger] list[k]).id@ == id,
{
    assert(is_ended(list, list[i].id@));
    assert(is_end_of(list[i], m[list[i].id@]));
    assert forall|id: Seq<char>| #[trigger] m.contains_key(id) implies exists|k: int|
        0 <= k < list.len() && (#[trigger] list[k]).id@ == id by {
        assert(is_ended(list, id));
    }
}

}
