//! The retained-message store and the offline queues.

use crate::text::{copy_bytes, copy_string, same_string};
use vstd::prelude::*;

verus! {

/// The retained messages of one topic, oldest first.
pub struct RetainedView {
    pub topic: Seq<char>,
    pub messages: Seq<Seq<char>>,
}

/// The frames waiting for one client, oldest first.
pub struct QueueView {
    pub client: Seq<char>,
    pub frames: Seq<Seq<u8>>,
}

/// The retained messages of `topic`; none when it has no entry.
pub open spec fn retained_of(v: Seq<RetainedView>, topic: Seq<char>) -> Seq<Seq<char>> {
    if exists|i: int| 0 <= i < v.len() && #[trigger] v[i].topic == topic {
        v[choose|i: int| 0 <= i < v.len() && #[trigger] v[i].topic == topic].messages
    } else {
        Seq::empty()
    }
}

/// The frames queued for `client`; none when it has no entry.
pub open spec fn queued_of(v: Seq<QueueView>, client: Seq<char>) -> Seq<Seq<u8>> {
    if exists|i: int| 0 <= i < v.len() && #[trigger] v[i].client == client {
        v[choose|i: int| 0 <= i < v.len() && #[trigger] v[i].client == client].frames
    } else {
        Seq::empty()
    }
}

/// No topic appears twice.
pub open spec fn retained_wf(v: Seq<RetainedView>) -> bool {
    forall|i: int, j: int| 0 <= i < j < v.len() ==> #[trigger] v[i].topic != #[trigger] v[j].topic
}

/// No client appears twice.
pub open spec fn queues_wf(v: Seq<QueueView>) -> bool {
    forall|i: int, j: int| 0 <= i < j < v.len() ==> #[trigger] v[i].client != #[trigger] v[j].client
}

/// In a store without repeated topics, the entry found by position is the
/// one `retained_of` reads.
pub proof fn lemma_retained_at(v: Seq<RetainedView>, topic: Seq<char>, i: int)
    requires
        retained_wf(v),
        0 <= i < v.len(),
        v[i].topic == topic,
    ensures
        retained_of(v, topic) == v[i].messages,
{
    let j = choose|j: int| 0 <= j < v.len() && #[trigger] v[j].topic == topic;
    if j < i {
        assert(v[j].topic != v[i].topic);
    } else if j > i {
        assert(v[i].topic != v[j].topic);
    }
}

/// In queues without repeated clients, the entry found by position is the
/// one `queued_of` reads.
pub proof fn lemma_queued_at(v: Seq<QueueView>, client: Seq<char>, i: int)
    requires
        queues_wf(v),
        0 <= i < v.len(),
        v[i].client == client,
    ensures
        queued_of(v, client) == v[i].frames,
{
    let j = choose|j: int| 0 <= j < v.len() && #[trigger] v[j].client == client;
    if j < i {
        assert(v[j].client != v[i].client);
    } else if j > i {
        assert(v[i].client != v[j].client);
    }
}

/// Copies a list of strings.
fn copy_strings(l: &Vec<String>) -> (r: Vec<String>)
    ensures
        r@.map_values(|s: String| s@) == l@.map_values(|s: String| s@),
{
    let mut r: Vec<String> = Vec::new();
    let mut i: usize = 0;
    while i < l.len()
        invariant
            i <= l@.len(),
            r@.map_values(|s: String| s@) == l@.map_values(|s: String| s@).take(i as int),
        decreases l.len() - i,
    {
        let ghost before = r@.map_values(|s: String| s@);
        let c = copy_string(&l[i]);
        r.push(c);
        assert(r@.map_values(|s: String| s@) =~= before.push(c@));
        i = i + 1;
        assert(r@.map_values(|s: String| s@) =~= l@.map_values(|s: String| s@).take(i as int));
    }
    assert(l@.map_values(|s: String| s@).take(l@.len() as int) =~= l@.map_values(|s: String| s@));
    r
}

struct RetainedEntry {
    topic: String,
    messages: Vec<String>,
}

impl RetainedEntry {
    spec fn view(&self) -> RetainedView {
        RetainedView { topic: self.topic@, messages: self.messages@.map_values(|s: String| s@) }
    }
}

/// Retained messages by topic. A topic's messages are only ever appended
/// to.
pub struct RetainedStore {
    entries: Vec<RetainedEntry>,
}

impl View for RetainedStore {
    type V = Seq<RetainedView>;

    closed spec fn view(&self) -> Seq<RetainedView> {
        self.entries@.map_values(|e: RetainedEntry| e.view())
    }
}

impl RetainedStore {
    /// The store is well formed.
    pub open spec fn wf(&self) -> bool {
        retained_wf(self@)
    }

    /// An empty store.
    pub fn new() -> (r: Self)
        ensures
            r@ == Seq::<RetainedView>::empty(),
            r.wf(),
    {
        let r = RetainedStore { entries: Vec::new() };
        assert(r@ =~= Seq::<RetainedView>::empty());
        r
    }

    fn position(&self, topic: &String) -> (r: Option<usize>)
        ensures
            match r {
                Some(i) => i < self@.len() && self@[i as int].topic == topic@,
                None => forall|i: int| 0 <= i < self@.len() ==> #[trigger] self@[i].topic != topic@,
            },
    {
        let mut i: usize = 0;
        while i < self.entries.len()
            invariant
                i <= self@.len(),
                self@ == self.entries@.map_values(|e: RetainedEntry| e.view()),
                forall|k: int| 0 <= k < i ==> #[trigger] self@[k].topic != topic@,
            decreases self.entries.len() - i,
        {
            if same_string(&self.entries[i].topic, topic) {
                return Some(i);
            }
            i = i + 1;
        }
        None
    }

    /// Appends `payload` to the retained messages of `topic`.
    pub fn retain(&mut self, topic: &String, payload: String)
        requires
            old(self).wf(),
        ensures
            final(self).wf(),
            retained_of(final(self)@, topic@) == retained_of(old(self)@, topic@).push(payload@),
            forall|t: Seq<char>| t != topic@ ==> retained_of(final(self)@, t) == retained_of(old(self)@, t),
    {
        let ghost old_v = self@;
        match self.position(topic) {
            Some(i) => {
                let mut e = RetainedEntry { topic: String::new(), messages: Vec::new() };
                self.entries.set_and_swap(i, &mut e);
                let ghost taken = e.view();
                assert(taken == old_v[i as int]);
                e.messages.push(payload);
                let ghost put = e.view();
                assert(put.messages =~= taken.messages.push(payload@));
                self.entries.set_and_swap(i, &mut e);
                assert(self@ =~= old_v.update(i as int, put));
                proof {
                    let new_v = self@;
                    assert forall|a: int, b: int| 0 <= a < b < new_v.len() implies #[trigger] new_v[a].topic != #[trigger] new_v[b].topic by {
                        assert(new_v[a].topic == old_v[a].topic);
                        assert(new_v[b].topic == old_v[b].topic);
                    }
                    lemma_retained_at(old_v, topic@, i as int);
                    lemma_retained_at(new_v, topic@, i as int);
                    assert forall|t: Seq<char>| t != topic@ implies retained_of(new_v, t) == retained_of(old_v, t) by {
                        if exists|k: int| 0 <= k < old_v.len() && #[trigger] old_v[k].topic == t {
                            let k = choose|k: int| 0 <= k < old_v.len() && #[trigger] old_v[k].topic == t;
                            lemma_retained_at(old_v, t, k);
                            assert(new_v[k] == old_v[k]);
                            lemma_retained_at(new_v, t, k);
                        } else {
                            assert forall|k: int| 0 <= k < new_v.len() implies #[trigger] new_v[k].topic != t by {
                                assert(new_v[k].topic == old_v[k].topic);
                            }
                        }
                    }
                }
            },
            None => {
                let mut messages: Vec<String> = Vec::new();
                messages.push(payload);
                let e = RetainedEntry { topic: copy_string(topic), messages };
                let ghost put = e.view();
                assert(put.messages =~= Seq::<Seq<char>>::empty().push(payload@));
                self.entries.push(e);
                assert(self@ =~= old_v.push(put));
                proof {
                    let new_v = self@;
                    assert forall|a: int, b: int| 0 <= a < b < new_v.len() implies #[trigger] new_v[a].topic != #[trigger] new_v[b].topic by {
                        assert(new_v[a] == old_v[a]);
                        if b < old_v.len() {
                            assert(new_v[b] == old_v[b]);
                        }
                    }
                    lemma_retained_at(new_v, topic@, old_v.len() as int);
                    assert forall|t: Seq<char>| t != topic@ implies retained_of(new_v, t) == retained_of(old_v, t) by {
                        if exists|k: int| 0 <= k < old_v.len() && #[trigger] old_v[k].topic == t {
                            let k = choose|k: int| 0 <= k < old_v.len() && #[trigger] old_v[k].topic == t;
                            lemma_retained_at(old_v, t, k);
                            assert(new_v[k] == old_v[k]);
                            lemma_retained_at(new_v, t, k);
                        } else {
                            assert forall|k: int| 0 <= k < new_v.len() implies #[trigger] new_v[k].topic != t by {
                                if k < old_v.len() {
                                    assert(new_v[k] == old_v[k]);
                                }
                            }
                        }
                    }
                }
            },
        }
    }

    /// The topics that have retained messages, in order.
    pub fn topics(&self) -> (r: Vec<String>)
        ensures
            r@.map_values(|t: String| t@) == self@.map_values(|e: RetainedView| e.topic),
    {
        let mut r: Vec<String> = Vec::new();
        let mut i: usize = 0;
        while i < self.entries.len()
            invariant
                i <= self@.len(),
                self@ == self.entries@.map_values(|e: RetainedEntry| e.view()),
                r@.map_values(|t: String| t@) == self@.map_values(|e: RetainedView| e.topic).take(i as int),
            decreases self.entries.len() - i,
        {
            let ghost before = r@.map_values(|t: String| t@);
            let t = copy_string(&self.entries[i].topic);
            assert(self@[i as int].topic == t@);
            r.push(t);
            assert(r@.map_values(|t: String| t@) =~= before.push(t@));
            i = i + 1;
            assert(r@.map_values(|t: String| t@) =~= self@.map_values(|e: RetainedView| e.topic).take(i as int));
        }
        assert(self@.map_values(|e: RetainedView| e.topic).take(i as int) =~= self@.map_values(|e: RetainedView| e.topic));
        r
    }

    /// The retained messages of `topic`, oldest first.
    pub fn retained_for(&self, topic: &String) -> (r: Vec<String>)
        requires
            self.wf(),
        ensures
            r@.map_values(|s: String| s@) == retained_of(self@, topic@),
    {
        match self.position(topic) {
            Some(i) => {
                proof {
                    lemma_retained_at(self@, topic@, i as int);
                }
                copy_strings(&self.entries[i].messages)
            },
            None => {
                let r: Vec<String> = Vec::new();
                assert(r@.map_values(|s: String| s@) =~= retained_of(self@, topic@));
                r
            },
        }
    }
}

struct QueueEntry {
    client: String,
    frames: Vec<Vec<u8>>,
}

impl QueueEntry {
    spec fn view(&self) -> QueueView {
        QueueView { client: self.client@, frames: self.frames@.map_values(|f: Vec<u8>| f@) }
    }
}

/// Frames waiting for clients that are not connected.
pub struct OfflineQueues {
    entries: Vec<QueueEntry>,
}

impl View for OfflineQueues {
    type V = Seq<QueueView>;

    closed spec fn view(&self) -> Seq<QueueView> {
        self.entries@.map_values(|e: QueueEntry| e.view())
    }
}

impl OfflineQueues {
    /// The queues are well formed.
    pub open spec fn wf(&self) -> bool {
        queues_wf(self@)
    }

    /// No queues.
    pub fn new() -> (r: Self)
        ensures
            r@ == Seq::<QueueView>::empty(),
            r.wf(),
    {
        let r = OfflineQueues { entries: Vec::new() };
        assert(r@ =~= Seq::<QueueView>::empty());
        r
    }

    fn position(&self, client: &String) -> (r: Option<usize>)
        ensures
            match r {
                Some(i) => i < self@.len() && self@[i as int].client == client@,
                None => forall|i: int| 0 <= i < self@.len() ==> #[trigger] self@[i].client != client@,
            },
    {
        let mut i: usize = 0;
        while i < self.entries.len()
            invariant
                i <= self@.len(),
                self@ == self.entries@.map_values(|e: QueueEntry| e.view()),
                forall|k: int| 0 <= k < i ==> #[trigger] self@[k].client != client@,
            decreases self.entries.len() - i,
        {
            if same_string(&self.entries[i].client, client) {
                return Some(i);
            }
            i = i + 1;
        }
        None
    }

    /// Replaces the queue of `client` by `frames` and returns the old one.
    fn swap_queue(&mut self, client: &String, frames: Vec<Vec<u8>>) -> (r: Vec<Vec<u8>>)
        requires
            old(self).wf(),
        ensures
            final(self).wf(),
            r@.map_values(|f: Vec<u8>| f@) == queued_of(old(self)@, client@),
            queued_of(final(self)@, client@) == frames@.map_values(|f: Vec<u8>| f@),
            forall|c: Seq<char>| c != client@ ==> queued_of(final(self)@, c) == queued_of(old(self)@, c),
    {
        let ghost old_v = self@;
        match self.position(client) {
            Some(i) => {
                let mut e = QueueEntry { client: copy_string(client), frames };
                let ghost put = e.view();
                self.entries.set_and_swap(i, &mut e);
                assert(self@ =~= old_v.update(i as int, put));
                proof {
                    let new_v = self@;
                    assert forall|a: int, b: int| 0 <= a < b < new_v.len() implies #[trigger] new_v[a].client != #[trigger] new_v[b].client by {
                        assert(new_v[a].client == old_v[a].client);
                        assert(new_v[b].client == old_v[b].client);
                    }
                    lemma_queued_at(old_v, client@, i as int);
                    lemma_queued_at(new_v, client@, i as int);
                    assert forall|c: Seq<char>| c != client@ implies queued_of(new_v, c) == queued_of(old_v, c) by {
                        if exists|k: int| 0 <= k < old_v.len() && #[trigger] old_v[k].client == c {
                            let k = choose|k: int| 0 <= k < old_v.len() && #[trigger] old_v[k].client == c;
                            lemma_queued_at(old_v, c, k);
                            assert(new_v[k] == old_v[k]);
                            lemma_queued_at(new_v, c, k);
                        } else {
                            assert forall|k: int| 0 <= k < new_v.len() implies #[trigger] new_v[k].client != c by {
                                assert(new_v[k].client == old_v[k].client);
                            }
                        }
                    }
                }
                e.frames
            },
            None => {
                let e = QueueEntry { client: copy_string(client), frames };
                let ghost put = e.view();
                self.entries.push(e);
                assert(self@ =~= old_v.push(put));
                proof {
                    let new_v = self@;
                    assert forall|a: int, b: int| 0 <= a < b < new_v.len() implies #[trigger] new_v[a].client != #[trigger] new_v[b].client by {
                        assert(new_v[a] == old_v[a]);
                        if b < old_v.len() {
                            assert(new_v[b] == old_v[b]);
                        }
                    }
                    lemma_queued_at(new_v, client@, old_v.len() as int);
                    assert forall|c: Seq<char>| c != client@ implies queued_of(new_v, c) == queued_of(old_v, c) by {
                        if exists|k: int| 0 <= k < old_v.len() && #[trigger] old_v[k].client == c {
                            let k = choose|k: int| 0 <= k < old_v.len() && #[trigger] old_v[k].client == c;
                            lemma_queued_at(old_v, c, k);
                            assert(new_v[k] == old_v[k]);
                            lemma_queued_at(new_v, c, k);
                        } else {
                            assert forall|k: int| 0 <= k < new_v.len() implies #[trigger] new_v[k].client != c by {
                                if k < old_v.len() {
                                    assert(new_v[k] == old_v[k]);
                                }
                            }
                        }
                    }
                }
                let r: Vec<Vec<u8>> = Vec::new();
                assert(r@.map_values(|f: Vec<u8>| f@) =~= queued_of(old_v, client@));
                r
            },
        }
    }

    /// The clients that have a queue, in order.
    pub fn clients(&self) -> (r: Vec<String>)
        ensures
            r@.map_values(|t: String| t@) == self@.map_values(|e: QueueView| e.client),
    {
        let mut r: Vec<String> = Vec::new();
        let mut i: usize = 0;
        while i < self.entries.len()
            invariant
                i <= self@.len(),
                self@ == self.entries@.map_values(|e: QueueEntry| e.view()),
                r@.map_values(|t: String| t@) == self@.map_values(|e: QueueView| e.client).take(i as int),
            decreases self.entries.len() - i,
        {
            let ghost before = r@.map_values(|t: String| t@);
            let t = copy_string(&self.entries[i].client);
            assert(self@[i as int].client == t@);
            r.push(t);
            assert(r@.map_values(|t: String| t@) =~= before.push(t@));
            i = i + 1;
            assert(r@.map_values(|t: String| t@) =~= self@.map_values(|e: QueueView| e.client).take(i as int));
        }
        assert(self@.map_values(|e: QueueView| e.client).take(i as int) =~= self@.map_values(|e: QueueView| e.client));
        r
    }

    /// A copy of the queue of `client`.
    pub fn queued_for(&self, client: &String) -> (r: Vec<Vec<u8>>)
        requires
            self.wf(),
        ensures
            r@.map_values(|f: Vec<u8>| f@) == queued_of(self@, client@),
    {
        match self.position(client) {
            Some(i) => {
                proof {
                    lemma_queued_at(self@, client@, i as int);
                }
                let frames = &self.entries[i].frames;
                let mut r: Vec<Vec<u8>> = Vec::new();
                let mut k: usize = 0;
                while k < frames.len()
                    invariant
                        k <= frames@.len(),
                        r@.map_values(|f: Vec<u8>| f@) == frames@.map_values(|f: Vec<u8>| f@).take(k as int),
                    decreases frames.len() - k,
                {
                    let ghost before = r@.map_values(|f: Vec<u8>| f@);
                    let f = copy_bytes(&frames[k]);
                    r.push(f);
                    assert(r@.map_values(|f: Vec<u8>| f@) =~= before.push(f@));
                    k = k + 1;
                    assert(r@.map_values(|f: Vec<u8>| f@) =~= frames@.map_values(|f: Vec<u8>| f@).take(k as int));
                }
                assert(frames@.map_values(|f: Vec<u8>| f@).take(k as int) =~= frames@.map_values(|f: Vec<u8>| f@));
                assert(self@[i as int].frames == frames@.map_values(|f: Vec<u8>| f@));
                r
            },
            None => {
                let r: Vec<Vec<u8>> = Vec::new();
                assert(r@.map_values(|f: Vec<u8>| f@) =~= queued_of(self@, client@));
                r
            },
        }
    }

    /// Appends a frame to the queue of `client`.
    pub fn enqueue(&mut self, client: &String, frame: Vec<u8>)
        requires
            old(self).wf(),
        ensures
            final(self).wf(),
            queued_of(final(self)@, client@) == queued_of(old(self)@, client@).push(frame@),
            forall|c: Seq<char>| c != client@ ==> queued_of(final(self)@, c) == queued_of(old(self)@, c),
    {
        let ghost f = frame@;
        let mut frames = self.swap_queue(client, Vec::new());
        let ghost mid = self@;
        let ghost before = frames@.map_values(|x: Vec<u8>| x@);
        frames.push(frame);
        assert(frames@.map_values(|x: Vec<u8>| x@) =~= before.push(f));
        let _ = self.swap_queue(client, frames);
    }

    /// Takes the queue of `client`, leaving it empty.
    pub fn take(&mut self, client: &String) -> (r: Vec<Vec<u8>>)
        requires
            old(self).wf(),
        ensures
            final(self).wf(),
            r@.map_values(|f: Vec<u8>| f@) == queued_of(old(self)@, client@),
            queued_of(final(self)@, client@) == Seq::<Seq<u8>>::empty(),
            forall|c: Seq<char>| c != client@ ==> queued_of(final(self)@, c) == queued_of(old(self)@, c),
    {
        let empty: Vec<Vec<u8>> = Vec::new();
        assert(empty@.map_values(|f: Vec<u8>| f@) =~= Seq::<Seq<u8>>::empty());
        self.swap_queue(client, empty)
    }
}

} // verus!
